//! Absolute paths of the namespace: normal form, prefix test and prefix removal, on the bytes of UTF-8 paths.

use vstd::prelude::*;

verus! {

/// The byte `/`.
pub const SLASH: u8 = 0x2F;

/// The byte `.`.
pub const DOT: u8 = 0x2E;

/// The parts of `s` between slashes, as `str::split('/')` gives them: one more than there are slashes.
pub open spec fn split_slash(s: Seq<u8>) -> Seq<Seq<u8>>
    decreases s.len(),
{
    if s.len() == 0 {
        seq![Seq::empty()]
    } else {
        let parts = split_slash(s.drop_last());
        if s.last() == SLASH {
            parts.push(Seq::empty())
        } else {
            parts.update(parts.len() - 1, parts.last().push(s.last()))
        }
    }
}

/// The stack of components after one more part: empty parts and `.` are skipped, `..` drops the last
/// component (if any), any other part is pushed.
pub open spec fn apply_component(stack: Seq<Seq<u8>>, part: Seq<u8>) -> Seq<Seq<u8>> {
    if part.len() == 0 || part == seq![DOT] {
        stack
    } else if part == seq![DOT, DOT] {
        if stack.len() > 0 {
            stack.drop_last()
        } else {
            stack
        }
    } else {
        stack.push(part)
    }
}

/// The components left after applying all the parts, in order.
pub open spec fn apply_components(parts: Seq<Seq<u8>>) -> Seq<Seq<u8>>
    decreases parts.len(),
{
    if parts.len() == 0 {
        Seq::empty()
    } else {
        apply_component(apply_components(parts.drop_last()), parts.last())
    }
}

/// Each component preceded by a slash.
pub open spec fn slash_joined(stack: Seq<Seq<u8>>) -> Seq<u8>
    decreases stack.len(),
{
    if stack.len() == 0 {
        Seq::empty()
    } else {
        slash_joined(stack.drop_last()) + seq![SLASH] + stack.last()
    }
}

/// The normal form of an absolute path: `/` followed by its components joined by slashes, after `.` and
/// empty components are dropped and each `..` removes the component before it; `/` when none is left.
pub open spec fn normal_form(path: Seq<u8>) -> Seq<u8> {
    let stack = apply_components(split_slash(path));
    if stack.len() == 0 {
        seq![SLASH]
    } else {
        slash_joined(stack)
    }
}

/// Whether `path` lies under `prefix`: `prefix` is `/`, or equals `path`, or is followed in `path` by a slash.
pub open spec fn starts_with_spec(path: Seq<u8>, prefix: Seq<u8>) -> bool {
    ||| prefix == seq![SLASH]
    ||| path == prefix
    ||| (prefix.len() < path.len() && path.subrange(0, prefix.len() as int) == prefix && path[prefix.len() as int]
        == SLASH)
}

/// What is left of `path` below `prefix`: `path` itself under `/`, `/` for the prefix itself, else `path`
/// without the prefix (or `path` whole when it does not start with `prefix`).
pub open spec fn strip_prefix_spec(path: Seq<u8>, prefix: Seq<u8>) -> Seq<u8> {
    if prefix == seq![SLASH] {
        path
    } else if path == prefix {
        seq![SLASH]
    } else if prefix.len() <= path.len() && path.subrange(0, prefix.len() as int) == prefix {
        path.subrange(prefix.len() as int, path.len() as int)
    } else {
        path
    }
}

/// Whether `a` and `b` hold the same bytes.
pub fn bytes_equal(a: &[u8], b: &[u8]) -> (res: bool)
    ensures
        res == (a@ == b@),
{
    if a.len() != b.len() {
        return false;
    }
    let mut i: usize = 0;
    while i < a.len()
        invariant
            a@.len() == b@.len(),
            i <= a@.len(),
            forall|k: int| 0 <= k < i ==> a@[k] == b@[k],
        decreases a@.len() - i,
    {
        if a[i] != b[i] {
            return false;
        }
        i = i + 1;
    }
    assert(a@ =~= b@);
    true
}

/// Whether the first bytes of `s` are those of `prefix`.
fn has_prefix(s: &[u8], prefix: &[u8]) -> (res: bool)
    ensures
        res == (prefix@.len() <= s@.len() && s@.subrange(0, prefix@.len() as int) == prefix@),
{
    if prefix.len() > s.len() {
        return false;
    }
    let mut i: usize = 0;
    while i < prefix.len()
        invariant
            prefix@.len() <= s@.len(),
            i <= prefix@.len(),
            forall|k: int| 0 <= k < i ==> s@[k] == prefix@[k],
        decreases prefix@.len() - i,
    {
        if s[i] != prefix[i] {
            assert(s@.subrange(0, prefix@.len() as int)[i as int] != prefix@[i as int]);
            return false;
        }
        i = i + 1;
    }
    assert(s@.subrange(0, prefix@.len() as int) =~= prefix@);
    true
}

/// Copies `s` into a new vector.
pub fn bytes_to_vec(s: &[u8]) -> (res: Vec<u8>)
    ensures
        res@ == s@,
{
    let mut out: Vec<u8> = Vec::new();
    let mut i: usize = 0;
    while i < s.len()
        invariant
            i <= s@.len(),
            out@ == s@.subrange(0, i as int),
        decreases s@.len() - i,
    {
        out.push(s[i]);
        i = i + 1;
        assert(s@.subrange(0, i as int) =~= s@.subrange(0, i - 1).push(s@[i - 1]));
    }
    assert(s@.subrange(0, s@.len() as int) =~= s@);
    out
}

/// Appends the bytes of `s` to `out`.
fn extend_bytes(out: &mut Vec<u8>, s: &[u8])
    ensures
        final(out)@ == old(out)@ + s@,
{
    let ghost start = out@;
    let mut i: usize = 0;
    while i < s.len()
        invariant
            i <= s@.len(),
            out@ == start + s@.subrange(0, i as int),
        decreases s@.len() - i,
    {
        out.push(s[i]);
        i = i + 1;
        assert(s@.subrange(0, i as int) =~= s@.subrange(0, i - 1).push(s@[i - 1]));
    }
    assert(s@.subrange(0, s@.len() as int) =~= s@);
}

/// The views of a stack of components.
pub open spec fn stack_view(stack: Seq<Vec<u8>>) -> Seq<Seq<u8>> {
    stack.map_values(|v: Vec<u8>| v@)
}

/// Applies one part to an executable stack of components.
fn push_component(stack: &mut Vec<Vec<u8>>, part: Vec<u8>)
    ensures
        stack_view(final(stack)@) == apply_component(stack_view(old(stack)@), part@),
{
    let ghost before = stack_view(stack@);
    if part.len() == 0 || (part.len() == 1 && part[0] == DOT) {
        assert(part@.len() == 1 ==> (part@ == seq![DOT] <==> part@[0] == DOT)) by {
            if part@.len() == 1 && part@[0] == DOT {
                assert(part@ =~= seq![DOT]);
            }
        }
    } else if part.len() == 2 && part[0] == DOT && part[1] == DOT {
        assert(part@ =~= seq![DOT, DOT]);
        if stack.len() > 0 {
            let _ = stack.pop();
            assert(stack_view(stack@) =~= before.drop_last());
        }
    } else {
        assert(part@ != seq![DOT]) by {
            if part@ == seq![DOT] {
                assert(part@.len() == 1 && part@[0] == DOT);
            }
        }
        assert(part@ != seq![DOT, DOT]) by {
            if part@ == seq![DOT, DOT] {
                assert(part@.len() == 2 && part@[0] == DOT && part@[1] == DOT);
            }
        }
        let ghost pv = part@;
        stack.push(part);
        assert(stack_view(stack@) =~= before.push(pv));
    }
}

/// The normal form of an absolute path; a path that does not start with `/` is refused with `None`.
pub fn normalize_path(path: &[u8]) -> (res: Option<Vec<u8>>)
    ensures
        (path@.len() == 0 || path@[0] != SLASH) ==> res is None,
        (path@.len() > 0 && path@[0] == SLASH) ==> (res matches Some(v) && v@ == normal_form(path@)),
{
    if path.len() == 0 || path[0] != SLASH {
        return None;
    }
    let mut stack: Vec<Vec<u8>> = Vec::new();
    let mut current: Vec<u8> = Vec::new();
    let mut i: usize = 0;
    proof {
        assert(path@.subrange(0, 0) =~= Seq::<u8>::empty());
        assert(split_slash(Seq::<u8>::empty()).drop_last() =~= Seq::<Seq<u8>>::empty());
        assert(stack_view(stack@) =~= Seq::<Seq<u8>>::empty());
    }
    while i < path.len()
        invariant
            i <= path@.len(),
            split_slash(path@.subrange(0, i as int)).len() >= 1,
            stack_view(stack@) == apply_components(split_slash(path@.subrange(0, i as int)).drop_last()),
            current@ == split_slash(path@.subrange(0, i as int)).last(),
        decreases path@.len() - i,
    {
        let ghost prev = path@.subrange(0, i as int);
        let ghost next = path@.subrange(0, i + 1);
        assert(next.drop_last() =~= prev);
        assert(next.last() == path@[i as int]);
        let c = path[i];
        if c == SLASH {
            let part = current;
            current = Vec::new();
            push_component(&mut stack, part);
            proof {
                let parts = split_slash(prev);
                assert(split_slash(next) == parts.push(Seq::empty()));
                assert(split_slash(next).drop_last() =~= parts);
                assert(parts.drop_last() =~= parts.subrange(0, parts.len() - 1));
            }
        } else {
            current.push(c);
            proof {
                let parts = split_slash(prev);
                assert(split_slash(next) == parts.update(parts.len() - 1, parts.last().push(c)));
                assert(split_slash(next).drop_last() =~= parts.drop_last());
            }
        }
        i = i + 1;
    }
    assert(path@.subrange(0, path@.len() as int) =~= path@);
    push_component(&mut stack, current);
    proof {
        let parts = split_slash(path@);
        assert(parts.drop_last().push(parts.last()) =~= parts);
        assert(parts =~= parts.drop_last().push(parts.last()));
        assert(apply_components(parts) == apply_component(apply_components(parts.drop_last()), parts.last()));
    }
    let ghost comps = stack_view(stack@);
    let mut out: Vec<u8> = Vec::new();
    if stack.len() == 0 {
        out.push(SLASH);
        assert(out@ =~= seq![SLASH]);
        return Some(out);
    }
    let mut k: usize = 0;
    while k < stack.len()
        invariant
            k <= stack@.len(),
            comps == stack_view(stack@),
            out@ == slash_joined(comps.subrange(0, k as int)),
        decreases stack@.len() - k,
    {
        out.push(SLASH);
        extend_bytes(&mut out, stack[k].as_slice());
        proof {
            let sub = comps.subrange(0, k + 1);
            assert(sub.drop_last() =~= comps.subrange(0, k as int));
            assert(sub.last() == stack@[k as int]@);
        }
        k = k + 1;
    }
    assert(comps.subrange(0, k as int) =~= comps);
    Some(out)
}

/// Whether `path` lies under `prefix` (see [`starts_with_spec`]).
pub fn path_starts_with(path: &[u8], prefix: &[u8]) -> (res: bool)
    ensures
        res == starts_with_spec(path@, prefix@),
{
    if prefix.len() == 1 && prefix[0] == SLASH {
        assert(prefix@ =~= seq![SLASH]);
        return true;
    }
    assert(prefix@ != seq![SLASH]) by {
        if prefix@ == seq![SLASH] {
            assert(prefix@.len() == 1 && prefix@[0] == SLASH);
        }
    }
    if bytes_equal(path, prefix) {
        return true;
    }
    prefix.len() < path.len() && has_prefix(path, prefix) && path[prefix.len()] == SLASH
}

/// What is left of `path` below `prefix` (see [`strip_prefix_spec`]).
pub fn strip_prefix(path: &[u8], prefix: &[u8]) -> (res: Vec<u8>)
    ensures
        res@ == strip_prefix_spec(path@, prefix@),
{
    if prefix.len() == 1 && prefix[0] == SLASH {
        assert(prefix@ =~= seq![SLASH]);
        return bytes_to_vec(path);
    }
    assert(prefix@ != seq![SLASH]) by {
        if prefix@ == seq![SLASH] {
            assert(prefix@.len() == 1 && prefix@[0] == SLASH);
        }
    }
    if bytes_equal(path, prefix) {
        let mut out: Vec<u8> = Vec::new();
        out.push(SLASH);
        assert(out@ =~= seq![SLASH]);
        return out;
    }
    if has_prefix(path, prefix) {
        let mut out: Vec<u8> = Vec::new();
        let mut i: usize = prefix.len();
        while i < path.len()
            invariant
                prefix@.len() <= i <= path@.len(),
                out@ == path@.subrange(prefix@.len() as int, i as int),
            decreases path@.len() - i,
        {
            out.push(path[i]);
            i = i + 1;
            assert(path@.subrange(prefix@.len() as int, i as int) =~= path@.subrange(
                prefix@.len() as int,
                i - 1,
            ).push(path@[i - 1]));
        }
        out
    } else {
        bytes_to_vec(path)
    }
}

} // verus!
