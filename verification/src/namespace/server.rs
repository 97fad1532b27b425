//! The mount table of the namespace service and the requests it answers.

use vstd::prelude::*;
use vstd::bytes::{spec_u32_from_le_bytes, u32_from_le_bytes};
use vstd::slice::slice_subrange;

use crate::namespace::path::{
    bytes_equal, bytes_to_vec, normal_form, normalize_path, path_starts_with, starts_with_spec, strip_prefix,
    strip_prefix_spec, SLASH,
};
use crate::namespace::protocol::{
    MountFlags, NAMESPACE_BIND_FAILED, NAMESPACE_INVALID_ARGUMENT, NAMESPACE_RESOLVE_FAILED,
};
use crate::text::is_utf8;

verus! {

/// Errors of the mount table.
#[derive(Debug, Clone, Copy, PartialEq, Eq, Structural)]
pub enum NamespaceError {
    /// The path is not absolute (`EINVAL`).
    InvalidArgument,
    /// A mount point is already bound at the path (`EEXIST`).
    AlreadyExists,
    /// No mount point is bound at the path (`ESRCH`).
    NotBound,
    /// The path is under no mount point (`ENOENT`).
    NotFound,
}

/// A mount point: a normalized path bound to the name of a driver.
#[derive(Debug, Clone)]
pub struct NamespaceEntry {
    /// Normalized path of the mount point.
    pub path: Vec<u8>,
    /// Name of the driver that serves it.
    pub name: Vec<u8>,
    /// Rights attached to it.
    pub flags: MountFlags,
}

/// A mount point as a value: path, driver name and rights.
pub open spec fn entry_view(e: NamespaceEntry) -> (Seq<u8>, Seq<u8>, MountFlags) {
    (e.path@, e.name@, e.flags)
}

impl NamespaceEntry {
    /// A copy of the entry.
    pub fn duplicate(&self) -> (res: Self)
        ensures
            entry_view(res) == entry_view(*self),
    {
        NamespaceEntry {
            path: bytes_to_vec(self.path.as_slice()),
            name: bytes_to_vec(self.name.as_slice()),
            flags: self.flags,
        }
    }
}

/// The mount points of `m` whose path `path` lies under.
pub open spec fn matches(m: Seq<(Seq<u8>, Seq<u8>, MountFlags)>, path: Seq<u8>, i: int) -> bool {
    0 <= i < m.len() && starts_with_spec(path, m[i].0)
}

/// `i` is the first of the mount points under which `path` lies with the longest path.
pub open spec fn best_match(m: Seq<(Seq<u8>, Seq<u8>, MountFlags)>, path: Seq<u8>, i: int) -> bool {
    &&& matches(m, path, i)
    &&& forall|j: int| 0 <= j < i && #[trigger] matches(m, path, j) ==> m[j].0.len() < m[i].0.len()
    &&& forall|j: int| i < j < m.len() && #[trigger] matches(m, path, j) ==> m[j].0.len() <= m[i].0.len()
}

/// The mount table.
pub struct Namespace {
    mounts: Vec<NamespaceEntry>,
}

impl Namespace {
    /// The mount points, in the order they were bound.
    pub closed spec fn mounts_view(&self) -> Seq<(Seq<u8>, Seq<u8>, MountFlags)> {
        self.mounts@.map_values(|e: NamespaceEntry| entry_view(e))
    }

    /// No two mount points share a path.
    pub open spec fn wf(&self) -> bool {
        forall|i: int, j: int|
            0 <= i < self.mounts_view().len() && 0 <= j < self.mounts_view().len() && i != j
                ==> #[trigger] self.mounts_view()[i].0 != #[trigger] self.mounts_view()[j].0
    }

    /// An empty table.
    pub fn new() -> (res: Self)
        ensures
            res.wf(),
            res.mounts_view() == Seq::<(Seq<u8>, Seq<u8>, MountFlags)>::empty(),
    {
        let r = Namespace { mounts: Vec::new() };
        assert(r.mounts_view() =~= Seq::<(Seq<u8>, Seq<u8>, MountFlags)>::empty());
        r
    }

    /// Position of the mount point at `path`, if any.
    fn find(&self, path: &[u8]) -> (res: Option<usize>)
        ensures
            res matches Some(i) ==> i < self.mounts_view().len() && self.mounts_view()[i as int].0 == path@,
            res is None ==> forall|i: int| 0 <= i < self.mounts_view().len() ==> self.mounts_view()[i].0 != path@,
    {
        let mut i: usize = 0;
        while i < self.mounts.len()
            invariant
                i <= self.mounts@.len(),
                forall|k: int| 0 <= k < i ==> self.mounts_view()[k].0 != path@,
            decreases self.mounts@.len() - i,
        {
            if bytes_equal(self.mounts[i].path.as_slice(), path) {
                return Some(i);
            }
            i = i + 1;
        }
        None
    }

    /// Binds the driver `name` at the normal form of `path`: fails with
    /// [`NamespaceError::InvalidArgument`] when `path` is not absolute and with
    /// [`NamespaceError::AlreadyExists`] when a mount point is there already.
    pub fn bind(&mut self, path: &[u8], name: Vec<u8>, flags: MountFlags) -> (res: Result<(), NamespaceError>)
        requires
            old(self).wf(),
        ensures
            final(self).wf(),
            (path@.len() == 0 || path@[0] != SLASH) ==> res == Err::<(), NamespaceError>(
                NamespaceError::InvalidArgument,
            ) && final(self).mounts_view() == old(self).mounts_view(),
            (path@.len() > 0 && path@[0] == SLASH) ==> {
                let p = normal_form(path@);
                &&& (exists|i: int| 0 <= i < old(self).mounts_view().len() && #[trigger] old(self).mounts_view()[i].0 == p)
                    ==> res == Err::<(), NamespaceError>(NamespaceError::AlreadyExists) && final(self).mounts_view()
                    == old(self).mounts_view()
                &&& (forall|i: int| 0 <= i < old(self).mounts_view().len() ==> old(self).mounts_view()[i].0 != p)
                    ==> res == Ok::<(), NamespaceError>(()) && final(self).mounts_view() == old(
                    self,
                ).mounts_view().push((p, name@, flags))
            },
    {
        let p = match normalize_path(path) {
            Some(p) => p,
            None => return Err(NamespaceError::InvalidArgument),
        };
        if self.find(p.as_slice()).is_some() {
            return Err(NamespaceError::AlreadyExists);
        }
        let ghost before = self.mounts_view();
        let ghost e = (p@, name@, flags);
        self.mounts.push(NamespaceEntry { path: p, name, flags });
        assert(self.mounts_view() =~= before.push(e));
        Ok(())
    }

    /// Removes and returns the mount point at the normal form of `path`: fails with
    /// [`NamespaceError::InvalidArgument`] when `path` is not absolute and with [`NamespaceError::NotBound`]
    /// when no mount point is there.
    pub fn unbind(&mut self, path: &[u8]) -> (res: Result<NamespaceEntry, NamespaceError>)
        requires
            old(self).wf(),
        ensures
            final(self).wf(),
            (path@.len() == 0 || path@[0] != SLASH) ==> (res matches Err(e) && e == NamespaceError::InvalidArgument)
                && final(self).mounts_view() == old(self).mounts_view(),
            (path@.len() > 0 && path@[0] == SLASH) ==> {
                let p = normal_form(path@);
                &&& (forall|i: int| 0 <= i < old(self).mounts_view().len() ==> old(self).mounts_view()[i].0 != p)
                    ==> (res matches Err(e) && e == NamespaceError::NotBound) && final(self).mounts_view() == old(
                    self,
                ).mounts_view()
                &&& forall|i: int|
                    0 <= i < old(self).mounts_view().len() && #[trigger] old(self).mounts_view()[i].0 == p ==> (res matches Ok(
                        e,
                    ) && entry_view(e) == old(self).mounts_view()[i]) && final(self).mounts_view() == old(
                        self,
                    ).mounts_view().remove(i)
            },
    {
        let p = match normalize_path(path) {
            Some(p) => p,
            None => return Err(NamespaceError::InvalidArgument),
        };
        match self.find(p.as_slice()) {
            Some(i) => {
                let ghost before = self.mounts_view();
                let e = self.mounts.remove(i);
                assert(self.mounts_view() =~= before.remove(i as int));
                Ok(e)
            },
            None => Err(NamespaceError::NotBound),
        }
    }

    /// The mount point under which the normal form of `path` lies, with the longest path (the first bound of
    /// those), and what is left of the path below it: fails with [`NamespaceError::InvalidArgument`] when
    /// `path` is not absolute and with [`NamespaceError::NotFound`] when no mount point covers it.
    pub fn resolve(&self, path: &[u8]) -> (res: Result<(NamespaceEntry, Vec<u8>), NamespaceError>)
        ensures
            (path@.len() == 0 || path@[0] != SLASH) ==> (res matches Err(e) && e == NamespaceError::InvalidArgument),
            (path@.len() > 0 && path@[0] == SLASH) ==> {
                let p = normal_form(path@);
                let m = self.mounts_view();
                &&& (forall|i: int| !#[trigger] matches(m, p, i)) ==> (res matches Err(e) && e
                    == NamespaceError::NotFound)
                &&& forall|i: int| #[trigger] best_match(m, p, i) ==> (res matches Ok((e, rest)) && entry_view(e)
                    == m[i] && rest@ == strip_prefix_spec(p, m[i].0))
            },
    {
        let p = match normalize_path(path) {
            Some(p) => p,
            None => return Err(NamespaceError::InvalidArgument),
        };
        let ghost m = self.mounts_view();
        let mut best: Option<usize> = None;
        let mut i: usize = 0;
        while i < self.mounts.len()
            invariant
                i <= self.mounts@.len(),
                m == self.mounts_view(),
                best is None ==> forall|k: int| 0 <= k < i ==> !#[trigger] matches(m, p@, k),
                best matches Some(b) ==> b < i && matches(m, p@, b as int) && (forall|j: int|
                    0 <= j < b && #[trigger] matches(m, p@, j) ==> m[j].0.len() < m[b as int].0.len()) && (forall|
                    j: int,
                |
                    b < j < i && #[trigger] matches(m, p@, j) ==> m[j].0.len() <= m[b as int].0.len()),
            decreases self.mounts@.len() - i,
        {
            if path_starts_with(p.as_slice(), self.mounts[i].path.as_slice()) {
                match best {
                    None => {
                        best = Some(i);
                    },
                    Some(b) => {
                        if self.mounts[i].path.len() > self.mounts[b].path.len() {
                            best = Some(i);
                        }
                    },
                }
            }
            i = i + 1;
        }
        match best {
            Some(b) => {
                proof {
                    assert forall|k: int| #[trigger] best_match(m, p@, k) implies k == b as int by {
                        if k < b {
                            assert(m[k].0.len() <= m[b as int].0.len());
                        } else if k > b {
                            assert(m[b as int].0.len() < m[k].0.len());
                        }
                    }
                }
                let rest = strip_prefix(p.as_slice(), self.mounts[b].path.as_slice());
                Ok((self.mounts[b].duplicate(), rest))
            },
            None => Err(NamespaceError::NotFound),
        }
    }

    /// Answers an `Open` request whose data is the path: the mount point and what is left of the path, or
    /// [`NAMESPACE_INVALID_ARGUMENT`] when the path is not UTF-8 and [`NAMESPACE_RESOLVE_FAILED`] when it
    /// cannot be resolved.
    pub fn open_request(&self, data: &[u8]) -> (res: Result<(NamespaceEntry, Vec<u8>), i32>)
        ensures
            !vstd::utf8::valid_utf8(data@) ==> res == Err::<(NamespaceEntry, Vec<u8>), i32>(NAMESPACE_INVALID_ARGUMENT),
            vstd::utf8::valid_utf8(data@) && (data@.len() == 0 || data@[0] != SLASH) ==> res == Err::<
                (NamespaceEntry, Vec<u8>),
                i32,
            >(NAMESPACE_RESOLVE_FAILED),
            vstd::utf8::valid_utf8(data@) && data@.len() > 0 && data@[0] == SLASH ==> {
                let p = normal_form(data@);
                let m = self.mounts_view();
                &&& (forall|i: int| !#[trigger] matches(m, p, i)) ==> res == Err::<(NamespaceEntry, Vec<u8>), i32>(
                    NAMESPACE_RESOLVE_FAILED,
                )
                &&& forall|i: int| #[trigger] best_match(m, p, i) ==> (res matches Ok((e, rest)) && entry_view(e)
                    == m[i] && rest@ == strip_prefix_spec(p, m[i].0))
            },
    {
        if !is_utf8(data) {
            return Err(NAMESPACE_INVALID_ARGUMENT);
        }
        match self.resolve(data) {
            Ok(r) => Ok(r),
            Err(_) => Err(NAMESPACE_RESOLVE_FAILED),
        }
    }

    /// Answers a bind request: flags (4 bytes), path length (4 bytes), path, then the driver name, the
    /// integers little-endian. Fails with [`NAMESPACE_INVALID_ARGUMENT`] when fewer than 4 bytes come or the
    /// path or name is not UTF-8, and with [`NAMESPACE_BIND_FAILED`] when the binding is refused.
    pub fn bind_request(&mut self, data: &[u8]) -> (res: Result<(), i32>)
        requires
            old(self).wf(),
            data@.len() >= 4 ==> data@.len() >= 8 && 8 + spec_u32_from_le_bytes(data@.subrange(4, 8))
                <= data@.len(),
        ensures
            final(self).wf(),
            data@.len() < 4 ==> res == Err::<(), i32>(NAMESPACE_INVALID_ARGUMENT) && final(self).mounts_view()
                == old(self).mounts_view(),
            data@.len() >= 4 ==> {
                let path_end = 8 + spec_u32_from_le_bytes(data@.subrange(4, 8));
                let path = data@.subrange(8, path_end);
                let name = data@.subrange(path_end, data@.len() as int);
                let flags = spec_u32_from_le_bytes(data@.subrange(0, 4)) & 0b1111u32;
                let m = old(self).mounts_view();
                &&& !(vstd::utf8::valid_utf8(path) && vstd::utf8::valid_utf8(name)) ==> res == Err::<(), i32>(
                    NAMESPACE_INVALID_ARGUMENT,
                ) && final(self).mounts_view() == m
                &&& vstd::utf8::valid_utf8(path) && vstd::utf8::valid_utf8(name) && path.len() > 0 && path[0]
                    == SLASH && (forall|i: int| 0 <= i < m.len() ==> m[i].0 != normal_form(path)) ==> res == Ok::<
                    (),
                    i32,
                >(()) && final(self).mounts_view().len() == m.len() + 1 && final(self).mounts_view().drop_last()
                    == m && final(self).mounts_view().last().0 == normal_form(path)
                    && final(self).mounts_view().last().1 == name && final(self).mounts_view().last().2.spec_bits()
                    == flags
                &&& vstd::utf8::valid_utf8(path) && vstd::utf8::valid_utf8(name) && !(path.len() > 0 && path[0]
                    == SLASH && (forall|i: int| 0 <= i < m.len() ==> m[i].0 != normal_form(path))) ==> res
                    == Err::<(), i32>(NAMESPACE_BIND_FAILED) && final(self).mounts_view() == m
            },
    {
        if data.len() < 4 {
            return Err(NAMESPACE_INVALID_ARGUMENT);
        }
        let flags = u32_from_le_bytes(slice_subrange(data, 0, 4));
        let path_len = u32_from_le_bytes(slice_subrange(data, 4, 8)) as usize;
        let path = slice_subrange(data, 8, 8 + path_len);
        let name = slice_subrange(data, 8 + path_len, data.len());
        if !(is_utf8(path) && is_utf8(name)) {
            return Err(NAMESPACE_INVALID_ARGUMENT);
        }
        let ghost m = self.mounts_view();
        match self.bind(path, bytes_to_vec(name), MountFlags::from_bits_truncate(flags)) {
            Ok(()) => Ok(()),
            Err(_) => {
                assert(!(path@.len() > 0 && path@[0] == SLASH && (forall|i: int| 0 <= i < m.len() ==> m[i].0 != normal_form(path@))));
                Err(NAMESPACE_BIND_FAILED)
            },
        }
    }
}

/// The normal form of a path is absolute: it starts with `/`.
pub proof fn lemma_normal_form_absolute(path: Seq<u8>)
    ensures
        normal_form(path).len() > 0,
        normal_form(path)[0] == SLASH,
{
    let stack = crate::namespace::path::apply_components(crate::namespace::path::split_slash(path));
    if stack.len() > 0 {
        lemma_slash_joined_starts(stack);
    }
}

proof fn lemma_slash_joined_starts(stack: Seq<Seq<u8>>)
    requires
        stack.len() > 0,
    ensures
        crate::namespace::path::slash_joined(stack).len() > 0,
        crate::namespace::path::slash_joined(stack)[0] == SLASH,
    decreases stack.len(),
{
    let rest = crate::namespace::path::slash_joined(stack.drop_last());
    if stack.len() > 1 {
        lemma_slash_joined_starts(stack.drop_last());
        assert((rest + seq![SLASH] + stack.last())[0] == rest[0]);
    } else {
        assert(rest.len() == 0);
        assert((rest + seq![SLASH] + stack.last())[0] == SLASH);
    }
}

/// Once a driver is bound at an absolute path `p` where nothing was bound, resolving `p` finds that mount
/// point, with `/` left of the path.
pub proof fn lemma_bind_then_resolve(
    m: Seq<(Seq<u8>, Seq<u8>, MountFlags)>,
    p: Seq<u8>,
    name: Seq<u8>,
    flags: MountFlags,
)
    requires
        p.len() > 0,
        p[0] == SLASH,
        forall|i: int| 0 <= i < m.len() ==> m[i].0 != p,
    ensures
        best_match(m.push((p, name, flags)), p, m.len() as int),
        strip_prefix_spec(p, p) == seq![SLASH],
{
    let m2 = m.push((p, name, flags));
    assert(m2[m.len() as int].0 == p);
    assert forall|j: int| 0 <= j < m.len() && #[trigger] matches(m2, p, j) implies m2[j].0.len() < m2[m.len() as int].0.len() by {
        let q = m2[j].0;
        assert(q == m[j].0);
        if q == seq![SLASH] {
            if p.len() == 1 {
                assert(p =~= seq![SLASH]);
            }
        }
    }
}

/// Binding a driver at a path where nothing was bound and then unbinding that path gives back the table as
/// it was, and the bound mount point.
pub proof fn lemma_bind_then_unbind(m: Seq<(Seq<u8>, Seq<u8>, MountFlags)>, e: (Seq<u8>, Seq<u8>, MountFlags))
    requires
        forall|i: int| 0 <= i < m.len() ==> m[i].0 != e.0,
    ensures
        forall|i: int| 0 <= i < m.len() + 1 && #[trigger] m.push(e)[i].0 == e.0 ==> i == m.len(),
        m.push(e).remove(m.len() as int) == m,
        m.push(e)[m.len() as int] == e,
{
    assert(m.push(e).remove(m.len() as int) =~= m);
}

} // verus!
