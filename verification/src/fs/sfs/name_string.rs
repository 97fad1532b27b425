//! SFS name strings: UTF-8, `<NUL>`-terminated strings without forbidden characters.

use vstd::prelude::*;
use vstd::string::StringSliceAdditionalSpecFns;
use vstd::slice::{slice_subrange, slice_to_vec};

use crate::error::{Error, FsError, PathError};
use crate::fs::sfs::error::SfsError;
use crate::text::is_utf8;

verus! {

/// Whether a byte is forbidden in SFS name strings: the bytes below `0x20`, those from `0x80` to `0x9F`, and
/// `"`, `*`, `:`, `<`, `>`, `?`, `\`, `<DEL>` (`0x7F`) and `<NBSP>` (`0xA0`).
pub open spec fn forbidden(c: u8) -> bool {
    ||| c < 0x20
    ||| 0x80 <= c <= 0x9F
    ||| c == 0x22
    ||| c == 0x2A
    ||| c == 0x3A
    ||| c == 0x3C
    ||| c == 0x3E
    ||| c == 0x3F
    ||| c == 0x5C
    ||| c == 0x7F
    ||| c == 0xA0
}

/// Returns whether the given character is forbidden in SFS name strings.
pub fn is_forbidden_character(c: &u8) -> (res: bool)
    ensures
        res == forbidden(*c),
{
    let c = *c;
    c < 0x20 || (0x80 <= c && c <= 0x9F) || c == 0x22 || c == 0x2A || c == 0x3A || c == 0x3C || c == 0x3E
        || c == 0x3F || c == 0x5C || c == 0x7F || c == 0xA0
}

/// Whether no byte of the sequence is forbidden.
pub open spec fn no_forbidden(s: Seq<u8>) -> bool {
    forall|i: int| 0 <= i < s.len() ==> !forbidden(#[trigger] s[i])
}

/// Whether a byte sequence is a valid name string: at least one character followed by a final `<NUL>`, and no
/// forbidden character before it.
pub open spec fn valid_name_string(s: Seq<u8>) -> bool {
    &&& s.len() > 1
    &&& no_forbidden(s.drop_last())
    &&& s.last() == 0
}

/// Checks whether the given byte sequence is a valid name string: no forbidden character appears, and the last
/// character is `<NUL>`.
pub fn is_valid_name_string(str: &[u8]) -> (res: bool)
    ensures
        res == valid_name_string(str@),
{
    if str.len() <= 1 {
        return false;
    }
    let n = str.len() - 1;
    let mut i: usize = 0;
    while i < n
        invariant
            n == str@.len() - 1,
            i <= n,
            forall|j: int| 0 <= j < i ==> !forbidden(#[trigger] str@[j]),
        decreases n - i,
    {
        if is_forbidden_character(&str[i]) {
            assert(!no_forbidden(str@.drop_last())) by {
                assert(str@.drop_last()[i as int] == str@[i as int]);
            }
            return false;
        }
        i = i + 1;
    }
    assert(no_forbidden(str@.drop_last())) by {
        assert forall|j: int| 0 <= j < str@.drop_last().len() implies !forbidden(#[trigger] str@.drop_last()[j]) by {
            assert(str@.drop_last()[j] == str@[j]);
        }
    }
    str[n] == 0
}

/// The prefix of a byte sequence up to its first `<NUL>` included, or the whole sequence followed by a `<NUL>`
/// when it has none.
pub open spec fn nul_cut(s: Seq<u8>) -> Seq<u8>
    decreases s.len(),
{
    if s.len() == 0 {
        seq![0u8]
    } else if s[0] == 0 {
        seq![0u8]
    } else {
        seq![s[0]] + nul_cut(s.drop_first())
    }
}

/// The cut at the first `<NUL>` is the prefix before it followed by a `<NUL>`.
proof fn lemma_nul_cut_prefix(s: Seq<u8>, i: int)
    requires
        0 <= i <= s.len(),
        forall|j: int| 0 <= j < i ==> s[j] != 0,
        i == s.len() || s[i] == 0,
    ensures
        nul_cut(s) == s.subrange(0, i).push(0u8),
    decreases i,
{
    if i == 0 {
        assert(s.subrange(0, 0).push(0u8) =~= seq![0u8]);
    } else {
        let t = s.drop_first();
        assert forall|j: int| 0 <= j < i - 1 implies t[j] != 0 by {
            assert(t[j] == s[j + 1]);
        }
        if i < s.len() {
            assert(t[i - 1] == s[i]);
        }
        lemma_nul_cut_prefix(t, i - 1);
        assert(seq![s[0]] + t.subrange(0, i - 1).push(0u8) =~= s.subrange(0, i).push(0u8));
    }
}

/// A SFS name string, without its final `<NUL>` character.
///
/// Its bytes are UTF-8 and hold no forbidden character; this is guaranteed at creation.
#[derive(Debug, Clone, PartialEq, Eq)]
pub struct NameString(Vec<u8>);

impl View for NameString {
    type V = Seq<u8>;

    closed spec fn view(&self) -> Seq<u8> {
        self.0@
    }
}

/// Whether an error reports the given bytes as an invalid name string.
pub open spec fn is_invalid_name_error(e: Error<SfsError>, bytes: Seq<u8>) -> bool {
    e matches Error::Fs(FsError::Implementation(SfsError::InvalidNameString(v))) && v@ == bytes
}

/// Whether the bytes form a name string accepted by [`NameString::new`]: a valid name string that is UTF-8.
pub open spec fn acceptable_name(bytes: Seq<u8>) -> bool {
    valid_name_string(bytes) && vstd::utf8::valid_utf8(bytes)
}

impl NameString {
    /// Returns a new valid [`NameString`] from the given sequence of bytes, which must end with `<NUL>`.
    ///
    /// Fails with [`SfsError::InvalidNameString`] (holding the given bytes) exactly when they are not a valid
    /// name string or not UTF-8.
    pub fn new(str: Vec<u8>) -> (res: Result<Self, Error<SfsError>>)
        ensures
            acceptable_name(str@) ==> (res matches Ok(n) && n@ == str@.drop_last()),
            !acceptable_name(str@) ==> (res matches Err(e) && is_invalid_name_error(e, str@)),
    {
        if is_valid_name_string(str.as_slice()) && is_utf8(str.as_slice()) {
            let n = str.len() - 1;
            let inner = slice_to_vec(slice_subrange(str.as_slice(), 0, n));
            assert(inner@ =~= str@.drop_last());
            Ok(NameString(inner))
        } else {
            Err(Error::Fs(FsError::Implementation(SfsError::InvalidNameString(str))))
        }
    }

    /// Returns a new valid [`NameString`] from the start of the given sequence of bytes, ending at the first
    /// `<NUL>` character encountered (a `<NUL>` is appended when there is none).
    ///
    /// Fails as [`new`](NameString::new) does on the cut bytes.
    pub fn new_from_start(seq: &[u8]) -> (res: Result<Self, Error<SfsError>>)
        ensures
            acceptable_name(nul_cut(seq@)) ==> (res matches Ok(n) && n@ == nul_cut(seq@).drop_last()),
            !acceptable_name(nul_cut(seq@)) ==> (res matches Err(e) && is_invalid_name_error(e, nul_cut(seq@))),
    {
        let mut i: usize = 0;
        while i < seq.len() && seq[i] != 0
            invariant
                i <= seq@.len(),
                forall|j: int| 0 <= j < i ==> seq@[j] != 0,
            decreases seq@.len() - i,
        {
            i = i + 1;
        }
        proof {
            lemma_nul_cut_prefix(seq@, i as int);
        }
        let mut cut = slice_to_vec(slice_subrange(seq, 0, i));
        cut.push(0u8);
        assert(cut@ =~= nul_cut(seq@));
        Self::new(cut)
    }

    /// Appends to the given [`NameString`] the other one.
    pub fn join(&mut self, other: &Self)
        ensures
            final(self)@ == old(self)@ + other@,
    {
        let mut tail = slice_to_vec(other.0.as_slice());
        self.0.append(&mut tail);
    }

    /// Returns the bytes of the name string, without the final `<NUL>`.
    pub fn as_bytes(&self) -> (res: &[u8])
        ensures
            res@ == self@,
    {
        self.0.as_slice()
    }

    /// Parses a string and returns a [`NameString`] if it is a valid name string once a `<NUL>` is appended.
    ///
    /// The string must not contain any `<NUL>` character (even at the end): the final one is added here.
    /// Fails with [`SfsError::InvalidNameString`], holding the bytes with the added `<NUL>`.
    pub fn parse_str(s: &str) -> (res: Result<Self, Error<SfsError>>)
        ensures
            valid_name_string(s.spec_bytes().push(0u8)) ==> (res matches Ok(n) && n@ == s.spec_bytes()),
            !valid_name_string(s.spec_bytes().push(0u8)) ==> (res matches Err(e) && is_invalid_name_error(
                e,
                s.spec_bytes().push(0u8),
            )),
    {
        let mut bytes = slice_to_vec(s.as_bytes());
        bytes.push(0u8);
        if is_valid_name_string(bytes.as_slice()) {
            Ok(NameString(slice_to_vec(s.as_bytes())))
        } else {
            Err(Error::Fs(FsError::Implementation(SfsError::InvalidNameString(bytes))))
        }
    }

    /// Returns the absolute path of this name string: a `/` followed by its bytes.
    pub fn to_path(&self) -> (res: Vec<u8>)
        ensures
            res@ == seq![0x2Fu8] + self@,
    {
        let mut res: Vec<u8> = Vec::new();
        res.push(0x2Fu8);
        let mut tail = slice_to_vec(self.0.as_slice());
        res.append(&mut tail);
        res
    }

    /// Returns the name string of an absolute path, given as its bytes: the path without its initial `/`.
    ///
    /// Fails with [`PathError::AbsolutePathRequired`] when the path does not start with `/`, and with
    /// [`SfsError::InvalidNameString`] (holding the bytes after the `/`) when they are empty or hold a forbidden
    /// character.
    pub fn from_path(path: &[u8]) -> (res: Result<Self, Error<SfsError>>)
        ensures
            (path@.len() == 0 || path@[0] != 0x2Fu8) ==> (res matches Err(Error::Path(
                PathError::AbsolutePathRequired(p),
            )) && p@ == path@),
            path@.len() > 0 && path@[0] == 0x2Fu8 ==> ({
                let rest = path@.drop_first();
                &&& (rest.len() > 0 && no_forbidden(rest)) ==> (res matches Ok(n) && n@ == rest)
                &&& !(rest.len() > 0 && no_forbidden(rest)) ==> (res matches Err(e) && is_invalid_name_error(
                    e,
                    rest,
                ))
            }),
    {
        if path.len() == 0 || path[0] != 0x2Fu8 {
            return Err(Error::Path(PathError::AbsolutePathRequired(slice_to_vec(path))));
        }
        let rest = slice_subrange(path, 1, path.len());
        assert(rest@ =~= path@.drop_first());
        let mut i: usize = 0;
        while i < rest.len()
            invariant
                i <= rest@.len(),
                path@.len() > 0,
                path@[0] == 0x2Fu8,
                rest@ == path@.drop_first(),
                forall|j: int| 0 <= j < i ==> !forbidden(#[trigger] rest@[j]),
            decreases rest@.len() - i,
        {
            if is_forbidden_character(&rest[i]) {
                assert(!no_forbidden(rest@)) by {
                    assert(forbidden(rest@[i as int]));
                }
                return Err(Error::Fs(FsError::Implementation(SfsError::InvalidNameString(slice_to_vec(rest)))));
            }
            i = i + 1;
        }
        if rest.len() == 0 {
            Err(Error::Fs(FsError::Implementation(SfsError::InvalidNameString(slice_to_vec(rest)))))
        } else {
            Ok(NameString(slice_to_vec(rest)))
        }
    }

    /// Returns the name string of the root directory, `/`.
    pub fn root() -> (res: Self)
        ensures
            res@ == seq![0x2Fu8],
    {
        let mut v: Vec<u8> = Vec::new();
        v.push(0x2Fu8);
        NameString(v)
    }
}

impl core::str::FromStr for NameString {
    type Err = Error<SfsError>;

    fn from_str(s: &str) -> (res: Result<Self, Self::Err>)
        ensures
            valid_name_string(s.spec_bytes().push(0u8)) ==> (res matches Ok(n) && n@ == s.spec_bytes()),
            !valid_name_string(s.spec_bytes().push(0u8)) ==> (res matches Err(e) && is_invalid_name_error(
                e,
                s.spec_bytes().push(0u8),
            )),
    {
        Self::parse_str(s)
    }
}

/// A name string read from the start of some bytes is valid on its own: cutting it again at its `<NUL>` gives
/// it back.
pub proof fn lemma_nul_cut_idempotent(s: Seq<u8>)
    ensures
        nul_cut(nul_cut(s)) == nul_cut(s),
    decreases s.len(),
{
    if s.len() == 0 || s[0] == 0 {
        assert(nul_cut(seq![0u8]) == seq![0u8]);
    } else {
        lemma_nul_cut_idempotent(s.drop_first());
        let c = nul_cut(s);
        assert(c.drop_first() =~= nul_cut(s.drop_first()));
    }
}

} // verus!
