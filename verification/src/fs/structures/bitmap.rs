//! Bitmaps stored on a device.

use vstd::prelude::*;

use crate::dev::address::{fits_u64, lemma_address_ops, Address};
use crate::dev::{write_bytes, Device};
use crate::error::IoError;

verus! {

/// Number of set bits of a byte.
pub open spec fn set_bits(b: u8) -> nat {
    ((b & 1) + ((b >> 1u8) & 1) + ((b >> 2u8) & 1) + ((b >> 3u8) & 1) + ((b >> 4u8) & 1) + ((b >> 5u8) & 1) + ((b
        >> 6u8) & 1) + ((b >> 7u8) & 1)) as nat
}

/// Number of set bits of a byte, by pairs, nibbles, then the whole byte.
fn popcount(byte: u8) -> (res: u8)
    ensures
        res == set_bits(byte),
        res <= 8,
{
    assert(byte >= ((byte >> 1u8) & 0x55u8)) by (bit_vector);
    let mut count: u8 = byte - ((byte >> 1u8) & 0x55u8);
    assert(((count & 0x33u8) + ((count >> 2u8) & 0x33u8)) <= 255) by (bit_vector);
    let c2: u8 = (count & 0x33u8) + ((count >> 2u8) & 0x33u8);
    assert(c2 + (c2 >> 4u8) <= 255) by (bit_vector)
        requires
            c2 == (count & 0x33u8) + ((count >> 2u8) & 0x33u8),
    ;
    count = (c2 + (c2 >> 4u8)) & 0x0Fu8;
    assert(count == (byte & 1) + ((byte >> 1u8) & 1) + ((byte >> 2u8) & 1) + ((byte >> 3u8) & 1) + ((byte >> 4u8)
        & 1) + ((byte >> 5u8) & 1) + ((byte >> 6u8) & 1) + ((byte >> 7u8) & 1) && count <= 8) by (bit_vector)
        requires
            c2 == ((byte - ((byte >> 1u8) & 0x55u8)) as u8 & 0x33u8) + (((byte - ((byte >> 1u8) & 0x55u8)) as u8
                >> 2u8) & 0x33u8),
            count == (c2 + (c2 >> 4u8)) as u8 & 0x0Fu8,
            byte >= ((byte >> 1u8) & 0x55u8),
    ;
    count
}

/// Sum of the first `k` counts.
pub open spec fn count_sum(cs: Seq<usize>, k: int) -> nat
    decreases k,
{
    if k <= 0 {
        0
    } else {
        count_sum(cs, k - 1) + (cs[k - 1] as nat)
    }
}

/// The elements among the first `k` whose count is positive, with their positions.
pub open spec fn counted_elements(s: Seq<u8>, cs: Seq<usize>, k: int) -> Seq<(usize, u8)>
    decreases k,
{
    if k <= 0 {
        Seq::empty()
    } else if cs[k - 1] > 0 {
        counted_elements(s, cs, k - 1).push(((k - 1) as usize, s[k - 1]))
    } else {
        counted_elements(s, cs, k - 1)
    }
}

/// Whether the search stops after the first `k` elements: the `k`-th has a positive count and brings the
/// sum to `n` or more.
pub open spec fn stops_at(cs: Seq<usize>, n: nat, k: int) -> bool {
    1 <= k <= cs.len() && cs[k - 1] > 0 && count_sum(cs, k) >= n
}

/// Whether `cs` are counts that `count` can give for the first elements of `s`, one per element.
pub open spec fn counts_of<F: Fn(&u8) -> usize>(count: F, s: Seq<u8>, cs: Seq<usize>) -> bool {
    &&& cs.len() <= s.len()
    &&& forall|i: int| 0 <= i < cs.len() ==> call_ensures(count, (&s[i],), #[trigger] cs[i])
}

/// Whether the search has not stopped before its last count.
pub open spec fn still_searching(cs: Seq<usize>, n: nat) -> bool {
    forall|j: int| 0 <= j < cs.len() ==> !#[trigger] stops_at(cs, n, j)
}

/// What the search gives when `cs` are the counts it got: it stops after the last of them, or it went through
/// every element; either way, the elements with a positive count.
pub open spec fn search_outcome(s: Seq<u8>, cs: Seq<usize>, n: nat, res: Seq<(usize, u8)>) -> bool {
    &&& still_searching(cs, n)
    &&& stops_at(cs, n, cs.len() as int) || (cs.len() == s.len() && !stops_at(cs, n, cs.len() as int))
    &&& res == counted_elements(s, cs, cs.len() as int)
}

/// The set-bit counts of the bytes.
pub open spec fn set_counts(s: Seq<u8>) -> Seq<usize> {
    Seq::new(s.len(), |i: int| set_bits(s[i]) as usize)
}

/// The unset-bit counts of the bytes.
pub open spec fn unset_counts(s: Seq<u8>) -> Seq<usize> {
    Seq::new(s.len(), |i: int| (8 - set_bits(s[i])) as usize)
}

/// The sums and the counted elements up to `k` depend on the first `k` counts only.
proof fn lemma_prefix_determines(s: Seq<u8>, cs: Seq<usize>, ds: Seq<usize>, k: int)
    requires
        0 <= k <= cs.len(),
        k <= ds.len(),
        forall|i: int| 0 <= i < k ==> cs[i] == ds[i],
    ensures
        count_sum(cs, k) == count_sum(ds, k),
        counted_elements(s, cs, k) == counted_elements(s, ds, k),
    decreases k,
{
    if k > 0 {
        lemma_prefix_determines(s, cs, ds, k - 1);
    }
}

/// Counts of at most `b` each sum to at most `b * k`.
proof fn lemma_count_sum_bound(cs: Seq<usize>, k: int, b: nat)
    requires
        0 <= k <= cs.len(),
        forall|i: int| 0 <= i < k ==> cs[i] <= b,
    ensures
        count_sum(cs, k) <= b * k,
    decreases k,
{
    if k > 0 {
        lemma_count_sum_bound(cs, k - 1, b);
        assert(b * (k - 1) + b == b * k) by (nonlinear_arith);
    }
}

/// A bitmap read from a device: its bytes, where they start and how many there are.
pub struct Bitmap {
    inner: Vec<u8>,
    starting_addr: Address,
    length: u64,
}

impl Bitmap {
    /// The bytes of the bitmap.
    pub closed spec fn bytes(&self) -> Seq<u8> {
        self.inner@
    }

    /// Where the bitmap starts on the device.
    pub closed spec fn start(&self) -> Address {
        self.starting_addr
    }

    /// Length of the bitmap in bytes.
    pub closed spec fn spec_length(&self) -> u64 {
        self.length
    }

    /// The bitmap holds as many bytes as its length.
    pub closed spec fn wf(&self) -> bool {
        self.inner@.len() == self.length && fits_u64(self.starting_addr@ + self.length)
    }

    /// Reads the `length` bytes of the bitmap that starts at `starting_addr`; fails as reading the device does.
    pub fn new<D: Device>(device: &mut D, starting_addr: Address, length: u64) -> (res: Result<Self, IoError>)
        requires
            fits_u64(starting_addr@ + length),
        ensures
            final(device).contents() == old(device).contents(),
            res matches Ok(b) ==> b.wf() && b.start() == starting_addr && b.spec_length() == length && b.bytes()
                == old(device).contents().subrange(starting_addr@ as int, starting_addr@ + length),
    {
        proof {
            lemma_address_ops(starting_addr, starting_addr, length);
        }
        let end = starting_addr + length;
        let slice = match device.slice(starting_addr..end) {
            Ok(s) => s,
            Err(e) => return Err(e),
        };
        let bytes = slice.as_bytes();
        let mut inner: Vec<u8> = Vec::new();
        let mut i: usize = 0;
        while i < bytes.len()
            invariant
                i <= bytes@.len(),
                inner@ == bytes@.subrange(0, i as int),
            decreases bytes@.len() - i,
        {
            inner.push(bytes[i]);
            i = i + 1;
            assert(bytes@.subrange(0, i as int) =~= bytes@.subrange(0, i - 1).push(bytes@[i - 1]));
        }
        assert(bytes@.subrange(0, bytes@.len() as int) =~= bytes@);
        Ok(Bitmap { inner, starting_addr, length })
    }

    /// Length of the bitmap in bytes.
    pub fn length(&self) -> (res: u64)
        ensures
            res == self.spec_length(),
    {
        self.length
    }

    /// Where the bitmap starts on the device.
    pub fn starting_address(&self) -> (res: Address)
        ensures
            res == self.start(),
    {
        self.starting_addr
    }

    /// The bytes of the bitmap.
    pub fn as_slice(&self) -> (res: &[u8])
        ensures
            res@ == self.bytes(),
    {
        self.inner.as_slice()
    }

    /// Sets the byte at `index`.
    pub fn set(&mut self, index: usize, value: u8)
        requires
            index < old(self).bytes().len(),
        ensures
            final(self).bytes() == old(self).bytes().update(index as int, value),
            final(self).start() == old(self).start(),
            final(self).spec_length() == old(self).spec_length(),
            old(self).wf() ==> final(self).wf(),
    {
        self.inner.set(index, value);
    }

    /// Writes the bytes of the bitmap back where they were read; fails as the device does.
    pub fn write_back<D: Device>(&self, device: &mut D) -> (res: Result<(), IoError>)
        requires
            self.wf(),
        ensures
            res is Ok ==> final(device).contents() == write_bytes(
                old(device).contents(),
                self.start()@ as int,
                self.bytes(),
            ),
            res is Err ==> final(device).contents() == old(device).contents(),
    {
        proof {
            lemma_address_ops(self.starting_addr, self.starting_addr, self.length);
        }
        let end = self.starting_addr + self.length;
        let mut slice = match device.slice(self.starting_addr..end) {
            Ok(s) => s,
            Err(e) => return Err(e),
        };
        slice.write_at(0, self.inner.as_slice());
        let ghost written = slice.bytes();
        let commit = slice.commit();
        let res = device.commit(commit);
        proof {
            assert(written =~= self.inner@);
        }
        res
    }

    /// The first elements, with their positions, whose counts add up to `n` or more, keeping only those with
    /// a positive count; all of those when the counts add up to less than `n`. `count` is called once on each
    /// element, in order, until the search stops.
    pub fn find_to_count<F: Fn(&u8) -> usize>(&self, n: usize, count: F) -> (res: Vec<(usize, u8)>)
        requires
            forall|x: &u8| call_requires(count, (x,)),
            forall|cs: Seq<usize>|
                #[trigger] counts_of(count, self.bytes(), cs) && still_searching(cs, n as nat) ==> count_sum(
                    cs,
                    cs.len() as int,
                ) <= usize::MAX,
        ensures
            exists|cs: Seq<usize>| #[trigger]
                counts_of(count, self.bytes(), cs) && search_outcome(self.bytes(), cs, n as nat, res@),
    {
        let ghost s = self.inner@;
        let ghost mut cs: Seq<usize> = Seq::empty();
        let mut counter: usize = 0;
        let mut taken: Vec<(usize, u8)> = Vec::new();
        let mut index: usize = 0;
        while index < self.inner.len()
            invariant
                s == self.inner@,
                s == self.bytes(),
                forall|x: &u8| call_requires(count, (x,)),
                forall|cs: Seq<usize>|
                    #[trigger] counts_of(count, s, cs) && still_searching(cs, n as nat) ==> count_sum(
                        cs,
                        cs.len() as int,
                    ) <= usize::MAX,
                index <= s.len(),
                cs.len() == index,
                counts_of(count, s, cs),
                counter == count_sum(cs, index as int),
                taken@ == counted_elements(s, cs, index as int),
                still_searching(cs, n as nat),
                !stops_at(cs, n as nat, index as int),
            decreases s.len() - index,
        {
            let element = self.inner[index];
            let element_count = count(&element);
            let ghost next = cs.push(element_count);
            proof {
                lemma_prefix_determines(s, cs, next, index as int);
                assert(counts_of(count, s, next)) by {
                    assert forall|i: int| 0 <= i < next.len() implies call_ensures(count, (&s[i],), #[trigger] next[i]) by {
                        if i < index {
                            assert(next[i] == cs[i]);
                        }
                    }
                }
                assert(still_searching(next, n as nat)) by {
                    assert forall|j: int| 0 <= j < next.len() implies !#[trigger] stops_at(next, n as nat, j) by {
                        if j >= 1 {
                            lemma_prefix_determines(s, cs, next, j);
                            assert(stops_at(next, n as nat, j) == stops_at(cs, n as nat, j));
                        }
                    }
                }
                assert(count_sum(next, index + 1) == counter + element_count);
            }
            counter = counter + element_count;
            if element_count > 0 {
                taken.push((index, element));
                proof {
                    assert(taken@ == counted_elements(s, next, index + 1));
                }
                if counter >= n {
                    proof {
                        cs = next;
                        assert(search_outcome(s, cs, n as nat, taken@));
                    }
                    return taken;
                }
            }
            proof {
                cs = next;
            }
            index = index + 1;
        }
        proof {
            assert(search_outcome(s, cs, n as nat, taken@));
        }
        taken
    }

    /// Whether `res` is what the search gives on the counts `full` of all the bytes.
    pub open spec fn search_result(&self, full: Seq<usize>, n: nat, res: Seq<(usize, u8)>) -> bool {
        &&& forall|k: int|
            #[trigger] stops_at(full, n, k) && (forall|j: int| 0 <= j < k ==> !stops_at(full, n, j)) ==> res
                == counted_elements(self.bytes(), full, k)
        &&& (forall|k: int| !#[trigger] stops_at(full, n, k)) ==> res == counted_elements(
            self.bytes(),
            full,
            self.bytes().len() as int,
        )
    }

    /// The search on the counts `full` of all the bytes, from the counts that a deterministic count gave.
    proof fn lemma_search_on_all_counts(&self, cs: Seq<usize>, full: Seq<usize>, n: nat, res: Seq<(usize, u8)>)
        requires
            full.len() == self.bytes().len(),
            cs.len() <= full.len(),
            forall|i: int| 0 <= i < cs.len() ==> cs[i] == full[i],
            search_outcome(self.bytes(), cs, n, res),
        ensures
            self.search_result(full, n, res),
    {
        let s = self.bytes();
        let m = cs.len() as int;
        lemma_prefix_determines(s, cs, full, m);
        assert forall|j: int| 0 <= j <= m implies #[trigger] stops_at(full, n, j) == stops_at(cs, n, j) by {
            if j >= 1 {
                lemma_prefix_determines(s, cs, full, j);
            }
        }
        assert forall|k: int|
            #[trigger] stops_at(full, n, k) && (forall|j: int| 0 <= j < k ==> !stops_at(full, n, j)) implies res
            == counted_elements(s, full, k) by {
            if k < m {
                assert(stops_at(cs, n, k));
                assert(!stops_at(cs, n, k));
            } else if k > m {
                assert(!stops_at(full, n, m));
                assert(!stops_at(cs, n, m));
                assert(m == s.len());
            }
        }
        if forall|k: int| !#[trigger] stops_at(full, n, k) {
            assert(!stops_at(full, n, m));
            assert(!stops_at(cs, n, m));
            assert(m == s.len());
        }
    }

    /// The first bytes whose set bits number `n` or more (see [`find_to_count`](Bitmap::find_to_count)).
    pub fn find_n_set_bits(&self, n: usize) -> (res: Vec<(usize, u8)>)
        requires
            8 * self.bytes().len() <= usize::MAX,
        ensures
            self.search_result(set_counts(self.bytes()), n as nat, res@),
    {
        let count = |byte: &u8| -> (r: usize)
            ensures
                r == set_bits(*byte),
            { popcount(*byte) as usize };
        proof {
            assert forall|cs: Seq<usize>|
                #[trigger] counts_of(count, self.bytes(), cs) && still_searching(cs, n as nat) implies count_sum(
                cs,
                cs.len() as int,
            ) <= usize::MAX by {
                assert forall|i: int| 0 <= i < cs.len() implies cs[i] <= 8 by {
                    assert(call_ensures(count, (&self.bytes()[i],), cs[i]));
                    let b = self.bytes()[i];
                    assert(set_bits(b) <= 8) by (bit_vector);
                }
                lemma_count_sum_bound(cs, cs.len() as int, 8);
            }
        }
        let res = self.find_to_count(n, count);
        proof {
            let cs = choose|cs: Seq<usize>| #[trigger]
                counts_of(count, self.bytes(), cs) && search_outcome(self.bytes(), cs, n as nat, res@);
            let full = set_counts(self.bytes());
            assert forall|i: int| 0 <= i < cs.len() implies cs[i] == full[i] by {
                assert(call_ensures(count, (&self.bytes()[i],), cs[i]));
            }
            self.lemma_search_on_all_counts(cs, full, n as nat, res@);
        }
        res
    }

    /// The first bytes whose unset bits number `n` or more (see [`find_to_count`](Bitmap::find_to_count)).
    pub fn find_n_unset_bits(&self, n: usize) -> (res: Vec<(usize, u8)>)
        requires
            8 * self.bytes().len() <= usize::MAX,
        ensures
            self.search_result(unset_counts(self.bytes()), n as nat, res@),
    {
        let count = |byte: &u8| -> (r: usize)
            ensures
                r == 8 - set_bits(*byte),
            { 8 - (popcount(*byte) as usize) };
        proof {
            assert forall|cs: Seq<usize>|
                #[trigger] counts_of(count, self.bytes(), cs) && still_searching(cs, n as nat) implies count_sum(
                cs,
                cs.len() as int,
            ) <= usize::MAX by {
                assert forall|i: int| 0 <= i < cs.len() implies cs[i] <= 8 by {
                    assert(call_ensures(count, (&self.bytes()[i],), cs[i]));
                }
                lemma_count_sum_bound(cs, cs.len() as int, 8);
            }
        }
        let res = self.find_to_count(n, count);
        proof {
            let cs = choose|cs: Seq<usize>| #[trigger]
                counts_of(count, self.bytes(), cs) && search_outcome(self.bytes(), cs, n as nat, res@);
            let full = unset_counts(self.bytes());
            assert forall|i: int| 0 <= i < cs.len() implies cs[i] == full[i] by {
                assert(call_ensures(count, (&self.bytes()[i],), cs[i]));
                let b = self.bytes()[i];
                assert(set_bits(b) <= 8) by (bit_vector);
            }
            self.lemma_search_on_all_counts(cs, full, n as nat, res@);
        }
        res
    }
}

} // verus!
