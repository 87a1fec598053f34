//! The block comparator: membership search over one 16-byte block.
//!
//! Hardware with an explicit-length string-compare instruction maps these
//! operations onto it directly; this portable form compares the block's bytes
//! against the needle lanes one by one. Only the outward contract matters:
//! the sentinel `16` means "no match among the valid bytes", an explicit
//! valid length keeps bytes past the buffer's logical end from affecting the
//! result, and no byte outside the given window is ever read.

use crate::needle::AsciiChars;
use vstd::prelude::*;

verus! {

/// Whether bit `i` of a 16-bit match bitmap is set.
pub open spec fn bit_set(m: u16, i: int) -> bool {
    (m >> (i as u16)) & 1 == 1
}

/// A fresh bitmap has no bit set.
proof fn lemma_bit_zero(j: u16)
    by (bit_vector)
    ensures
        (0u16 >> j) & 1 == 0,
{
}

/// Setting bit `i` leaves every other bit as it was.
proof fn lemma_bit_or(m: u16, i: u16, j: u16)
    by (bit_vector)
    requires
        i < 16,
        j < 16,
    ensures
        i == j ==> ((m | (1u16 << i)) >> j) & 1 == 1,
        i != j ==> ((m | (1u16 << i)) >> j) & 1 == (m >> j) & 1,
{
}

impl AsciiChars {
    /// Index of the first byte within one block that belongs to the set.
    ///
    /// The block is the `window` bytes of `haystack` starting at `start`,
    /// never more than 16; `window` is the block's explicit valid length, so
    /// a block that extends past the haystack's logical end is searched only
    /// up to that end. Returns 16 as the sentinel for "no match among the
    /// valid bytes".
    pub fn first_match_index(&self, haystack: &[u8], start: usize, window: usize) -> (r: usize)
        requires
            self.wf(),
            start + window <= haystack@.len(),
            window <= 16,
        ensures
            r <= 16,
            r < 16 ==> r < window && self.has(haystack@[start + r]) && (forall|k: int|
                start <= k < start + r ==> !self.has(haystack@[k])),
            r == 16 ==> forall|k: int| start <= k < start + window ==> !self.has(haystack@[k]),
    {
        let hlen = haystack.len();
        let mut i: usize = 0;
        while i < window
            invariant
                self.wf(),
                i <= window,
                window <= 16,
                start + window <= hlen,
                hlen == haystack@.len(),
                forall|k: int| start <= k < start + i ==> !self.has(haystack@[k]),
            decreases window - i,
        {
            if self.contains_byte(haystack[start + i]) {
                return i;
            }
            i = i + 1;
        }
        16
    }

    /// Bitmap of the set members among the first `window` bytes of the
    /// haystack: bit `i` is set exactly when byte `i` belongs to the set.
    ///
    /// Resolves the leading partial block of a search. The hardware variant
    /// computes the mask over the whole aligned block and shifts the bits of
    /// the bytes before the buffer away; here those bytes are outside the
    /// buffer and contribute no bits in the first place, so the bitmap comes
    /// out already shifted.
    pub fn match_mask(&self, haystack: &[u8], window: usize) -> (r: u16)
        requires
            self.wf(),
            window <= haystack@.len(),
            window <= 16,
        ensures
            forall|i: int|
                0 <= i < 16 ==> (bit_set(r, i) <==> (i < window && self.has(haystack@[i]))),
    {
        let mut mask: u16 = 0;
        let mut i: usize = 0;
        proof {
            assert forall|j: int| 0 <= j < 16 implies !bit_set(0u16, j) by {
                lemma_bit_zero(j as u16);
            }
        }
        while i < window
            invariant
                self.wf(),
                i <= window,
                window <= 16,
                window <= haystack@.len(),
                forall|j: int| 0 <= j < 16 ==> (bit_set(mask, j) <==> (j < i && self.has(
                    haystack@[j],
                ))),
            decreases window - i,
        {
            let ghost prev = mask;
            if self.contains_byte(haystack[i]) {
                mask = mask | (1u16 << (i as u16));
                proof {
                    assert forall|j: int| 0 <= j < 16 implies (bit_set(mask, j) <==> (j == i
                        || bit_set(prev, j))) by {
                        lemma_bit_or(prev, i as u16, j as u16);
                    }
                }
            }
            i = i + 1;
        }
        mask
    }
}

/// Position of the lowest set bit of a match bitmap, or 16 when none is set.
pub fn lowest_bit_index(mask: u16) -> (r: usize)
    ensures
        r <= 16,
        r < 16 ==> bit_set(mask, r as int) && (forall|j: int| 0 <= j < r ==> !bit_set(mask, j)),
        r == 16 ==> forall|j: int| 0 <= j < 16 ==> !bit_set(mask, j),
{
    let mut i: usize = 0;
    while i < 16
        invariant
            i <= 16,
            forall|j: int| 0 <= j < i ==> !bit_set(mask, j),
        decreases 16 - i,
    {
        if (mask >> (i as u16)) & 1 == 1 {
            return i;
        }
        i = i + 1;
    }
    16
}

} // verus!
