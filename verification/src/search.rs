//! Boundary-aware search: the main `find` query over a haystack, the
//! handling of the unaligned leading block, and the scalar reference scan.

use crate::block::bit_set;
use crate::block::lowest_bit_index;
use crate::needle::AsciiChars;
use vstd::prelude::*;

verus! {

/// What `find` answers: `r` is the index of the first byte of `h` that
/// belongs to the set `n`, or `None` when no byte of `h` does.
pub open spec fn first_match_is(n: AsciiChars, h: Seq<u8>, r: Option<usize>) -> bool {
    match r {
        Option::Some(i) => i < h.len() && n.has(h[i as int]) && (forall|k: int|
            0 <= k < i ==> !n.has(h[k])),
        Option::None => forall|k: int| 0 <= k < h.len() ==> !n.has(h[k]),
    }
}

/// Outcome of searching the leading partial block: either the whole search
/// is settled, or the leading bytes held no match and scanning continues
/// after the given number of consumed bytes.
enum InitialMatch {
    Complete(Option<usize>),
    Incomplete(usize),
}

impl AsciiChars {
    /// Search the leading partial block of a haystack whose first byte sits
    /// `lead` bytes past the start of its 16-byte block.
    ///
    /// The match bitmap over that block settles the search when it shows a
    /// match, or when the haystack ends inside the block; otherwise the
    /// leading `16 - lead` bytes are consumed and scanning continues on the
    /// aligned blocks that follow.
    ///
    /// The bitmap covers only in-bounds haystack bytes, so its lowest set
    /// bit always lies strictly within the haystack; a variant whose bitmap
    /// covers a whole block must additionally reject a candidate at or past
    /// the haystack's length, an easy off-by-one to get wrong when the
    /// length equals the candidate exactly.
    fn search_initial_unaligned(&self, haystack: &[u8], lead: usize) -> (r: InitialMatch)
        requires
            self.wf(),
            0 < lead < 16,
            haystack@.len() > 0,
        ensures
            match r {
                InitialMatch::Complete(res) => first_match_is(*self, haystack@, res),
                InitialMatch::Incomplete(consumed) => consumed == 16 - lead && consumed
                    <= haystack@.len() && (forall|k: int|
                    0 <= k < consumed ==> !self.has(haystack@[k])),
            },
    {
        let len = haystack.len();
        let leading_len = 16 - lead;
        let window = if len < leading_len {
            len
        } else {
            leading_len
        };
        let mask = self.match_mask(haystack, window);
        let idx = lowest_bit_index(mask);
        if idx < 16 {
            proof {
                assert(bit_set(mask, idx as int));
                assert(idx < window && self.has(haystack@[idx as int]));
                assert forall|k: int| 0 <= k < idx implies !self.has(haystack@[k]) by {
                    assert(!bit_set(mask, k));
                }
            }
            return InitialMatch::Complete(Option::Some(idx));
        }
        proof {
            assert forall|k: int| 0 <= k < window implies !self.has(haystack@[k]) by {
                assert(!bit_set(mask, k));
            }
        }
        if len < leading_len {
            InitialMatch::Complete(Option::None)
        } else {
            InitialMatch::Incomplete(leading_len)
        }
    }

    /// `find`, anchored so that the haystack's first byte sits `lead` bytes
    /// past the start of its first 16-byte block.
    ///
    /// With bounds-checked indexing the buffer's own start is the natural
    /// block origin, so [`AsciiChars::find`] uses a lead of zero; the
    /// contract holds for every lead, which is what makes anchoring the
    /// blocks to a hardware alignment boundary safe: wherever the block grid
    /// falls, the answer is the same.
    pub fn find_anchored(&self, haystack: &[u8], lead: usize) -> (r: Option<usize>)
        requires
            self.wf(),
            lead < 16,
        ensures
            first_match_is(*self, haystack@, r),
    {
        let len = haystack.len();
        if len == 0 {
            return Option::None;
        }
        let mut searched: usize = 0;
        if lead != 0 {
            match self.search_initial_unaligned(haystack, lead) {
                InitialMatch::Complete(res) => {
                    return res;
                },
                InitialMatch::Incomplete(consumed) => {
                    searched = consumed;
                },
            }
        }
        while searched < len
            invariant
                self.wf(),
                len == haystack@.len(),
                searched <= len,
                forall|k: int| 0 <= k < searched ==> !self.has(haystack@[k]),
            decreases len - searched,
        {
            let remaining = len - searched;
            let window = if remaining < 16 {
                remaining
            } else {
                16
            };
            let idx = self.first_match_index(haystack, searched, window);
            if idx < 16 {
                return Option::Some(searched + idx);
            }
            searched = searched + window;
        }
        Option::None
    }

    /// Index of the first byte of the haystack that belongs to the set, or
    /// `None` when no byte does. The empty haystack never has a match.
    pub fn find(&self, haystack: &[u8]) -> (r: Option<usize>)
        requires
            self.wf(),
        ensures
            first_match_is(*self, haystack@, r),
    {
        self.find_anchored(haystack, 0)
    }
}

/// What the scalar reference scan answers, given the input-output pairs the
/// predicate admits: `r` is the index of the first byte the predicate
/// accepts, or `None` when it rejects every byte.
pub open spec fn scalar_scan_is<F: Fn(u8) -> bool>(pred: F, h: Seq<u8>, r: Option<usize>) -> bool {
    match r {
        Option::Some(i) => i < h.len() && call_ensures(pred, (h[i as int],), true) && (forall|
            k: int,
        |
            0 <= k < i ==> call_ensures(pred, (h[k],), false)),
        Option::None => forall|k: int| 0 <= k < h.len() ==> call_ensures(pred, (h[k],), false),
    }
}

/// Linear left-to-right scan with a caller-supplied byte predicate: the
/// reference semantics that the block-oriented `find` reproduces, and the
/// search path for platforms without the block comparison primitive.
pub fn scalar_fallback_scan<F: Fn(u8) -> bool>(fallback: F, haystack: &[u8]) -> (r: Option<usize>)
    requires
        forall|b: u8| call_requires(fallback, (b,)),
    ensures
        scalar_scan_is(fallback, haystack@, r),
{
    let len = haystack.len();
    let mut i: usize = 0;
    while i < len
        invariant
            len == haystack@.len(),
            i <= len,
            forall|b: u8| call_requires(fallback, (b,)),
            forall|k: int| 0 <= k < i ==> call_ensures(fallback, (haystack@[k],), false),
        decreases len - i,
    {
        if fallback(haystack[i]) {
            return Option::Some(i);
        }
        i = i + 1;
    }
    Option::None
}

/// A haystack has at most one first match: any two answers that both satisfy
/// the `find` contract are equal.
pub proof fn lemma_first_match_unique(n: AsciiChars, h: Seq<u8>, r1: Option<usize>, r2: Option<
    usize,
>)
    requires
        first_match_is(n, h, r1),
        first_match_is(n, h, r2),
    ensures
        r1 == r2,
{
}

/// The empty haystack has no match, whatever the needle set holds.
pub proof fn lemma_empty_haystack_none(n: AsciiChars, h: Seq<u8>, r: Option<usize>)
    requires
        first_match_is(n, h, r),
        h.len() == 0,
    ensures
        r is None,
{
}

/// The block-oriented `find` and the scalar reference scan agree: whenever
/// the fallback predicate accepts exactly the bytes of the needle set, an
/// answer meeting `find`'s contract and an answer meeting the scalar scan's
/// contract are the same, for every haystack.
pub proof fn lemma_find_agrees_with_fallback<F: Fn(u8) -> bool>(
    n: AsciiChars,
    pred: F,
    h: Seq<u8>,
    fast: Option<usize>,
    slow: Option<usize>,
)
    requires
        forall|b: u8, res: bool| call_ensures(pred, (b,), res) ==> res == n.has(b),
        first_match_is(n, h, fast),
        scalar_scan_is(pred, h, slow),
    ensures
        fast == slow,
{
    match slow {
        Option::Some(i) => {
            assert(n.has(h[i as int]));
            assert forall|k: int| 0 <= k < i implies !n.has(h[k]) by {
                assert(call_ensures(pred, (h[k],), false));
            }
            lemma_first_match_unique(n, h, fast, slow);
        },
        Option::None => {
            assert forall|k: int| 0 <= k < h.len() implies !n.has(h[k]) by {
                assert(call_ensures(pred, (h[k],), false));
            }
            lemma_first_match_unique(n, h, fast, slow);
        },
    }
}

} // verus!
