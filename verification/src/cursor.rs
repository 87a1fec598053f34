//! The search cursor: a sequential span producer built atop `find`, turning
//! single-match lookups into a monotonic sequence of `Match`/`Reject` spans.

use crate::needle::AsciiChars;
use crate::search::first_match_is;
use vstd::prelude::*;
use vstd::slice::slice_subrange;

verus! {

/// One step of cursor iteration: a half-open span of the haystack that is a
/// single matching byte (`Match`) or a run holding no matching byte
/// (`Reject`), or the terminal state once the haystack is exhausted.
#[derive(Clone, Copy, Debug, PartialEq, Eq, Structural)]
pub enum SearchStep {
    Match(usize, usize),
    Reject(usize, usize),
    Done,
}

/// A needle set paired with a fallback byte predicate.
///
/// The fallback must accept exactly the bytes of the needle set; it is the
/// search path for platforms without the block comparison primitive. A
/// mismatched pair is a caller contract violation, not checked at run time.
#[derive(Clone, Copy, Debug)]
pub struct AsciiCharsWithFallback<F> {
    pub inner: AsciiChars,
    pub fallback: F,
}

/// Cursor state for iterating over every span of one haystack. The offset
/// grows monotonically from 0 to the haystack's length and the cursor is
/// terminal once it arrives there; no span is ever revisited.
#[derive(Clone, Copy, Debug)]
pub struct AsciiCharsSearcher<'a, F> {
    pub haystack: &'a [u8],
    pub offset: usize,
    pub needle: AsciiCharsWithFallback<F>,
}

/// How one call of `AsciiCharsSearcher::next` relates the cursor offset
/// before (`off0`) and after (`off1`) to the step it yields: a `Match` span
/// is one matching byte at the old offset, a `Reject` span runs from the old
/// offset up to the next matching byte or the haystack's end, and `Done` is
/// yielded exactly when the haystack was already exhausted, leaving the
/// offset in place.
pub open spec fn advance_rel(
    n: AsciiChars,
    h: Seq<u8>,
    off0: int,
    step: SearchStep,
    off1: int,
) -> bool {
    match step {
        SearchStep::Match(a, b) => a == off0 && b == a + 1 && b <= h.len() && n.has(h[a as int])
            && off1 == b,
        SearchStep::Reject(a, b) => a == off0 && a < b && b <= h.len() && off1 == b && (forall|
            k: int,
        |
            a <= k < b ==> !n.has(h[k])) && (b == h.len() || n.has(h[b as int])),
        SearchStep::Done => off0 >= h.len() && off1 == off0,
    }
}

impl AsciiChars {
    /// Pair this set with a fallback predicate that accepts exactly the same
    /// bytes, yielding a value that can drive span iteration.
    pub fn with_fallback<F: Fn(u8) -> bool>(self, fallback: F) -> (r: AsciiCharsWithFallback<F>)
        ensures
            r.inner == self,
            r.fallback == fallback,
    {
        AsciiCharsWithFallback { inner: self, fallback }
    }
}

impl<F> AsciiCharsWithFallback<F> {
    /// Begin span iteration over one haystack.
    pub fn into_searcher<'a>(self, haystack: &'a [u8]) -> (r: AsciiCharsSearcher<'a, F>)
        ensures
            r.haystack@ == haystack@,
            r.offset == 0,
            r.needle == self,
    {
        AsciiCharsSearcher { haystack, offset: 0, needle: self }
    }
}

impl<'a, F> AsciiCharsSearcher<'a, F> {
    /// The haystack being iterated over.
    pub fn haystack(&self) -> (r: &'a [u8])
        ensures
            r@ == self.haystack@,
    {
        self.haystack
    }

    /// First match in the part of the haystack that is still unsearched.
    fn next_idx(&self, haystack: &[u8]) -> (r: Option<usize>)
        requires
            self.needle.inner.wf(),
        ensures
            first_match_is(self.needle.inner, haystack@, r),
    {
        self.needle.inner.find(haystack)
    }

    /// Yield the next span.
    pub fn next(&mut self) -> (r: SearchStep)
        requires
            old(self).needle.inner.wf(),
        ensures
            final(self).haystack@ == old(self).haystack@,
            final(self).needle == old(self).needle,
            final(self).offset >= old(self).offset,
            advance_rel(
                old(self).needle.inner,
                old(self).haystack@,
                old(self).offset as int,
                r,
                final(self).offset as int,
            ),
    {
        let hlen = self.haystack.len();
        if self.offset >= hlen {
            return SearchStep::Done;
        }
        let left_to_search = slice_subrange(self.haystack, self.offset, hlen);
        let idx_opt = self.next_idx(left_to_search);

        // Without a match, the rest of the haystack is one Reject span.
        let idx = match idx_opt {
            Option::Some(i) => i,
            Option::None => hlen - self.offset,
        };
        proof {
            let h = self.haystack@;
            let off = self.offset as int;
            let sub = left_to_search@;
            assert forall|k: int| 0 <= k < sub.len() implies sub[k] == h[off + k] by {}
            match idx_opt {
                Option::Some(i) => {
                    assert(sub[i as int] == h[off + i]);
                    assert forall|k: int| off <= k < off + i implies !self.needle.inner.has(
                        h[k],
                    ) by {
                        assert(!self.needle.inner.has(sub[k - off]));
                    }
                },
                Option::None => {
                    assert forall|k: int| off <= k < h.len() implies !self.needle.inner.has(
                        h[k],
                    ) by {
                        assert(!self.needle.inner.has(sub[k - off]));
                    }
                },
            }
        }
        let start = self.offset;
        if idx == 0 {
            // A match at the very start of the unsearched part.
            let next_offset = start + 1;
            self.offset = next_offset;
            SearchStep::Match(start, next_offset)
        } else {
            // A run without a match, up to the next match or the end.
            let next_offset = start + idx;
            self.offset = next_offset;
            SearchStep::Reject(start, next_offset)
        }
    }
}

/// The cursor partition law: the spans a cursor yields exactly partition the
/// haystack's index range, with no gaps and no overlaps.
///
/// A trace records the steps yielded by successive `next` calls and the
/// cursor offsets around them: `offs[i]` before step `i`, `offs[i + 1]`
/// after, starting from offset 0, each step related to its offsets as
/// `AsciiCharsSearcher::next` ensures. Along any such trace the offsets stay
/// within the haystack and never move backwards, so spans never overlap;
/// every position below the trace's frontier lies inside some yielded span,
/// so there is no gap; and once the cursor has yielded `Done`, the frontier
/// is the haystack's full length, so the spans cover all of it. That every
/// `Match` span has length one and lands on a needle byte is part of
/// `advance_rel` itself.
pub proof fn lemma_cursor_spans_partition(
    n: AsciiChars,
    h: Seq<u8>,
    steps: Seq<SearchStep>,
    offs: Seq<int>,
)
    requires
        offs.len() == steps.len() + 1,
        offs[0] == 0,
        forall|i: int| 0 <= i < steps.len() ==> advance_rel(n, h, offs[i], steps[i], offs[i + 1]),
    ensures
        forall|i: int| 0 <= i < offs.len() ==> 0 <= #[trigger] offs[i] <= h.len(),
        forall|i: int, j: int|
            0 <= i <= j < offs.len() ==> #[trigger] offs[i] <= #[trigger] offs[j],
        forall|p: int| 0 <= p < offs.last() ==> #[trigger] in_some_span(steps, offs, p),
        steps.len() > 0 && steps.last() is Done ==> offs.last() == h.len(),
    decreases steps.len(),
{
    let m: int = steps.len() as int;
    if m == 0 {
        assert(offs.last() == offs[0]);
    } else {
        let prev_steps = steps.drop_last();
        let prev_offs = offs.drop_last();
        assert(prev_offs[0] == offs[0]);
        assert forall|i: int| 0 <= i < prev_steps.len() implies advance_rel(
            n,
            h,
            prev_offs[i],
            prev_steps[i],
            prev_offs[i + 1],
        ) by {
            assert(advance_rel(n, h, offs[i], steps[i], offs[i + 1]));
        }
        lemma_cursor_spans_partition(n, h, prev_steps, prev_offs);
        assert forall|i: int| 0 <= i < prev_offs.len() implies #[trigger] prev_offs[i] == offs[i] by {}
        assert(advance_rel(n, h, offs[m - 1], steps[m - 1], offs[m]));
        assert(offs[m - 1] <= offs[m]);
        assert(0 <= offs[m] <= h.len());
        assert forall|i: int| 0 <= i < offs.len() implies 0 <= #[trigger] offs[i] <= h.len() by {
            if i < m {
                assert(0 <= prev_offs[i] <= h.len());
            }
        }
        assert forall|i: int, j: int| 0 <= i <= j < offs.len() implies #[trigger] offs[i] <= #[trigger] offs[j] by {
            if j < m {
                assert(prev_offs[i] <= prev_offs[j]);
            } else if i < m {
                assert(prev_offs[i] <= prev_offs[m - 1]);
            }
        }
        assert forall|p: int| 0 <= p < offs.last() implies in_some_span(steps, offs, p) by {
            if p < prev_offs.last() {
                assert(in_some_span(prev_steps, prev_offs, p));
                let w = choose|i: int|
                    0 <= i < prev_steps.len() && #[trigger] prev_offs[i] <= p < prev_offs[i + 1];
                assert(0 <= w < steps.len() && offs[w] <= p < offs[w + 1]);
            } else {
                assert(offs[m - 1] <= p < offs[m]);
            }
        }
    }
}

/// Whether position `p` of the haystack lies inside one of the spans of a
/// cursor trace: some step was yielded while the cursor stood at or before
/// `p` and moved past it.
pub open spec fn in_some_span(steps: Seq<SearchStep>, offs: Seq<int>, p: int) -> bool {
    exists|i: int| 0 <= i < steps.len() && #[trigger] offs[i] <= p < offs[i + 1]
}

} // verus!
