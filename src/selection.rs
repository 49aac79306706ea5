//! Text filtering of rendered events.
use vstd::prelude::*;
use crate::projection::RenderedEvent;
use crate::text::{contains, occurs_in};

verus! {

/// The rendered text blocks of a sequence of events.
pub open spec fn blocks(events: Seq<RenderedEvent>) -> Seq<Seq<char>> {
    events.map_values(|e: RenderedEvent| e.text@)
}

/// The blocks that contain `pattern`.
pub open spec fn matching(b: Seq<Seq<char>>, pattern: Seq<char>) -> Seq<Seq<char>> {
    b.filter(|t: Seq<char>| occurs_in(t, pattern))
}

/// The blocks that are shown: all of them without a filter, else those that
/// contain the filter text.
pub open spec fn selected(b: Seq<Seq<char>>, filter: Option<Seq<char>>) -> Seq<Seq<char>> {
    match filter {
        None => b,
        Some(p) => matching(b, p),
    }
}

/// The view of an optional filter argument.
pub open spec fn filter_view(filter: Option<&str>) -> Option<Seq<char>> {
    match filter {
        Some(f) => Some(f@),
        None => None,
    }
}

/// The text blocks to print for `events`, in their order, keeping only those
/// that contain `filter` where one is given. The match is made on the
/// rendered text, so it reaches values nested in an event's payload.
pub fn select_blocks(events: &Vec<RenderedEvent>, filter: Option<&str>) -> (r: Vec<String>)
    ensures
        r@.map_values(|t: String| t@) == selected(blocks(events@), filter_view(filter)),
{
    let mut out: Vec<String> = Vec::new();
    let mut i: usize = 0;
    while i < events.len()
        invariant
            i <= events@.len(),
            out@.map_values(|t: String| t@) == selected(blocks(events@.subrange(0, i as int)), filter_view(filter)),
        decreases events@.len() - i,
    {
        let text = &events[i].text;
        let keep = match filter {
            Some(f) => contains(text.as_str(), f),
            None => true,
        };
        let ghost before = out@;
        if keep {
            out.push(text.clone());
        }
        proof {
            reveal(Seq::filter);
            let prev = blocks(events@.subrange(0, i as int));
            let next = blocks(events@.subrange(0, i + 1));
            assert(next =~= prev.push(events@[i as int].text@));
            assert(next.drop_last() =~= prev);
            if keep {
                assert(out@.map_values(|t: String| t@) =~= before.map_values(|t: String| t@).push(text@));
            } else {
                assert(out@.map_values(|t: String| t@) =~= before.map_values(|t: String| t@));
            }
        }
        i += 1;
    }
    assert(events@.subrange(0, i as int) =~= events@);
    out
}

/// `a` is `b` with some elements left out: `picks` gives, in increasing
/// order, the position in `b` of each element of `a`.
pub open spec fn picks_from<T>(a: Seq<T>, b: Seq<T>, picks: Seq<int>) -> bool {
    &&& picks.len() == a.len()
    &&& forall|k: int| 0 <= k < picks.len() ==> 0 <= #[trigger] picks[k] < b.len() && a[k] == b[picks[k]]
    &&& forall|k: int, l: int| 0 <= k < l < picks.len() ==> #[trigger] picks[k] < #[trigger] picks[l]
}

/// `a` is a subsequence of `b`.
pub open spec fn is_subsequence<T>(a: Seq<T>, b: Seq<T>) -> bool {
    exists|picks: Seq<int>| picks_from(a, b, picks)
}

/// Filtering only leaves blocks out: the filtered output is a subsequence of
/// the unfiltered output.
pub proof fn filtered_output_is_subsequence(b: Seq<Seq<char>>, filter: Option<Seq<char>>)
    ensures
        is_subsequence(selected(b, filter), b),
{
    match filter {
        None => {
            let picks = Seq::new(b.len(), |k: int| k);
            assert(picks_from(b, b, picks));
        },
        Some(p) => {
            lemma_matching_picks(b, p);
        },
    }
}

proof fn lemma_matching_picks(b: Seq<Seq<char>>, p: Seq<char>)
    ensures
        is_subsequence(matching(b, p), b),
    decreases b.len(),
{
    reveal(Seq::filter);
    if b.len() == 0 {
        assert(picks_from(matching(b, p), b, Seq::<int>::empty()));
    } else {
        let front = b.drop_last();
        lemma_matching_picks(front, p);
        let picks = choose|picks: Seq<int>| picks_from(matching(front, p), front, picks);
        assert(matching(b, p) == if occurs_in(b.last(), p) {
            matching(front, p).push(b.last())
        } else {
            matching(front, p)
        });
        if occurs_in(b.last(), p) {
            let more = picks.push(b.len() - 1);
            assert(picks_from(matching(b, p), b, more));
        } else {
            assert(picks_from(matching(b, p), b, picks));
        }
    }
}

/// Applying the same filter twice gives what applying it once gives.
pub proof fn filtering_is_idempotent(b: Seq<Seq<char>>, filter: Option<Seq<char>>)
    ensures
        selected(selected(b, filter), filter) == selected(b, filter),
{
    if let Some(p) = filter {
        lemma_matching_idempotent(b, p);
    }
}

proof fn lemma_matching_idempotent(b: Seq<Seq<char>>, p: Seq<char>)
    ensures
        matching(matching(b, p), p) == matching(b, p),
    decreases b.len(),
{
    reveal(Seq::filter);
    if b.len() > 0 {
        let front = b.drop_last();
        lemma_matching_idempotent(front, p);
        let once = matching(b, p);
        if occurs_in(b.last(), p) {
            assert(once == matching(front, p).push(b.last()));
            assert(once.drop_last() =~= matching(front, p));
        } else {
            assert(once == matching(front, p));
        }
    }
}

} // verus!
