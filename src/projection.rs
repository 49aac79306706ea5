//! Event projection: turning what the store hands out into a chronological sequence.
use vstd::prelude::*;
use vstd::seq_lib::{group_to_multiset_ensures, lemma_multiset_commutative};
use vstd::multiset::group_multiset_axioms;
use itertools::Itertools;

verus! {

/// One event of a room, as the console shows it: its origin timestamp in
/// milliseconds and its rendered text block.
pub struct RenderedEvent {
    pub origin_server_ts: u64,
    pub text: String,
}

/// `s` is non-decreasing in origin timestamp.
pub open spec fn chronological(s: Seq<RenderedEvent>) -> bool {
    forall|i: int, j: int|
        0 <= i < j < s.len() ==> #[trigger] s[i].origin_server_ts <= #[trigger] s[j].origin_server_ts
}

/// The events of `s` stamped with time `t`, in the order of `s`.
pub open spec fn stamped(s: Seq<RenderedEvent>, t: u64) -> Seq<RenderedEvent> {
    s.filter(|e: RenderedEvent| e.origin_server_ts == t)
}

/// The events that decoded, in the order in which the store handed them out.
pub open spec fn decoded(entries: Seq<Option<RenderedEvent>>) -> Seq<RenderedEvent>
    decreases entries.len(),
{
    if entries.len() == 0 {
        Seq::empty()
    } else {
        match entries[0] {
            Some(e) => seq![e] + decoded(entries.drop_first()),
            None => decoded(entries.drop_first()),
        }
    }
}

/// `out` holds exactly the events of `input`, non-decreasing in timestamp, and
/// events with one timestamp keep their order of `input`.
pub open spec fn stable_chronological_order(input: Seq<RenderedEvent>, out: Seq<RenderedEvent>) -> bool {
    &&& out.to_multiset() == input.to_multiset()
    &&& chronological(out)
    &&& forall|t: u64| #[trigger] stamped(out, t) == stamped(input, t)
}

/// Relies on `itertools::Itertools::sorted_by_key`, which collects the items and
/// sorts them with the stable `slice::sort_by_key`: the same events, ascending
/// by the key, equal keys in their former order.
#[verifier::external_body]
fn sorted_by_timestamp(events: Vec<RenderedEvent>) -> (r: Vec<RenderedEvent>)
    ensures
        stable_chronological_order(events@, r@),
{
    events.into_iter().sorted_by_key(|e| e.origin_server_ts).collect()
}

/// State-snapshot mode: the current state events of a room, whatever order the
/// store gave them in, in chronological order.
pub fn project_state(snapshot: Vec<RenderedEvent>) -> (r: Vec<RenderedEvent>)
    ensures
        stable_chronological_order(snapshot@, r@),
{
    sorted_by_timestamp(snapshot)
}

/// Full-timeline mode: entries that failed to decode (`None`) are dropped, the
/// rest come out in chronological order.
pub fn project_timeline(entries: Vec<Option<RenderedEvent>>) -> (r: Vec<RenderedEvent>)
    ensures
        stable_chronological_order(decoded(entries@), r@),
{
    let ghost all = entries@;
    let mut rest = entries;
    let mut kept: Vec<RenderedEvent> = Vec::new();
    while rest.len() > 0
        invariant
            decoded(all) == kept@ + decoded(rest@),
        decreases rest@.len(),
    {
        let ghost before = rest@;
        let entry = rest.remove(0);
        assert(rest@ == before.drop_first());
        match entry {
            Some(e) => {
                kept.push(e);
                assert(kept@ + decoded(rest@) =~= (kept@.drop_last() + (seq![e] + decoded(rest@))));
            },
            None => {},
        }
    }
    assert(kept@ + decoded(rest@) =~= kept@);
    sorted_by_timestamp(kept)
}

/// The origin timestamps of `s`, in order.
pub open spec fn timestamps(s: Seq<RenderedEvent>) -> Seq<u64> {
    s.map_values(|e: RenderedEvent| e.origin_server_ts)
}

/// Two chronological sequences of the same events carry the same timestamps
/// in the same order.
proof fn lemma_same_events_same_timestamps(a: Seq<RenderedEvent>, b: Seq<RenderedEvent>)
    requires
        chronological(a),
        chronological(b),
        a.to_multiset() == b.to_multiset(),
    ensures
        timestamps(a) == timestamps(b),
    decreases a.len(),
{
    broadcast use group_to_multiset_ensures, group_multiset_axioms;
    assert(a.len() == b.len()) by {
        assert(a.to_multiset().len() == a.len());
        assert(b.to_multiset().len() == b.len());
    }
    if a.len() == 0 {
        assert(timestamps(a) =~= timestamps(b));
    } else {
        assert(a.to_multiset().contains(a[0]));
        assert(a.to_multiset().contains(b[0]));
        let j = choose|j: int| 0 <= j < b.len() && b[j] == a[0];
        let i = choose|i: int| 0 <= i < a.len() && a[i] == b[0];
        assert(i == 0 || a[0].origin_server_ts <= a[i].origin_server_ts);
        assert(j == 0 || b[0].origin_server_ts <= b[j].origin_server_ts);
        let t0 = a[0].origin_server_ts;
        assert(b[0].origin_server_ts == t0);
        let b2 = b.remove(j);
        assert(b2.to_multiset() == b.to_multiset().remove(b[j]));
        assert(a.remove(0) =~= a.drop_first());
        assert(a.remove(0).to_multiset() == a.to_multiset().remove(a[0]));
        assert forall|x: int, y: int| 0 <= x < y < b2.len() implies
            #[trigger] b2[x].origin_server_ts <= #[trigger] b2[y].origin_server_ts by {
            let bx = if x < j { x } else { x + 1 };
            let by_ = if y < j { y } else { y + 1 };
            assert(b2[x] == b[bx] && b2[y] == b[by_]);
        }
        lemma_same_events_same_timestamps(a.drop_first(), b2);
        assert forall|k: int| 0 <= k < a.len() implies timestamps(a)[k] == timestamps(b)[k] by {
            if k > 0 {
                assert(timestamps(a)[k] == timestamps(a.drop_first())[k - 1]);
                assert(timestamps(a.drop_first())[k - 1] == timestamps(b2)[k - 1]);
                if k - 1 < j {
                    assert(b2[k - 1] == b[k - 1]);
                    assert(k - 1 == 0 || t0 <= b[k - 1].origin_server_ts);
                    assert(b[k - 1].origin_server_ts <= b[j].origin_server_ts);
                    assert(t0 <= b[k].origin_server_ts);
                    assert(k == j || b[k].origin_server_ts <= b[j].origin_server_ts);
                } else {
                    assert(b2[k - 1] == b[k]);
                }
            }
        }
        assert(timestamps(a) =~= timestamps(b));
    }
}

/// Each event that decoded occurs as often among the decoded events as it
/// occurs among the entries.
proof fn lemma_decoded_counts(entries: Seq<Option<RenderedEvent>>, e: RenderedEvent)
    ensures
        decoded(entries).to_multiset().count(e) == entries.to_multiset().count(Some(e)),
    decreases entries.len(),
{
    broadcast use group_to_multiset_ensures, group_multiset_axioms;
    if entries.len() > 0 {
        let rest = entries.drop_first();
        lemma_decoded_counts(rest, e);
        assert(entries =~= seq![entries[0]] + rest);
        lemma_multiset_commutative(seq![entries[0]], rest);
        assert(seq![entries[0]] =~= Seq::<Option<RenderedEvent>>::empty().push(entries[0]));
        match entries[0] {
            Some(x) => {
                lemma_multiset_commutative(seq![x], decoded(rest));
                assert(seq![x] =~= Seq::<RenderedEvent>::empty().push(x));
            },
            None => {},
        }
    }
}

/// The full-timeline output does not depend on the order in which the store
/// hands out its entries: for two entry sequences that are permutations of
/// each other, both outputs are chronological, hold the same events, and
/// carry the same timestamps in the same order.
pub proof fn timeline_order_ignores_store_order(
    e1: Seq<Option<RenderedEvent>>,
    e2: Seq<Option<RenderedEvent>>,
    o1: Seq<RenderedEvent>,
    o2: Seq<RenderedEvent>,
)
    requires
        e1.to_multiset() == e2.to_multiset(),
        stable_chronological_order(decoded(e1), o1),
        stable_chronological_order(decoded(e2), o2),
    ensures
        chronological(o1),
        chronological(o2),
        o1.to_multiset() == o2.to_multiset(),
        timestamps(o1) == timestamps(o2),
{
    assert forall|e: RenderedEvent| decoded(e1).to_multiset().count(e) == decoded(e2).to_multiset().count(e) by {
        lemma_decoded_counts(e1, e);
        lemma_decoded_counts(e2, e);
    }
    assert(decoded(e1).to_multiset() =~= decoded(e2).to_multiset());
    lemma_same_events_same_timestamps(o1, o2);
}

/// The state-snapshot output is chronological whatever order the store gave
/// the snapshot in, and two snapshots that hold the same events give the same
/// timestamps in the same order.
pub proof fn state_order_ignores_store_order(
    s1: Seq<RenderedEvent>,
    s2: Seq<RenderedEvent>,
    o1: Seq<RenderedEvent>,
    o2: Seq<RenderedEvent>,
)
    requires
        s1.to_multiset() == s2.to_multiset(),
        stable_chronological_order(s1, o1),
        stable_chronological_order(s2, o2),
    ensures
        chronological(o1),
        chronological(o2),
        timestamps(o1) == timestamps(o2),
{
    lemma_same_events_same_timestamps(o1, o2);
}

} // verus!
