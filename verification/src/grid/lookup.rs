//! From the index of a track to its place among the tracks that stand.

use crate::grid::track::{
    fixed_entries, lemma_entries, lemma_materialize_len, materialize, repeat_entries, GridSpacer,
    SpacerUnit,
};
use crate::handle::index_view;
use vstd::prelude::*;

verus! {

/// The same numbers, as the contracts count them.
pub open spec fn nats(s: Seq<usize>) -> Seq<nat> {
    s.map_values(|x: usize| x as nat)
}

/// The different indices from `fixed` on that occur in `indices`, each once,
/// in the order in which they first occur.
pub open spec fn distinct_beyond(indices: Seq<nat>, fixed: nat) -> Seq<nat>
    decreases indices.len(),
{
    if indices.len() == 0 {
        Seq::empty()
    } else {
        let rest = distinct_beyond(indices.drop_last(), fixed);
        let x = indices.last();
        if x >= fixed && !rest.contains(x) {
            rest.push(x)
        } else {
            rest
        }
    }
}

/// How many of the numbers in `s` lie below `x`.
pub open spec fn count_below(s: Seq<nat>, x: nat) -> nat
    decreases s.len(),
{
    if s.len() == 0 {
        0
    } else {
        count_below(s.drop_last(), x) + if s.last() < x {
            1nat
        } else {
            0nat
        }
    }
}

/// How many fixed entries stand before the first repeating one: all of them
/// where none repeats.
pub open spec fn lead(spec: Seq<SpacerUnit>) -> nat
    decreases spec.len(),
{
    if spec.len() == 0 {
        0
    } else if repeat_entries(spec.drop_last()) > 0 {
        lead(spec.drop_last())
    } else if spec.last().repeats() {
        fixed_entries(spec.drop_last())
    } else {
        fixed_entries(spec.drop_last()) + 1
    }
}

/// Where, among the tracks that stand, the track with index `idx` is found.
///
/// An index below the count of fixed entries names that fixed track. A higher
/// index names a copy of the repeating track: the copies stand in the order of
/// the indices in use, of which `used` holds each once, so the copy for `idx`
/// is as far along as there are indices in use below `idx`. Nothing where the
/// axis has no such track.
pub open spec fn track_of(spec: Seq<SpacerUnit>, used: Seq<nat>, idx: nat) -> Option<nat> {
    if idx < fixed_entries(spec) {
        if idx < lead(spec) {
            Some(idx)
        } else {
            Some(idx + used.len())
        }
    } else if repeat_entries(spec) > 0 && used.contains(idx) {
        Some(lead(spec) + count_below(used, idx))
    } else {
        None
    }
}

/// The fixed entries before the first repeating one are fixed entries, and
/// all of them where nothing repeats.
pub proof fn lemma_lead(spec: Seq<SpacerUnit>)
    ensures
        lead(spec) <= fixed_entries(spec),
        repeat_entries(spec) == 0 ==> lead(spec) == fixed_entries(spec),
    decreases spec.len(),
{
    if spec.len() > 0 {
        lemma_lead(spec.drop_last());
    }
}

/// Fewer numbers lie below `x` than there are numbers, where `x` is one of them.
pub proof fn lemma_count_below(s: Seq<nat>, x: nat)
    ensures
        count_below(s, x) <= s.len(),
        s.contains(x) ==> count_below(s, x) < s.len(),
    decreases s.len(),
{
    if s.len() > 0 {
        lemma_count_below(s.drop_last(), x);
        if s.contains(x) && s.last() != x {
            let k = choose|k: int| 0 <= k < s.len() && s[k] == x;
            assert(s.drop_last()[k] == x);
        }
    }
}

/// `distinct_beyond` holds each index from `fixed` on that occurs, and holds
/// it once, so its length is the number of different such indices.
pub proof fn lemma_distinct_beyond(indices: Seq<nat>, fixed: nat)
    ensures
        distinct_beyond(indices, fixed).no_duplicates(),
        forall|x: nat| #[trigger]
            distinct_beyond(indices, fixed).contains(x) <==> (x >= fixed && indices.contains(x)),
    decreases indices.len(),
{
    let d = distinct_beyond(indices, fixed);
    if indices.len() > 0 {
        let rest = distinct_beyond(indices.drop_last(), fixed);
        let last = indices.last();
        lemma_distinct_beyond(indices.drop_last(), fixed);
        assert forall|x: nat| d.contains(x) <==> (x >= fixed && indices.contains(x)) by {
            let shorter = indices.drop_last();
            assert(rest.contains(x) <==> (x >= fixed && shorter.contains(x)));
            if d.contains(x) {
                let k = choose|k: int| 0 <= k < d.len() && d[k] == x;
                if k < rest.len() {
                    assert(rest[k] == x);
                    assert(rest.contains(x));
                    assert(shorter.contains(x));
                    let j = choose|j: int| 0 <= j < shorter.len() && shorter[j] == x;
                    assert(indices[j] == x);
                } else {
                    assert(x == last);
                    assert(indices[indices.len() - 1] == x);
                }
            }
            if x >= fixed && indices.contains(x) {
                let j = choose|j: int| 0 <= j < indices.len() && indices[j] == x;
                if j < indices.len() - 1 {
                    assert(shorter[j] == x);
                    assert(shorter.contains(x));
                    assert(rest.contains(x));
                    let k = choose|k: int| 0 <= k < rest.len() && rest[k] == x;
                    assert(d[k] == x);
                } else {
                    if rest.contains(x) {
                        let k = choose|k: int| 0 <= k < rest.len() && rest[k] == x;
                        assert(d[k] == x);
                    } else {
                        assert(d[d.len() - 1] == x);
                    }
                }
            }
        }
    }
}

/// A track that `track_of` finds is one of the tracks that stand.
pub proof fn lemma_track_in_range(spec: Seq<SpacerUnit>, used: Seq<nat>, idx: nat)
    ensures
        track_of(spec, used, idx) matches Some(t) ==> t < materialize(spec, used.len()).len(),
{
    lemma_lead(spec);
    lemma_entries(spec);
    lemma_materialize_len(spec, used.len());
    lemma_count_below(used, idx);
    let r = repeat_entries(spec);
    let n = used.len();
    if r > 0 {
        assert(r * n >= n) by (nonlinear_arith)
            requires
                r >= 1,
                n >= 0,
        ;
    }
}

/// The fixed tracks of an axis, whether it has a repeating one, and how many
/// fixed tracks stand before that.
pub fn count_entries(spec: &GridSpacer) -> (r: (usize, bool, usize))
    ensures
        r.0 == fixed_entries(spec@),
        r.1 == (repeat_entries(spec@) > 0),
        r.2 == lead(spec@),
{
    let mut fixed: usize = 0;
    let mut repeats: bool = false;
    let mut before: usize = 0;
    let mut i: usize = 0;
    assert(spec@.take(0) =~= Seq::<SpacerUnit>::empty());
    while i < spec.len()
        invariant
            i <= spec.len(),
            fixed == fixed_entries(spec@.take(i as int)),
            repeats == (repeat_entries(spec@.take(i as int)) > 0),
            before == lead(spec@.take(i as int)),
            fixed <= i,
            before <= fixed,
        decreases spec.len() - i,
    {
        assert(spec@.take(i + 1).drop_last() =~= spec@.take(i as int));
        match spec[i] {
            SpacerUnit::Unit(_) => {
                fixed = fixed + 1;
                if !repeats {
                    before = fixed;
                }
            },
            SpacerUnit::Repeat(_) => {
                if !repeats {
                    before = fixed;
                }
                repeats = true;
            },
        }
        i = i + 1;
    }
    assert(spec@.take(spec.len() as int) =~= spec@);
    (fixed, repeats, before)
}

/// Whether `x` is one of the numbers.
pub fn contains_index(v: &Vec<usize>, x: usize) -> (b: bool)
    ensures
        b == nats(v@).contains(x as nat),
{
    let mut k: usize = 0;
    while k < v.len()
        invariant
            k <= v.len(),
            forall|j: int| 0 <= j < k ==> nats(v@)[j] != x as nat,
        decreases v.len() - k,
    {
        if v[k] == x {
            assert(nats(v@)[k as int] == x as nat);
            return true;
        }
        k = k + 1;
    }
    false
}

/// How many of the numbers lie below `x`.
pub fn count_lower(v: &Vec<usize>, x: usize) -> (n: usize)
    ensures
        n == count_below(nats(v@), x as nat),
{
    let mut n: usize = 0;
    let mut k: usize = 0;
    assert(nats(v@).take(0) =~= Seq::<nat>::empty());
    while k < v.len()
        invariant
            k <= v.len(),
            n <= k,
            n == count_below(nats(v@).take(k as int), x as nat),
        decreases v.len() - k,
    {
        assert(nats(v@).take(k + 1).drop_last() =~= nats(v@).take(k as int));
        if v[k] < x {
            n = n + 1;
        }
        k = k + 1;
    }
    assert(nats(v@).take(v.len() as int) =~= nats(v@));
    n
}

/// Where, among the tracks that stand, the track with index `idx` is found.
pub(crate) fn track_index(spec: &GridSpacer, used: &Vec<usize>, idx: usize) -> (r: Option<usize>)
    requires
        materialize(spec@, used@.len()).len() <= usize::MAX,
    ensures
        index_view(r) == track_of(spec@, nats(used@), idx as nat),
{
    proof {
        lemma_track_in_range(spec@, nats(used@), idx as nat);
    }
    let (fixed, repeats, before) = count_entries(spec);
    if idx < fixed {
        if idx < before {
            Some(idx)
        } else {
            Some(idx + used.len())
        }
    } else if repeats && contains_index(used, idx) {
        let below = count_lower(used, idx);
        Some(before + below)
    } else {
        None
    }
}

} // verus!
