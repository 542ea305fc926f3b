//! Which tracks a frame gets that leaves a coordinate open.
//!
//! A placement is a pair of track indices, major axis first. A newcomer that
//! leaves a coordinate open gets the lowest track of that axis which none of
//! its competitors holds.

use crate::grid::track::{fixed_entries, repeat_entries, SpacerUnit};
use vstd::prelude::*;

verus! {

/// The index of a track on one of the two axes.
pub open spec fn on_axis(c: (nat, nat), major_axis: bool) -> nat {
    if major_axis {
        c.0
    } else {
        c.1
    }
}

/// Whether a placement at `c` holds track `i` of the open axis against a
/// newcomer whose other coordinate is `other`: it competes where the other
/// coordinate is not known yet or is the same.
pub open spec fn holds(c: (nat, nat), major_axis: bool, other: Option<nat>, i: nat) -> bool {
    &&& on_axis(c, major_axis) == i
    &&& other matches Some(o) ==> on_axis(c, !major_axis) == o
}

/// Whether some competitor holds track `i` of the open axis.
pub open spec fn taken(coords: Seq<(nat, nat)>, major_axis: bool, other: Option<nat>, i: nat) -> bool {
    exists|k: int| 0 <= k < coords.len() && #[trigger] holds(coords[k], major_axis, other, i)
}

/// Whether `i` names a track of the axis: one of its fixed tracks, or, where
/// the axis has a repeating track, any index that a `usize` holds.
pub open spec fn is_track(spec: Seq<SpacerUnit>, i: nat) -> bool {
    i < fixed_entries(spec) || (repeat_entries(spec) > 0 && i <= usize::MAX)
}

/// Whether track `i` of the open axis can take the newcomer.
pub open spec fn is_free(
    coords: Seq<(nat, nat)>,
    spec: Seq<SpacerUnit>,
    major_axis: bool,
    other: Option<nat>,
    i: nat,
) -> bool {
    is_track(spec, i) && !taken(coords, major_axis, other, i)
}

/// Whether `i` is the lowest track of the open axis that can take the newcomer.
pub open spec fn is_lowest_free(
    coords: Seq<(nat, nat)>,
    spec: Seq<SpacerUnit>,
    major_axis: bool,
    other: Option<nat>,
    i: nat,
) -> bool {
    &&& is_free(coords, spec, major_axis, other, i)
    &&& forall|j: nat| j < i ==> !is_free(coords, spec, major_axis, other, j)
}

/// The lowest track of the open axis that can take the newcomer, if any can.
pub open spec fn next_slot(
    coords: Seq<(nat, nat)>,
    spec: Seq<SpacerUnit>,
    major_axis: bool,
    other: Option<nat>,
) -> Option<nat> {
    if exists|i: nat| is_lowest_free(coords, spec, major_axis, other, i) {
        Some(choose|i: nat| is_lowest_free(coords, spec, major_axis, other, i))
    } else {
        None
    }
}

/// The tracks that a newcomer gets: a coordinate that is asked for is kept,
/// one that is left open is the lowest free track. The major axis is settled
/// first, against the frames that share the cross coordinate asked for, or
/// against all where none is asked for; then the cross axis, against the
/// frames that share the major coordinate just settled. Nothing where an axis
/// that is left open has no free track.
pub open spec fn resolve(
    coords: Seq<(nat, nat)>,
    major: Seq<SpacerUnit>,
    cross: Seq<SpacerUnit>,
    want_major: Option<nat>,
    want_cross: Option<nat>,
) -> Option<(nat, nat)> {
    let got_major = match want_major {
        Some(m) => Some(m),
        None => next_slot(coords, major, true, want_cross),
    };
    match got_major {
        None => None,
        Some(m) => {
            let got_cross = match want_cross {
                Some(c) => Some(c),
                None => next_slot(coords, cross, false, Some(m)),
            };
            match got_cross {
                None => None,
                Some(c) => Some((m, c)),
            }
        },
    }
}

/// There is only one lowest free track.
pub proof fn lemma_lowest_free_unique(
    coords: Seq<(nat, nat)>,
    spec: Seq<SpacerUnit>,
    major_axis: bool,
    other: Option<nat>,
    i: nat,
)
    requires
        is_lowest_free(coords, spec, major_axis, other, i),
    ensures
        next_slot(coords, spec, major_axis, other) == Some(i),
{
    let j = choose|j: nat| is_lowest_free(coords, spec, major_axis, other, j);
    if j < i {
        assert(!is_free(coords, spec, major_axis, other, j));
    }
    if i < j {
        assert(!is_free(coords, spec, major_axis, other, i));
    }
}

/// Where no track is free there is no lowest free one.
pub proof fn lemma_no_free(
    coords: Seq<(nat, nat)>,
    spec: Seq<SpacerUnit>,
    major_axis: bool,
    other: Option<nat>,
)
    requires
        forall|i: nat| !is_free(coords, spec, major_axis, other, i),
    ensures
        next_slot(coords, spec, major_axis, other).is_none(),
{
}

/// An optional pair of tracks, as the contracts count it.
pub open spec fn slot_view(s: Option<(usize, usize)>) -> Option<(nat, nat)> {
    match s {
        Some(p) => Some((p.0 as nat, p.1 as nat)),
        None => None,
    }
}

/// Fewer placements than candidate tracks leave one of the candidates to
/// nobody.
proof fn lemma_one_is_left(
    coords: Seq<(nat, nat)>,
    major_axis: bool,
    other: Option<nat>,
    candidates: Seq<nat>,
)
    requires
        candidates.no_duplicates(),
        candidates.len() > coords.len(),
    ensures
        exists|j: int|
            0 <= j < candidates.len() && !taken(coords, major_axis, other, #[trigger] candidates[j]),
    decreases coords.len(),
{
    if coords.len() == 0 {
        assert(!taken(coords, major_axis, other, candidates[0]));
    } else {
        let rest = coords.drop_last();
        let v = on_axis(coords.last(), major_axis);
        let fewer = if candidates.contains(v) {
            candidates.remove(candidates.index_of(v))
        } else {
            candidates.drop_last()
        };
        assert(fewer.no_duplicates() && fewer.len() == candidates.len() - 1 && !fewer.contains(v)
            && forall|j: int|
            0 <= j < fewer.len() ==> candidates.contains(#[trigger] fewer[j])) by {
            if candidates.contains(v) {
                let at = candidates.index_of(v);
                assert forall|j: int| 0 <= j < fewer.len() implies fewer[j] != v
                    && candidates.contains(#[trigger] fewer[j]) by {
                    if j < at {
                        assert(fewer[j] == candidates[j]);
                    } else {
                        assert(fewer[j] == candidates[j + 1]);
                    }
                }
                assert forall|i: int, j: int|
                    0 <= i < fewer.len() && 0 <= j < fewer.len() && i != j implies fewer[i]
                    != fewer[j] by {
                    let a = if i < at {
                        i
                    } else {
                        i + 1
                    };
                    let b = if j < at {
                        j
                    } else {
                        j + 1
                    };
                    assert(fewer[i] == candidates[a] && fewer[j] == candidates[b]);
                }
            } else {
                assert forall|j: int| 0 <= j < fewer.len() implies fewer[j] != v
                    && candidates.contains(#[trigger] fewer[j]) by {
                    assert(fewer[j] == candidates[j]);
                }
            }
        }
        lemma_one_is_left(rest, major_axis, other, fewer);
        let j = choose|j: int|
            0 <= j < fewer.len() && !taken(rest, major_axis, other, #[trigger] fewer[j]);
        let w = fewer[j];
        assert(candidates.contains(w));
        assert(w != v);
        if taken(coords, major_axis, other, w) {
            let k = choose|k: int|
                0 <= k < coords.len() && #[trigger] holds(coords[k], major_axis, other, w);
            if k < rest.len() {
                assert(holds(rest[k], major_axis, other, w));
            }
        }
        let i = candidates.index_of(w);
        assert(!taken(coords, major_axis, other, candidates[i]));
    }
}

/// Among the first tracks, where one is free, one is the lowest free.
proof fn lemma_lowest_below(
    coords: Seq<(nat, nat)>,
    spec: Seq<SpacerUnit>,
    major_axis: bool,
    other: Option<nat>,
    i: nat,
)
    requires
        is_free(coords, spec, major_axis, other, i),
    ensures
        exists|j: nat| is_lowest_free(coords, spec, major_axis, other, j),
    decreases i,
{
    if exists|j: nat| j < i && is_free(coords, spec, major_axis, other, j) {
        let j = choose|j: nat| j < i && is_free(coords, spec, major_axis, other, j);
        lemma_lowest_below(coords, spec, major_axis, other, j);
    } else {
        assert(is_lowest_free(coords, spec, major_axis, other, i));
    }
}

/// An axis with a repeating track always has room: as long as there are
/// fewer placements than a track index can count, a coordinate left open on
/// that axis gets a track.
pub proof fn lemma_repeating_axis_has_room(
    coords: Seq<(nat, nat)>,
    spec: Seq<SpacerUnit>,
    major_axis: bool,
    other: Option<nat>,
)
    requires
        repeat_entries(spec) > 0,
        coords.len() < usize::MAX,
    ensures
        next_slot(coords, spec, major_axis, other).is_some(),
{
    let candidates = Seq::new(coords.len() + 1, |i: int| i as nat);
    lemma_one_is_left(coords, major_axis, other, candidates);
    let j = choose|j: int|
        0 <= j < candidates.len() && !taken(coords, major_axis, other, #[trigger] candidates[j]);
    assert(is_free(coords, spec, major_axis, other, j as nat));
    lemma_lowest_below(coords, spec, major_axis, other, j as nat);
}

/// A frame that leaves a coordinate open never lands on a frame that is
/// already there: the tracks it gets are tracks that no placement holds.
pub proof fn lemma_open_slot_is_empty(
    coords: Seq<(nat, nat)>,
    major: Seq<SpacerUnit>,
    cross: Seq<SpacerUnit>,
    want_major: Option<nat>,
    want_cross: Option<nat>,
)
    requires
        want_major.is_none() || want_cross.is_none(),
        resolve(coords, major, cross, want_major, want_cross).is_some(),
    ensures
        forall|k: int|
            0 <= k < coords.len() ==> #[trigger] coords[k] != resolve(
                coords,
                major,
                cross,
                want_major,
                want_cross,
            ).unwrap(),
{
    let slot = resolve(coords, major, cross, want_major, want_cross).unwrap();
    assert forall|k: int| 0 <= k < coords.len() implies #[trigger] coords[k] != slot by {
        if want_cross.is_none() {
            assert(next_slot(coords, cross, false, Some(slot.0)) == Some(slot.1));
            assert(is_lowest_free(coords, cross, false, Some(slot.0), slot.1));
            if coords[k] == slot {
                assert(holds(coords[k], false, Some(slot.0), slot.1));
            }
        } else {
            assert(next_slot(coords, major, true, want_cross) == Some(slot.0));
            assert(is_lowest_free(coords, major, true, want_cross, slot.0));
            if coords[k] == slot {
                assert(holds(coords[k], true, want_cross, slot.0));
            }
        }
    }
}

} // verus!
