//! The description of one axis: an ordered list of tracks.

use crate::units::UserUnits;
use vstd::prelude::*;

verus! {

/// One entry in the description of an axis.
#[derive(Clone, Copy, Debug)]
pub enum SpacerUnit {
    /// A track that stands once.
    Unit(UserUnits),
    /// A track that stands as often as the frames placed on it need.
    Repeat(UserUnits),
}

/// The tracks of one axis, first to last.
pub type GridSpacer = Vec<SpacerUnit>;

impl SpacerUnit {
    /// The size that the track is declared with.
    pub open spec fn unit(self) -> UserUnits {
        match self {
            SpacerUnit::Unit(u) => u,
            SpacerUnit::Repeat(u) => u,
        }
    }

    /// Whether the track repeats.
    pub open spec fn repeats(self) -> bool {
        self is Repeat
    }
}

/// How many entries of the description repeat.
pub open spec fn repeat_entries(spec: Seq<SpacerUnit>) -> nat
    decreases spec.len(),
{
    if spec.len() == 0 {
        0
    } else {
        repeat_entries(spec.drop_last()) + if spec.last().repeats() {
            1nat
        } else {
            0nat
        }
    }
}

/// How many entries of the description stand once.
pub open spec fn fixed_entries(spec: Seq<SpacerUnit>) -> nat
    decreases spec.len(),
{
    if spec.len() == 0 {
        0
    } else {
        fixed_entries(spec.drop_last()) + if spec.last().repeats() {
            0nat
        } else {
            1nat
        }
    }
}

/// The tracks that the one entry stands for when the repeating track stands
/// `repeat` times.
pub open spec fn block(entry: SpacerUnit, repeat: nat) -> Seq<UserUnits> {
    match entry {
        SpacerUnit::Unit(u) => seq![u],
        SpacerUnit::Repeat(u) => Seq::new(repeat, |i: int| u),
    }
}

/// The tracks that the description stands for, first to last: each entry once,
/// the repeating one `repeat` times in a row.
pub open spec fn materialize(spec: Seq<SpacerUnit>, repeat: nat) -> Seq<UserUnits>
    decreases spec.len(),
{
    if spec.len() == 0 {
        Seq::empty()
    } else {
        materialize(spec.drop_last(), repeat) + block(spec.last(), repeat)
    }
}

/// A description's entries add up.
pub proof fn lemma_entries(spec: Seq<SpacerUnit>)
    ensures
        fixed_entries(spec) + repeat_entries(spec) == spec.len(),
    decreases spec.len(),
{
    if spec.len() > 0 {
        lemma_entries(spec.drop_last());
    }
}

/// As many tracks stand as there are fixed entries, and `repeat` more for each
/// repeating one.
pub proof fn lemma_materialize_len(spec: Seq<SpacerUnit>, repeat: nat)
    ensures
        materialize(spec, repeat).len() == fixed_entries(spec) + repeat_entries(spec) * repeat,
    decreases spec.len(),
{
    if spec.len() > 0 {
        lemma_materialize_len(spec.drop_last(), repeat);
        let r = repeat_entries(spec.drop_last());
        if spec.last().repeats() {
            assert(repeat_entries(spec) == r + 1);
            assert((r + 1) * repeat == r * repeat + repeat) by (nonlinear_arith);
            assert(block(spec.last(), repeat).len() == repeat);
        } else {
            assert(repeat_entries(spec) == r);
            assert(block(spec.last(), repeat).len() == 1);
        }
    } else {
        assert(repeat_entries(spec) * repeat == 0) by (nonlinear_arith)
            requires
                repeat_entries(spec) == 0,
        ;
    }
}

/// Taking one more entry into account adds that entry's tracks at the end.
pub proof fn lemma_materialize_step(spec: Seq<SpacerUnit>, repeat: nat, i: int)
    requires
        0 <= i < spec.len(),
    ensures
        materialize(spec.take(i + 1), repeat) == materialize(spec.take(i), repeat) + block(
            spec[i],
            repeat,
        ),
{
    assert(spec.take(i + 1).drop_last() =~= spec.take(i));
    assert(spec.take(i + 1).last() == spec[i]);
}

/// The tracks that the description stands for, laid out one by one.
pub fn materialized(spec: &GridSpacer, repeat: usize) -> (tracks: Vec<UserUnits>)
    ensures
        tracks@ == materialize(spec@, repeat as nat),
{
    let mut tracks: Vec<UserUnits> = Vec::new();
    let mut i: usize = 0;
    while i < spec.len()
        invariant
            i <= spec.len(),
            tracks@ == materialize(spec@.take(i as int), repeat as nat),
        decreases spec.len() - i,
    {
        proof {
            lemma_materialize_step(spec@, repeat as nat, i as int);
        }
        match spec[i] {
            SpacerUnit::Unit(u) => {
                tracks.push(u);
                assert(tracks@ =~= materialize(spec@.take(i as int), repeat as nat) + seq![u]);
            },
            SpacerUnit::Repeat(u) => {
                let ghost before = tracks@;
                let mut k: usize = 0;
                while k < repeat
                    invariant
                        k <= repeat,
                        tracks@ == before + Seq::new(k as nat, |j: int| u),
                    decreases repeat - k,
                {
                    tracks.push(u);
                    k = k + 1;
                    assert(tracks@ =~= before + Seq::new(k as nat, |j: int| u));
                }
            },
        }
        i = i + 1;
    }
    assert(spec@.take(spec.len() as int) =~= spec@);
    tracks
}

} // verus!
