//! Dividing a length among the tracks of one axis.
//!
//! A track of exact size takes what it declares. What the exact tracks leave
//! of the length, if anything, is shared among the weighted tracks in
//! proportion to their weights, each share rounded down to a whole unit. The
//! tracks then follow one another from the origin.

use crate::grid::track::{materialize, materialized, GridSpacer};
use crate::units::{div_nearest, saturate, Fractiont, Ratiot, UserUnits, VUnit};
use vstd::prelude::*;

verus! {

/// One track as it lies on the axis.
#[derive(Clone, Copy, Debug, PartialEq, Eq, Structural)]
pub struct SpacerSolved {
    /// Where the track begins.
    pub pos: VUnit,
    /// How far it reaches.
    pub len: VUnit,
}

/// A track's size, told apart by how it is found.
#[derive(Clone, Copy, Debug, PartialEq, Eq, Structural)]
pub enum SolveUnits {
    /// The track has this length whatever the others take.
    Exact(VUnit),
    /// The track shares what is left over, with this weight.
    Fraction(Fractiont),
}

/// The raw length of the given share of `len`: the nearest whole number of
/// pixels, halves away from zero.
pub open spec fn ratio_len(r: Ratiot, len: int) -> int {
    64 * div_nearest(len * r.numer(), 64 * (r.denom() as int))
}

/// How a track of the given size is found when `len` is divided.
pub open spec fn classify(u: UserUnits, len: int) -> SolveUnits {
    match u {
        UserUnits::Pixel(p) => SolveUnits::Exact(VUnit(saturate(p * 64) as i32)),
        UserUnits::Ratio(r) => SolveUnits::Exact(VUnit(saturate(ratio_len(r, len)) as i32)),
        UserUnits::Zero => SolveUnits::Exact(VUnit(0)),
        UserUnits::Fraction(f) => SolveUnits::Fraction(f),
    }
}

/// What the track takes for itself, which is nothing for a weighted track.
pub open spec fn exact_len(u: UserUnits, len: int) -> int {
    match classify(u, len) {
        SolveUnits::Exact(v) => v@,
        SolveUnits::Fraction(_) => 0,
    }
}

/// The weight with which the track shares, which is nothing for an exact track.
pub open spec fn weight(u: UserUnits) -> nat {
    match u {
        UserUnits::Fraction(f) => f as nat,
        _ => 0,
    }
}

/// What the exact tracks take together.
pub open spec fn exact_sum(m: Seq<UserUnits>, len: int) -> int
    decreases m.len(),
{
    if m.len() == 0 {
        0
    } else {
        exact_sum(m.drop_last(), len) + exact_len(m.last(), len)
    }
}

/// The weights of all weighted tracks together.
pub open spec fn weight_sum(m: Seq<UserUnits>) -> nat
    decreases m.len(),
{
    if m.len() == 0 {
        0
    } else {
        weight_sum(m.drop_last()) + weight(m.last())
    }
}

/// One for a weighted track, nothing for an exact one.
pub open spec fn weighted(u: UserUnits) -> nat {
    if u is Fraction {
        1
    } else {
        0
    }
}

/// How many tracks are weighted.
pub open spec fn weighted_count(m: Seq<UserUnits>) -> nat
    decreases m.len(),
{
    if m.len() == 0 {
        0
    } else {
        weighted_count(m.drop_last()) + weighted(m.last())
    }
}

/// What the exact tracks leave of `len`: never less than nothing.
pub open spec fn leftover(m: Seq<UserUnits>, len: int) -> int {
    let rest = len - exact_sum(m, len);
    if rest > 0 {
        rest
    } else {
        0
    }
}

/// The part of `left` that falls to the weight `w` out of `total`, rounded down.
pub open spec fn share(left: int, w: nat, total: nat) -> int {
    if total == 0 {
        0
    } else {
        (left * w) / (total as int)
    }
}

/// The length of track `i`.
pub open spec fn track_len(m: Seq<UserUnits>, len: int, i: int) -> int {
    match classify(m[i], len) {
        SolveUnits::Exact(v) => v@,
        SolveUnits::Fraction(f) => share(leftover(m, len), f as nat, weight_sum(m)),
    }
}

/// The lengths of the first `i` tracks together.
pub open spec fn len_sum(m: Seq<UserUnits>, len: int, i: nat) -> int
    decreases i,
{
    if i == 0 {
        0
    } else {
        len_sum(m, len, (i - 1) as nat) + track_len(m, len, i - 1)
    }
}

/// Where track `i` begins: at the origin, after all the tracks before it.
pub open spec fn track_pos(m: Seq<UserUnits>, origin: int, len: int, i: int) -> int {
    origin + len_sum(m, len, i as nat)
}

/// Track `i` as it is handed out, each number brought into a length's range.
pub open spec fn solved_track(m: Seq<UserUnits>, origin: int, len: int, i: int) -> SpacerSolved {
    SpacerSolved {
        pos: VUnit(saturate(track_pos(m, origin, len, i)) as i32),
        len: VUnit(saturate(track_len(m, len, i)) as i32),
    }
}

/// All tracks of an axis whose tracks have the sizes `m`, from `origin` on.
pub open spec fn solution(m: Seq<UserUnits>, origin: int, len: int) -> Seq<SpacerSolved> {
    Seq::new(m.len(), |i: int| solved_track(m, origin, len, i))
}

/// All tracks of the axis that `spec` describes, when its repeating track
/// stands `repeat` times.
pub open spec fn axis_solution(
    spec: Seq<crate::grid::track::SpacerUnit>,
    repeat: nat,
    origin: int,
    len: int,
) -> Seq<SpacerSolved> {
    solution(materialize(spec, repeat), origin, len)
}

/// The sums over one track more are the sums so far and that track's part.
pub proof fn lemma_sum_step(m: Seq<UserUnits>, len: int, i: int)
    requires
        0 <= i < m.len(),
    ensures
        exact_sum(m.take(i + 1), len) == exact_sum(m.take(i), len) + exact_len(m[i], len),
        weight_sum(m.take(i + 1)) == weight_sum(m.take(i)) + weight(m[i]),
        weighted_count(m.take(i + 1)) == weighted_count(m.take(i)) + weighted(m[i]),
{
    assert(m.take(i + 1).drop_last() =~= m.take(i));
    assert(m.take(i + 1).last() == m[i]);
}

/// No sum grows faster than its largest term allows.
pub proof fn lemma_sum_bounds(m: Seq<UserUnits>, len: int)
    ensures
        -0x8000_0000 * m.len() <= exact_sum(m, len) <= 0x8000_0000 * m.len(),
        weight_sum(m) <= 0xffff_ffff * m.len(),
        weighted_count(m) <= m.len(),
    decreases m.len(),
{
    if m.len() > 0 {
        lemma_sum_bounds(m.drop_last(), len);
    }
}

/// The weights of the first tracks are part of the weights of all, and so is
/// the weight of any one track.
pub proof fn lemma_weight_prefix(m: Seq<UserUnits>, i: int)
    requires
        0 <= i <= m.len(),
    ensures
        weight_sum(m.take(i)) <= weight_sum(m),
        i < m.len() ==> weight_sum(m.take(i)) + weight(m[i]) <= weight_sum(m),
    decreases m.len(),
{
    if i == m.len() {
        assert(m.take(i) =~= m);
    } else {
        assert(m.drop_last().take(i) =~= m.take(i));
        lemma_weight_prefix(m.drop_last(), i);
        if i == m.len() - 1 {
            assert(m.drop_last().take(i) =~= m.drop_last());
        }
    }
}

/// A share times the whole weight falls short of the product it was cut from
/// by less than the whole weight.
pub proof fn lemma_share(left: int, w: nat, total: nat)
    requires
        0 <= left,
        0 < total,
    ensures
        0 <= share(left, w, total),
        left * w - total < share(left, w, total) * total <= left * w,
        w <= total ==> share(left, w, total) <= left,
{
    let p = left * w;
    let t = total as int;
    assert(0 <= p) by (nonlinear_arith)
        requires
            p == left * w,
            0 <= left,
            0 <= w,
    ;
    vstd::arithmetic::div_mod::lemma_fundamental_div_mod(p, t);
    vstd::arithmetic::div_mod::lemma_mod_bound(p, t);
    vstd::arithmetic::div_mod::lemma_div_pos_is_pos(p, t);
    assert(t * (p / t) == (p / t) * t) by (nonlinear_arith);
    if w <= total {
        let q = p / t;
        assert(q <= left) by (nonlinear_arith)
            requires
                q * t <= left * w,
                0 <= w <= t,
                0 < t,
                0 <= left,
                0 <= q,
        ;
    }
}

/// What the first `i` tracks take together, told apart: the exact ones take
/// their exact lengths, and the weighted ones fall short of their full part of
/// the leftover by less than one unit each.
pub proof fn lemma_len_sum(m: Seq<UserUnits>, len: int, i: nat)
    requires
        i <= m.len(),
    ensures
        ({
            let left = leftover(m, len);
            let total = weight_sum(m) as int;
            let shared = len_sum(m, len, i) - exact_sum(m.take(i as int), len);
            let part = weight_sum(m.take(i as int)) as int;
            let count = weighted_count(m.take(i as int)) as int;
            &&& 0 <= shared
            &&& total == 0 ==> shared == 0
            &&& total > 0 ==> left * part - (total - 1) * count <= shared * total <= left * part
        }),
    decreases i,
{
    let left = leftover(m, len);
    let total = weight_sum(m) as int;
    if i == 0 {
        assert(m.take(0) =~= Seq::<UserUnits>::empty());
        assert(left * 0 == 0) by (nonlinear_arith);
        assert((total - 1) * 0 == 0) by (nonlinear_arith);
        assert(0 * total == 0) by (nonlinear_arith);
    } else {
        let j = (i - 1) as nat;
        lemma_len_sum(m, len, j);
        lemma_sum_step(m, len, j as int);
        let shared0 = len_sum(m, len, j) - exact_sum(m.take(j as int), len);
        let part0 = weight_sum(m.take(j as int)) as int;
        let count0 = weighted_count(m.take(j as int)) as int;
        match classify(m[j as int], len) {
            SolveUnits::Exact(v) => {},
            SolveUnits::Fraction(f) => {
                let s = share(left, f as nat, total as nat);
                if total > 0 {
                    lemma_share(left, f as nat, total as nat);
                    assert((shared0 + s) * total == shared0 * total + s * total)
                        by (nonlinear_arith);
                    assert(left * (part0 + f) == left * part0 + left * f) by (nonlinear_arith);
                    assert((total - 1) * (count0 + 1) == (total - 1) * count0 + (total - 1))
                        by (nonlinear_arith);
                }
            },
        }
    }
}

/// The tracks of an axis fill the length that is divided, but for what the
/// rounding of the shares loses: where some track is weighted, with a
/// positive weight, and the exact tracks fit into the length, all tracks
/// together take no more than the length and fall short of it by less than
/// one unit for each weighted track.
pub proof fn lemma_partition(m: Seq<UserUnits>, len: int)
    requires
        weight_sum(m) > 0,
        exact_sum(m, len) <= len,
    ensures
        len - weighted_count(m) < len_sum(m, len, m.len()) <= len,
        weighted_count(m) >= 1,
{
    let left = leftover(m, len);
    let total = weight_sum(m) as int;
    let count = weighted_count(m) as int;
    lemma_len_sum(m, len, m.len());
    assert(m.take(m.len() as int) =~= m);
    lemma_weighted_count(m);
    let shared = len_sum(m, len, m.len()) - exact_sum(m, len);
    assert(left - count < shared <= left) by (nonlinear_arith)
        requires
            left * total - (total - 1) * count <= shared * total <= left * total,
            total > 0,
            count >= 1,
    ;
}

/// Where the leftover is a length, every track's length is one too: what is
/// handed out for a track is then its length as it is, not the nearest end of
/// the range.
pub proof fn lemma_lengths_fit(m: Seq<UserUnits>, len: int, i: int)
    requires
        0 <= i < m.len(),
        leftover(m, len) <= i32::MAX,
    ensures
        saturate(track_len(m, len, i)) == track_len(m, len, i),
{
    match classify(m[i], len) {
        SolveUnits::Exact(v) => {},
        SolveUnits::Fraction(f) => {
            if weight_sum(m) > 0 {
                lemma_weight_prefix(m, i);
                lemma_share(leftover(m, len), f as nat, weight_sum(m));
            }
        },
    }
}

/// Where there is weight, a track carries it.
pub proof fn lemma_weighted_count(m: Seq<UserUnits>)
    ensures
        weight_sum(m) > 0 ==> weighted_count(m) >= 1,
    decreases m.len(),
{
    if m.len() > 0 {
        lemma_weighted_count(m.drop_last());
    }
}

/// The first `i` tracks together stay within what `i` exact tracks and the
/// whole leftover can come to.
pub proof fn lemma_len_sum_range(m: Seq<UserUnits>, len: int, i: nat)
    requires
        i <= m.len(),
    ensures
        -0x8000_0000 * i <= len_sum(m, len, i) <= 0x8000_0000 * i + leftover(m, len),
{
    let left = leftover(m, len);
    let total = weight_sum(m) as int;
    lemma_len_sum(m, len, i);
    lemma_sum_bounds(m.take(i as int), len);
    lemma_weight_prefix(m, i as int);
    let shared = len_sum(m, len, i) - exact_sum(m.take(i as int), len);
    let part = weight_sum(m.take(i as int)) as int;
    if total > 0 {
        assert(shared <= left) by (nonlinear_arith)
            requires
                shared * total <= left * part,
                0 <= part <= total,
                0 < total,
                0 <= left,
        ;
    }
}

/// Dividing what is not negative by what is positive gives no more than was
/// there, and nothing negative.
pub proof fn lemma_quotient_range(n: int, d: int)
    requires
        0 <= n,
        1 <= d,
    ensures
        0 <= n / d <= n,
{
    assert(0 <= n / d <= n) by (nonlinear_arith)
        requires
            0 <= n,
            1 <= d,
    ;
}

/// Tells an exact track from a weighted one, and finds the length of an exact
/// one when `len` is divided.
pub fn units_solve(u: UserUnits, len: VUnit) -> (r: SolveUnits)
    ensures
        r == classify(u, len@),
{
    match u {
        UserUnits::Pixel(p) => SolveUnits::Exact(VUnit::saturating(p as i128 * 64)),
        UserUnits::Ratio(ratio) => {
            let (num, den) = ratio.parts();
            proof {
                crate::units::lemma_product_in_range(len.0 as int, num as int / 2);
            }
            assert(-0x8000_0000_0000_0000 <= len.0 * num <= 0x8000_0000_0000_0000)
                by (nonlinear_arith)
                requires
                    -0x8000_0000 <= len.0 <= 0x8000_0000,
                    0 <= num <= 0x1_0000_0000,
            ;
            let a: i128 = len.0 as i128 * num as i128;
            let b: i128 = 64 * den as i128;
            let q: i128 = if a >= 0 {
                let n: i128 = 2 * a + b;
                proof {
                    lemma_quotient_range(n as int, 2 * b);
                }
                n / (2 * b)
            } else {
                let n: i128 = 2 * (-a) + b;
                proof {
                    lemma_quotient_range(n as int, 2 * b);
                }
                -(n / (2 * b))
            };
            SolveUnits::Exact(VUnit::saturating(64 * q))
        },
        UserUnits::Zero => SolveUnits::Exact(VUnit(0)),
        UserUnits::Fraction(f) => SolveUnits::Fraction(f),
    }
}

/// What the exact tracks take together, and the weights of the others together.
fn totals(units: &Vec<UserUnits>, len: VUnit) -> (t: (i128, u128))
    ensures
        t.0 == exact_sum(units@, len@),
        t.1 == weight_sum(units@),
        -0x8000_0000 * units@.len() <= t.0 <= 0x8000_0000 * units@.len(),
        t.1 <= 0xffff_ffff * units@.len(),
{
    let mut taken: i128 = 0;
    let mut total: u128 = 0;
    let mut i: usize = 0;
    assert(units@.take(0) =~= Seq::<UserUnits>::empty());
    while i < units.len()
        invariant
            i <= units.len(),
            taken == exact_sum(units@.take(i as int), len@),
            total == weight_sum(units@.take(i as int)),
            -0x8000_0000 * i <= taken <= 0x8000_0000 * i,
            total <= 0xffff_ffff * i,
        decreases units.len() - i,
    {
        proof {
            lemma_sum_step(units@, len@, i as int);
        }
        match units_solve(units[i], len) {
            SolveUnits::Exact(v) => {
                taken = taken + v.0 as i128;
            },
            SolveUnits::Fraction(f) => {
                total = total + f as u128;
            },
        }
        i = i + 1;
    }
    assert(units@.take(units.len() as int) =~= units@);
    (taken, total)
}

/// Lays the tracks of the given sizes out from `pos` on, dividing `len` among
/// them.
pub fn solve_tracks(units: &Vec<UserUnits>, pos: VUnit, len: VUnit) -> (tracks: Vec<SpacerSolved>)
    ensures
        tracks@ == solution(units@, pos@, len@),
{
    let (taken, total) = totals(units, len);
    let count: usize = units.len();
    assert(units@.len() == count <= 0xffff_ffff_ffff_ffff);
    let left: i128 = if len.0 as i128 - taken > 0 {
        len.0 as i128 - taken
    } else {
        0
    };
    let mut tracks: Vec<SpacerSolved> = Vec::new();
    let mut at: i128 = pos.0 as i128;
    let mut i: usize = 0;
    while i < units.len()
        invariant
            i <= units.len(),
            taken == exact_sum(units@, len@),
            total == weight_sum(units@),
            left == leftover(units@, len@),
            0 <= left <= 0x8000_0000 * units@.len() + 0x8000_0000,
            at == track_pos(units@, pos@, len@, i as int),
            tracks@.len() == i,
            forall|k: int|
                0 <= k < i ==> #[trigger] tracks@[k] == solved_track(units@, pos@, len@, k),
        decreases units.len() - i,
    {
        let size: i128 = match units_solve(units[i], len) {
            SolveUnits::Exact(v) => v.0 as i128,
            SolveUnits::Fraction(f) => {
                if total == 0 {
                    0
                } else {
                    proof {
                        lemma_weight_prefix(units@, i as int);
                        lemma_share(left as int, f as nat, total as nat);
                    }
                    assert(0 <= left * f < 0x1_0000_0000_0000_0000_0000_0000_0000_0000)
                        by (nonlinear_arith)
                        requires
                            0 <= left < 0x1_0000_0000_0000_0000_0000_0000,
                            0 <= f < 0x1_0000_0000,
                    ;
                    ((left as u128 * f as u128) / total) as i128
                }
            },
        };
        assert(size == track_len(units@, len@, i as int));
        proof {
            lemma_len_sum_range(units@, len@, i as nat);
            lemma_len_sum_range(units@, len@, (i + 1) as nat);
        }
        tracks.push(SpacerSolved { pos: VUnit::saturating(at), len: VUnit::saturating(size) });
        at = at + size;
        i = i + 1;
    }
    assert(tracks@ =~= solution(units@, pos@, len@));
    tracks
}

/// Divides `len` among the tracks of the axis that `spacer_template`
/// describes, its repeating track standing `repeat` times, and lays them out
/// from `pos` on: one entry for each track that stands, first to last.
pub fn solve_spacer(spacer_template: &GridSpacer, repeat: usize, pos: VUnit, len: VUnit) -> (tracks:
    Vec<SpacerSolved>)
    ensures
        tracks@ == axis_solution(spacer_template@, repeat as nat, pos@, len@),
{
    let units = materialized(spacer_template, repeat);
    solve_tracks(&units, pos, len)
}

} // verus!
