//! Lengths in fixed point, and the units in which a track's size is written.

use std::cmp::Ordering;
use std::ops::{Add, AddAssign, Div, Mul, Sub};
use vstd::prelude::*;
use vstd::std_specs::cmp::PartialOrdSpecImpl;
use vstd::std_specs::convert::{FromSpecImpl, IntoSpec};
use vstd::std_specs::ops::{AddSpecImpl, DivSpecImpl, MulSpecImpl, SubSpecImpl};

verus! {

/// A whole number of pixels.
pub type Pixelt = i32;

/// The weight of a track that shares what the exact tracks leave over.
pub type Fractiont = u32;

/// The nearest raw amount that a length can hold.
pub open spec fn saturate(x: int) -> int {
    if x < i32::MIN {
        i32::MIN as int
    } else if x > i32::MAX {
        i32::MAX as int
    } else {
        x
    }
}

/// `a / b` rounded towards zero, for `b != 0`.
pub open spec fn div_towards_zero(a: int, b: int) -> int {
    if a >= 0 && b > 0 {
        a / b
    } else if a >= 0 {
        -(a / (-b))
    } else if b > 0 {
        -((-a) / b)
    } else {
        (-a) / (-b)
    }
}

/// `a / b` rounded to the nearest integer, halves away from zero, for `b > 0`.
pub open spec fn div_nearest(a: int, b: int) -> int {
    if a >= 0 {
        (2 * a + b) / (2 * b)
    } else {
        -((2 * (-a) + b) / (2 * b))
    }
}

/// A share of a length between nothing and all of it, as `num / den`.
#[derive(Clone, Copy, Debug)]
pub struct Ratiot {
    num: u32,
    den: u32,
}

impl Ratiot {
    #[verifier::type_invariant]
    spec fn inv(self) -> bool {
        self.wf()
    }

    /// The denominator is positive and the share is at most the whole.
    pub closed spec fn wf(self) -> bool {
        0 < self.den && self.num <= self.den
    }

    /// The numerator.
    pub closed spec fn numer(self) -> nat {
        self.num as nat
    }

    /// The denominator.
    pub closed spec fn denom(self) -> nat {
        self.den as nat
    }

    /// The share `num / den`, or nothing where that is no share of a whole.
    pub fn new(num: u32, den: u32) -> (r: Option<Ratiot>)
        ensures
            r.is_some() <==> 0 < den && num <= den,
            r.is_some() ==> r.unwrap().wf() && r.unwrap().numer() == num && r.unwrap().denom()
                == den,
    {
        if 0 < den && num <= den {
            Some(Ratiot { num, den })
        } else {
            None
        }
    }

    /// Numerator and denominator.
    pub fn parts(&self) -> (p: (u32, u32))
        ensures
            p.0 == self.numer(),
            p.1 == self.denom(),
            self.wf(),
            0 < p.1,
            p.0 <= p.1,
    {
        proof {
            use_type_invariant(self);
        }
        (self.num, self.den)
    }
}

/// The size of one track, as its author writes it.
#[derive(Clone, Copy, Debug)]
pub enum UserUnits {
    /// No extent at all.
    Zero,
    /// A fixed number of whole pixels.
    Pixel(Pixelt),
    /// A share of the length that is being divided.
    Ratio(Ratiot),
    /// A weighted share of what the exact tracks leave over.
    Fraction(Fractiont),
}

/// A length or a position in fixed point: `self.0` counts 64ths of a pixel.
///
/// Every operation stays within the type: a result beyond what an `i32` holds
/// is the nearest end of its range.
#[derive(Clone, Copy, Debug, PartialEq, Eq, Structural, Ord)]
pub struct VUnit(pub i32);

impl View for VUnit {
    type V = int;

    /// The raw amount, in 64ths of a pixel.
    open spec fn view(&self) -> int {
        self.0 as int
    }
}

impl VUnit {
    /// How many of the bits of a length count fractions of a pixel.
    pub const PRECISION_BITS: i32 = 6;

    /// The length of the given raw amount, brought into range.
    pub fn saturating(raw: i128) -> (r: VUnit)
        ensures
            r@ == saturate(raw as int),
    {
        if raw < i32::MIN as i128 {
            VUnit(i32::MIN)
        } else if raw > i32::MAX as i128 {
            VUnit(i32::MAX)
        } else {
            VUnit(raw as i32)
        }
    }

    /// The length that `p` converts to: for a number, so many whole pixels.
    pub fn new<T: Into<VUnit>>(p: T) -> (r: VUnit)
        ensures
            T::obeys_into_spec() ==> r == p.into_spec(),
    {
        p.into()
    }

    /// The whole pixels below the length, rounded towards minus infinity.
    pub fn truct_to_whole(&self) -> (r: i32)
        ensures
            r == self@ / 64,
    {
        let raw: i32 = self.0;
        assert(raw >> 6u32 == raw / 64) by (bit_vector);
        raw >> 6
    }

    /// The larger of two lengths.
    pub fn max(self, other: VUnit) -> (r: VUnit)
        ensures
            r@ == vstd::math::max(self@, other@),
    {
        if self.0 >= other.0 {
            self
        } else {
            other
        }
    }
}

impl PartialOrd for VUnit {
    fn partial_cmp(&self, other: &Self) -> (r: Option<Ordering>) {
        if self.0 < other.0 {
            Some(Ordering::Less)
        } else if self.0 > other.0 {
            Some(Ordering::Greater)
        } else {
            Some(Ordering::Equal)
        }
    }
}

impl PartialOrdSpecImpl for VUnit {
    open spec fn obeys_partial_cmp_spec() -> bool {
        true
    }

    open spec fn partial_cmp_spec(&self, other: &Self) -> Option<Ordering> {
        if self.0 < other.0 {
            Some(Ordering::Less)
        } else if self.0 > other.0 {
            Some(Ordering::Greater)
        } else {
            Some(Ordering::Equal)
        }
    }
}

impl From<i32> for VUnit {
    fn from(value: i32) -> (r: Self) {
        VUnit::saturating(value as i128 * 64)
    }
}

impl FromSpecImpl<i32> for VUnit {
    open spec fn obeys_from_spec() -> bool {
        true
    }

    /// So many whole pixels.
    open spec fn from_spec(value: i32) -> VUnit {
        VUnit(saturate(value * 64) as i32)
    }
}

impl From<u32> for VUnit {
    fn from(value: u32) -> (r: Self) {
        VUnit::saturating(value as i128 * 64)
    }
}

impl FromSpecImpl<u32> for VUnit {
    open spec fn obeys_from_spec() -> bool {
        true
    }

    /// So many whole pixels.
    open spec fn from_spec(value: u32) -> VUnit {
        VUnit(saturate(value * 64) as i32)
    }
}

impl Add for VUnit {
    type Output = VUnit;

    fn add(self, rhs: VUnit) -> (r: VUnit) {
        VUnit::saturating(self.0 as i128 + rhs.0 as i128)
    }
}

impl AddSpecImpl for VUnit {
    open spec fn obeys_add_spec() -> bool {
        true
    }

    open spec fn add_req(self, rhs: VUnit) -> bool {
        true
    }

    open spec fn add_spec(self, rhs: VUnit) -> VUnit {
        VUnit(saturate(self@ + rhs@) as i32)
    }
}

impl AddAssign for VUnit {
    fn add_assign(&mut self, rhs: VUnit)
        ensures
            final(self)@ == saturate(old(self)@ + rhs@),
    {
        *self = VUnit::saturating(self.0 as i128 + rhs.0 as i128);
    }
}

impl Sub for VUnit {
    type Output = VUnit;

    fn sub(self, rhs: VUnit) -> (r: VUnit) {
        VUnit::saturating(self.0 as i128 - rhs.0 as i128)
    }
}

impl SubSpecImpl for VUnit {
    open spec fn obeys_sub_spec() -> bool {
        true
    }

    open spec fn sub_req(self, rhs: VUnit) -> bool {
        true
    }

    open spec fn sub_spec(self, rhs: VUnit) -> VUnit {
        VUnit(saturate(self@ - rhs@) as i32)
    }
}

impl Mul<i32> for VUnit {
    type Output = VUnit;

    fn mul(self, rhs: i32) -> (r: VUnit) {
        proof {
            lemma_product_in_range(self.0 as int, rhs as int);
        }
        VUnit::saturating(self.0 as i128 * rhs as i128)
    }
}

impl MulSpecImpl<i32> for VUnit {
    open spec fn obeys_mul_spec() -> bool {
        true
    }

    open spec fn mul_req(self, rhs: i32) -> bool {
        true
    }

    open spec fn mul_spec(self, rhs: i32) -> VUnit {
        VUnit(saturate(self@ * rhs) as i32)
    }
}

impl Mul<VUnit> for i32 {
    type Output = VUnit;

    fn mul(self, rhs: VUnit) -> (r: VUnit) {
        proof {
            lemma_product_in_range(self as int, rhs.0 as int);
        }
        VUnit::saturating(self as i128 * rhs.0 as i128)
    }
}

impl MulSpecImpl<VUnit> for i32 {
    open spec fn obeys_mul_spec() -> bool {
        true
    }

    open spec fn mul_req(self, rhs: VUnit) -> bool {
        true
    }

    open spec fn mul_spec(self, rhs: VUnit) -> VUnit {
        VUnit(saturate(self * rhs@) as i32)
    }
}

impl Div<i32> for VUnit {
    type Output = VUnit;

    fn div(self, rhs: i32) -> (r: VUnit) {
        let a: i64 = self.0 as i64;
        let b: i64 = rhs as i64;
        let q: i64 = if a >= 0 && b > 0 {
            a / b
        } else if a >= 0 {
            -(a / (-b))
        } else if b > 0 {
            -((-a) / b)
        } else {
            (-a) / (-b)
        };
        VUnit::saturating(q as i128)
    }
}

impl DivSpecImpl<i32> for VUnit {
    open spec fn obeys_div_spec() -> bool {
        true
    }

    /// There is no quotient by zero.
    open spec fn div_req(self, rhs: i32) -> bool {
        rhs != 0
    }

    open spec fn div_spec(self, rhs: i32) -> VUnit {
        VUnit(saturate(div_towards_zero(self@, rhs as int)) as i32)
    }
}

/// The product of two 32-bit amounts fits comfortably in 128 bits.
pub proof fn lemma_product_in_range(a: int, b: int)
    requires
        -0x8000_0000 <= a <= 0x8000_0000,
        -0x8000_0000 <= b <= 0x8000_0000,
    ensures
        -0x4000_0000_0000_0000 <= a * b <= 0x4000_0000_0000_0000,
{
    assert(-0x4000_0000_0000_0000 <= a * b <= 0x4000_0000_0000_0000) by (nonlinear_arith)
        requires
            -0x8000_0000 <= a <= 0x8000_0000,
            -0x8000_0000 <= b <= 0x8000_0000,
    ;
}

} // verus!
