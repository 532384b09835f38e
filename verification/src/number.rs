//! Prices and percentages as the library holds them: binary floating-point
//! numbers of 64 bits, each carried as its bit pattern. The library compares
//! such numbers and hands them on; it does no arithmetic on them.

use vstd::prelude::*;

verus! {

/// The weight of the sign bit.
pub const SIGN: u64 = 0x8000_0000_0000_0000;

/// The bit pattern of positive infinity. Magnitudes above it are not numbers.
pub const INFINITE: u64 = 0x7ff0_0000_0000_0000;

/// The bit pattern of one half.
pub const HALF: u64 = 0x3fe0_0000_0000_0000;

/// The bit pattern of one.
pub const ONE: u64 = 0x3ff0_0000_0000_0000;

/// The bit pattern of five.
pub const FIVE: u64 = 0x4014_0000_0000_0000;

/// A floating-point number, by its bit pattern.
#[derive(Clone, Copy, Debug, PartialEq, Eq, Structural)]
pub struct Num {
    pub bits: u64,
}

impl Num {
    /// Whether the sign bit is set.
    pub open spec fn is_negative(self) -> bool {
        self.bits >= SIGN
    }

    /// The bit pattern without its sign. Among numbers of one sign it grows
    /// with the distance from zero.
    pub open spec fn magnitude(self) -> int {
        if self.is_negative() {
            self.bits - SIGN
        } else {
            self.bits as int
        }
    }

    /// Whether this is the result of an operation that has none.
    pub open spec fn is_nan(self) -> bool {
        self.magnitude() > INFINITE
    }

    /// Where a number stands on the line: the order of positions is the order
    /// of the numbers, and both zeros stand at 0.
    pub open spec fn position(self) -> int {
        if self.is_negative() {
            -self.magnitude()
        } else {
            self.magnitude()
        }
    }

    /// Where a bit pattern stands in the total order of all of them, in which
    /// negative zero comes before positive zero, and the patterns that are not
    /// numbers come at the ends.
    pub open spec fn rank(self) -> int {
        if self.is_negative() {
            -self.magnitude() - 1
        } else {
            self.magnitude()
        }
    }

    /// The comparison `self < other` of numbers. It is false where either side
    /// is not a number.
    pub open spec fn below(self, other: Num) -> bool {
        !self.is_nan() && !other.is_nan() && self.position() < other.position()
    }

    /// Whether this is not a number.
    pub fn nan(self) -> (r: bool)
        ensures
            r == self.is_nan(),
    {
        if self.bits >= SIGN {
            self.bits - SIGN > INFINITE
        } else {
            self.bits > INFINITE
        }
    }

    /// The comparison `self < other` of numbers.
    pub fn less(self, other: Num) -> (r: bool)
        ensures
            r == self.below(other),
    {
        if self.nan() || other.nan() {
            return false;
        }
        if self.bits >= SIGN {
            if other.bits >= SIGN {
                self.bits > other.bits
            } else {
                self.bits > SIGN || other.bits > 0
            }
        } else {
            other.bits < SIGN && self.bits < other.bits
        }
    }

    /// Whether `self` comes before `other` in the total order.
    pub fn ranks_below(self, other: Num) -> (r: bool)
        ensures
            r == (self.rank() < other.rank()),
    {
        if self.bits >= SIGN {
            other.bits < SIGN || self.bits > other.bits
        } else {
            other.bits < SIGN && self.bits < other.bits
        }
    }
}

/// The total order tells any two bit patterns apart.
pub proof fn rank_is_total(a: Num, b: Num)
    ensures
        a.rank() == b.rank() <==> a == b,
{
}

/// Where both sides are numbers other than zero, the total order is the order
/// of the numbers.
pub proof fn rank_agrees_with_order(a: Num, b: Num)
    requires
        !a.is_nan(),
        !b.is_nan(),
        a.position() != 0 || b.position() != 0,
    ensures
        a.below(b) <==> a.rank() < b.rank(),
{
}

/// The number zero.
pub open spec fn zero() -> Num {
    Num { bits: 0 }
}

impl Num {
    /// The comparison `self > 0` of numbers.
    pub fn positive(self) -> (r: bool)
        ensures
            r == zero().below(self),
    {
        (Num { bits: 0 }).less(self)
    }

    /// The comparison `self <= 0` of numbers. It is false of what is not a
    /// number.
    pub fn at_most_zero(self) -> (r: bool)
        ensures
            r == (!self.is_nan() && self.position() <= 0),
    {
        !self.nan() && (self.bits >= SIGN || self.bits == 0)
    }
}

/// Whether `r` is the first of `s` in the total order, or nothing where `s` is
/// empty.
pub open spec fn is_lowest(s: Seq<Num>, r: Option<Num>) -> bool {
    match r {
        Some(low) => s.contains(low) && forall|i: int|
            0 <= i < s.len() ==> low.rank() <= (#[trigger] s[i]).rank(),
        None => s.len() == 0,
    }
}

/// Whether `r` is the last of `s` in the total order, or nothing where `s` is
/// empty.
pub open spec fn is_highest(s: Seq<Num>, r: Option<Num>) -> bool {
    match r {
        Some(high) => s.contains(high) && forall|i: int|
            0 <= i < s.len() ==> (#[trigger] s[i]).rank() <= high.rank(),
        None => s.len() == 0,
    }
}

/// The first of some numbers in the total order.
pub fn lowest(s: &Vec<Num>) -> (r: Option<Num>)
    ensures
        is_lowest(s@, r),
{
    if s.len() == 0 {
        return None;
    }
    let mut low: Num = s[0];
    let mut i: usize = 1;
    while i < s.len()
        invariant
            1 <= i <= s.len(),
            s@.contains(low),
            forall|k: int| 0 <= k < i ==> low.rank() <= (#[trigger] s@[k]).rank(),
        decreases s.len() - i,
    {
        if s[i].ranks_below(low) {
            low = s[i];
        }
        i = i + 1;
    }
    Some(low)
}

/// The last of some numbers in the total order.
pub fn highest(s: &Vec<Num>) -> (r: Option<Num>)
    ensures
        is_highest(s@, r),
{
    if s.len() == 0 {
        return None;
    }
    let mut high: Num = s[0];
    let mut i: usize = 1;
    while i < s.len()
        invariant
            1 <= i <= s.len(),
            s@.contains(high),
            forall|k: int| 0 <= k < i ==> (#[trigger] s@[k]).rank() <= high.rank(),
        decreases s.len() - i,
    {
        if high.ranks_below(s[i]) {
            high = s[i];
        }
        i = i + 1;
    }
    Some(high)
}

} // verus!
