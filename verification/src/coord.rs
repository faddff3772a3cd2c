//! Screen coordinates as the rules of the daemon read them.
//!
//! Coordinates are floating-point numbers.  The rules never calculate with
//! them: they compare them with whole numbers and print them.  A `Coord` holds
//! what these rules read, and the number itself as the bits that stand for it.

use vstd::prelude::*;

verus! {

/// A coordinate.
#[derive(Debug)]
pub struct Coord {
    /// The bits of the number.  They are only carried along.
    pub bits: u64,
    /// The largest whole number that is not above the number, or the nearest one
    /// that fits.  None if the number is not a number.
    pub floor: Option<i64>,
    /// The number in its shortest form.
    pub text: String,
    /// The number rounded to a whole one, as text.
    pub rounded: String,
}

impl Coord {
    /// Whether the number is below zero.
    pub open spec fn is_negative(self) -> bool {
        self.floor is Some && self.floor->0 < 0
    }

    /// Whether the number is at least the whole number `n`.
    pub open spec fn reaches(self, n: int) -> bool {
        self.floor is Some && self.floor->0 >= n
    }

    /// Tests whether the number is below zero.
    pub fn below_zero(&self) -> (r: bool)
        ensures
            r == self.is_negative(),
    {
        match self.floor {
            None => false,
            Some(f) => f < 0,
        }
    }

    /// Tests whether the number is at least `n`.
    pub fn at_least(&self, n: i64) -> (r: bool)
        ensures
            r == self.reaches(n as int),
    {
        match self.floor {
            None => false,
            Some(f) => f >= n,
        }
    }
}

/// Law: a number is below zero just where it does not reach zero, and it reaches a
/// whole number just where its floor does.  What is not a number does neither.
pub proof fn floors_decide(c: Coord, n: int)
    ensures
        c.floor is None ==> !c.is_negative() && !c.reaches(n),
        c.floor matches Some(f) ==> (c.is_negative() <==> f < 0) && (c.reaches(n) <==> n <= f)
            && c.reaches(f as int) && !c.reaches(f + 1),
{
}

} // verus!
