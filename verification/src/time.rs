//! Animation time as an exact fraction of one loop.

use vstd::prelude::*;
use vstd::arithmetic::div_mod::lemma_fundamental_div_mod_converse;
use vstd::arithmetic::div_mod::lemma_mod_multiples_vanish;

verus! {

/// A moment in animation time: `numerator / denominator` loops after the
/// start. Moments before the start and after the first loop are allowed; what
/// is shown at them is what is shown at the same place within the loop.
#[derive(Clone, Copy, Debug)]
pub struct Fraction {
    pub numerator: i64,
    pub denominator: u32,
}

/// The place of the moment `numerator / denominator` within its loop, in units
/// of `1 / denominator`: at least zero and less than `denominator`.
pub open spec fn place_in_loop(numerator: int, denominator: int) -> int {
    numerator % denominator
}

/// Moments that are whole loops apart have the same place within the loop.
pub proof fn lemma_place_is_periodic(numerator: int, denominator: int, loops: int)
    requires
        denominator > 0,
    ensures
        place_in_loop(numerator + loops * denominator, denominator) == place_in_loop(
            numerator,
            denominator,
        ),
        0 <= place_in_loop(numerator, denominator) < denominator,
{
    lemma_mod_multiples_vanish(loops, numerator, denominator);
    assert(denominator * loops + numerator == numerator + loops * denominator) by (nonlinear_arith);
}

impl Fraction {
    /// The denominator is not zero.
    pub open spec fn wf(&self) -> bool {
        self.denominator > 0
    }

    /// The moment at which frame `index` of `total` is shown.
    pub fn of_frame(index: u32, total: u32) -> (moment: Fraction)
        requires
            index < total,
        ensures
            moment.wf(),
            moment.numerator == index,
            moment.denominator == total,
            place_in_loop(moment.numerator as int, moment.denominator as int) == index,
    {
        proof {
            lemma_fundamental_div_mod_converse(index as int, total as int, 0, index as int);
        }
        Fraction { numerator: index as i64, denominator: total }
    }

    /// The place of the moment within its loop, in units of one over the
    /// denominator.
    pub fn place(&self) -> (place: u32)
        requires
            self.wf(),
        ensures
            place == place_in_loop(self.numerator as int, self.denominator as int),
            place < self.denominator,
    {
        let d: i64 = self.denominator as i64;
        if self.numerator >= 0 {
            let r: i64 = self.numerator % d;
            r as u32
        } else {
            // -numerator - 1 is at least zero and cannot overflow.
            let below: i64 = -(self.numerator + 1);
            let r: i64 = below % d;
            proof {
                let q = below as int / d as int;
                assert(below as int == d * q + r) by {
                    vstd::arithmetic::div_mod::lemma_fundamental_div_mod(below as int, d as int);
                }
                assert(self.numerator as int == (-q - 1) * d + (d - 1 - r)) by (nonlinear_arith)
                    requires
                        below as int == d * q + r,
                        below as int == -(self.numerator as int + 1),
                ;
                lemma_fundamental_div_mod_converse(
                    self.numerator as int,
                    d as int,
                    -q - 1,
                    d - 1 - r,
                );
            }
            (d - 1 - r) as u32
        }
    }
}

} // verus!
