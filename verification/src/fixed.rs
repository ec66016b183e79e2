use crate::scalar::{total, Scalar};
use vstd::arithmetic::div_mod::{lemma_fundamental_div_mod, lemma_fundamental_div_mod_converse};
use vstd::prelude::*;

verus! {

/// How many millionths make one.
pub const MICROS_PER_UNIT: i64 = 1_000_000;

/// A signed decimal fixed-point number with six fractional digits, held as a
/// count of millionths. Arithmetic saturates at the ends of the `i64` range
/// and division rounds toward zero, so every operation is total and gives the
/// same result on every machine.
#[derive(Clone, Copy, Debug, PartialEq, Eq, Structural)]
pub struct Fixed {
    pub micros: i64,
}

/// `v` brought into the range of `i64`.
pub open spec fn saturate(v: int) -> int {
    if v < i64::MIN {
        i64::MIN as int
    } else if v > i64::MAX {
        i64::MAX as int
    } else {
        v
    }
}

/// `n / d` rounded toward zero, for a positive `d`.
pub open spec fn quotient_toward_zero(n: int, d: int) -> int {
    if n >= 0 {
        n / d
    } else {
        -((-n) / d)
    }
}

/// The quotient of two counts of millionths as a count of millionths, rounded
/// toward zero and brought into range. A division by zero gives the end of
/// the range on the side of the dividend, and zero for a dividend of zero.
pub open spec fn quotient_micros(a: int, b: int) -> int {
    if b == 0 {
        if a > 0 {
            i64::MAX as int
        } else if a < 0 {
            i64::MIN as int
        } else {
            0
        }
    } else {
        let m = (magnitude_of(a) * MICROS_PER_UNIT) / magnitude_of(b);
        if (a < 0) != (b < 0) {
            saturate(-m)
        } else {
            saturate(m)
        }
    }
}

/// The weights of a sequence of scalars, as counts of millionths.
pub open spec fn micros_of(weights: Seq<Fixed>) -> Seq<int> {
    weights.map_values(|w: Fixed| w.micros as int)
}

/// The sum of a sequence of integers.
pub open spec fn sum_of(values: Seq<int>) -> int
    decreases values.len(),
{
    if values.len() == 0 {
        0
    } else {
        sum_of(values.drop_last()) + values.last()
    }
}

fn saturating(v: i128) -> (r: i64)
    ensures
        r == saturate(v as int),
{
    if v < i64::MIN as i128 {
        i64::MIN
    } else if v > i64::MAX as i128 {
        i64::MAX
    } else {
        v as i64
    }
}

fn magnitude(v: i64) -> (m: u128)
    ensures
        m == (if v >= 0 {
            v as int
        } else {
            -(v as int)
        }),
        m <= 0x8000_0000_0000_0000,
{
    if v >= 0 {
        v as u128
    } else {
        (-(v as i128)) as u128
    }
}

impl Fixed {
    /// The scalar that is `micros` millionths.
    pub fn from_micros(micros: i64) -> (r: Fixed)
        ensures
            r.micros == micros,
    {
        Fixed { micros }
    }

    /// The scalar as a count of millionths.
    pub fn micros(self) -> (m: i64)
        ensures
            m == self.micros,
    {
        self.micros
    }
}

impl Scalar for Fixed {
    open spec fn zero_spec() -> Fixed {
        Fixed { micros: 0 }
    }

    open spec fn one_spec() -> Fixed {
        Fixed { micros: MICROS_PER_UNIT }
    }

    open spec fn add_spec(self, rhs: Fixed) -> Fixed {
        Fixed { micros: saturate(self.micros + rhs.micros) as i64 }
    }

    open spec fn mul_spec(self, rhs: Fixed) -> Fixed {
        Fixed {
            micros: saturate(
                quotient_toward_zero(self.micros * rhs.micros, MICROS_PER_UNIT as int),
            ) as i64,
        }
    }

    open spec fn neg_spec(self) -> Fixed {
        Fixed { micros: saturate(-self.micros) as i64 }
    }

    open spec fn div_spec(self, rhs: Fixed) -> Fixed {
        Fixed { micros: quotient_micros(self.micros as int, rhs.micros as int) as i64 }
    }

    open spec fn abs_spec(self) -> Fixed {
        Fixed { micros: saturate(magnitude_of(self.micros as int)) as i64 }
    }

    open spec fn from_count_spec(count: usize) -> Fixed {
        Fixed { micros: saturate(count * MICROS_PER_UNIT) as i64 }
    }

    open spec fn to_index_spec(self) -> usize {
        if self.micros <= 0 {
            0
        } else if self.micros / MICROS_PER_UNIT > usize::MAX {
            usize::MAX
        } else {
            (self.micros / MICROS_PER_UNIT) as usize
        }
    }

    open spec fn div_count_spec(self, count: usize) -> Fixed {
        if count == 0 {
            self
        } else {
            Fixed { micros: quotient_toward_zero(self.micros as int, count as int) as i64 }
        }
    }

    open spec fn wrap_spec(self) -> Fixed {
        Fixed { micros: ((self.micros as int) % (MICROS_PER_UNIT as int)) as i64 }
    }

    open spec fn lt_spec(self, rhs: Fixed) -> bool {
        self.micros < rhs.micros
    }

    open spec fn le_spec(self, rhs: Fixed) -> bool {
        self.micros <= rhs.micros
    }

    open spec fn top_spec() -> Fixed {
        Fixed { micros: i64::MAX }
    }

    fn zero() -> Fixed {
        Fixed { micros: 0 }
    }

    fn one() -> Fixed {
        Fixed { micros: MICROS_PER_UNIT }
    }

    fn top() -> Fixed {
        Fixed { micros: i64::MAX }
    }

    fn plus(self, rhs: Fixed) -> Fixed {
        Fixed { micros: saturating(self.micros as i128 + rhs.micros as i128) }
    }

    fn times(self, rhs: Fixed) -> Fixed {
        let a = magnitude(self.micros);
        let b = magnitude(rhs.micros);
        assert(a * b <= 0x4000_0000_0000_0000_0000_0000_0000_0000) by (nonlinear_arith)
            requires
                a <= 0x8000_0000_0000_0000,
                b <= 0x8000_0000_0000_0000,
        ;
        let m = (a * b) / 1_000_000u128;
        proof {
            lemma_product_magnitude(self.micros as int, rhs.micros as int);
        }
        let negative = (self.micros < 0) != (rhs.micros < 0);
        let q: i128 = if negative {
            -(m as i128)
        } else {
            m as i128
        };
        Fixed { micros: saturating(q) }
    }

    fn negated(self) -> Fixed {
        Fixed { micros: saturating(-(self.micros as i128)) }
    }

    fn divided_by(self, rhs: Fixed) -> Fixed {
        if rhs.micros == 0 {
            if self.micros > 0 {
                Fixed { micros: i64::MAX }
            } else if self.micros < 0 {
                Fixed { micros: i64::MIN }
            } else {
                Fixed { micros: 0 }
            }
        } else {
            let a = magnitude(self.micros);
            let b = magnitude(rhs.micros);
            assert(a * 1_000_000 <= 0x8000_0000_0000_0000 * 1_000_000) by (nonlinear_arith)
                requires
                    a <= 0x8000_0000_0000_0000,
            ;
            let m = (a * 1_000_000u128) / b;
            assert(m <= a * 1_000_000) by (nonlinear_arith)
                requires
                    m == (a * 1_000_000) / (b as int),
                    b >= 1,
                    a >= 0,
            ;
            let negative = (self.micros < 0) != (rhs.micros < 0);
            let q: i128 = if negative {
                -(m as i128)
            } else {
                m as i128
            };
            Fixed { micros: saturating(q) }
        }
    }

    fn magnitude(self) -> Fixed {
        if self.micros >= 0 {
            self
        } else {
            Fixed { micros: saturating(-(self.micros as i128)) }
        }
    }

    fn from_count(count: usize) -> Fixed {
        assert(count * 1_000_000 <= 0xffff_ffff_ffff_ffff * 1_000_000) by (nonlinear_arith)
            requires
                count <= 0xffff_ffff_ffff_ffff,
        ;
        Fixed { micros: saturating(count as i128 * 1_000_000i128) }
    }

    fn to_index(self) -> usize {
        if self.micros <= 0 {
            0
        } else {
            let whole = (self.micros / MICROS_PER_UNIT) as u64;
            if whole > usize::MAX as u64 {
                usize::MAX
            } else {
                whole as usize
            }
        }
    }

    fn over_count(self, count: usize) -> Fixed {
        let m = magnitude(self.micros) / (count as u128);
        assert(m <= 0x8000_0000_0000_0000) by (nonlinear_arith)
            requires
                m == magnitude_of(self.micros as int) / (count as int),
                magnitude_of(self.micros as int) <= 0x8000_0000_0000_0000,
                count > 0,
        ;
        if self.micros >= 0 {
            Fixed { micros: m as i64 }
        } else {
            Fixed { micros: (-(m as i128)) as i64 }
        }
    }

    fn wrapped(self) -> Fixed {
        if self.micros >= 0 {
            Fixed { micros: self.micros % MICROS_PER_UNIT }
        } else {
            let a = magnitude(self.micros);
            let m = a % 1_000_000u128;
            let q = a / 1_000_000u128;
            proof {
                lemma_fundamental_div_mod(a as int, 1_000_000);
                if m == 0 {
                    assert(self.micros as int == (-q) * 1_000_000 + 0) by (nonlinear_arith)
                        requires
                            a == 1_000_000 * q + m,
                            m == 0,
                            self.micros as int == -(a as int),
                    ;
                    lemma_fundamental_div_mod_converse(self.micros as int, 1_000_000, -q, 0);
                } else {
                    assert(self.micros as int == (-q - 1) * 1_000_000 + (1_000_000 - m))
                        by (nonlinear_arith)
                        requires
                            a == 1_000_000 * q + m,
                            self.micros as int == -(a as int),
                    ;
                    lemma_fundamental_div_mod_converse(
                        self.micros as int,
                        1_000_000,
                        -q - 1,
                        1_000_000 - m,
                    );
                }
            }
            if m == 0 {
                Fixed { micros: 0 }
            } else {
                Fixed { micros: (1_000_000u128 - m) as i64 }
            }
        }
    }

    fn less_than(self, rhs: Fixed) -> bool {
        self.micros < rhs.micros
    }

    fn at_most(self, rhs: Fixed) -> bool {
        self.micros <= rhs.micros
    }

    fn rectified(self) -> Fixed {
        if 0 < self.micros {
            self
        } else {
            Fixed { micros: 0 }
        }
    }
}

/// The saturating sum of weights that are not below zero is their true sum
/// brought into range.
pub proof fn lemma_total_of_weights(weights: Seq<Fixed>, count: int)
    requires
        0 <= count <= weights.len(),
        forall|i: int| 0 <= i < weights.len() ==> (#[trigger] weights[i]).micros >= 0,
    ensures
        0 <= sum_of(micros_of(weights.take(count))),
        total(weights.take(count)).micros == saturate(sum_of(micros_of(weights.take(count)))),
    decreases count,
{
    if count > 0 {
        lemma_total_of_weights(weights, count - 1);
        let before = weights.take(count - 1);
        let after = weights.take(count);
        assert(after.drop_last() == before);
        assert(micros_of(after).drop_last() == micros_of(before));
        assert(micros_of(after).last() == weights[count - 1].micros);
    } else {
        assert(micros_of(weights.take(0)) =~= Seq::<int>::empty());
    }
}

/// The absolute value of an integer.
pub open spec fn magnitude_of(v: int) -> int {
    if v >= 0 {
        v
    } else {
        -v
    }
}

proof fn lemma_product_magnitude(a: int, b: int)
    ensures
        quotient_toward_zero(a * b, MICROS_PER_UNIT as int) == (if (a < 0) != (b < 0) {
            -((magnitude_of(a) * magnitude_of(b)) / (MICROS_PER_UNIT as int))
        } else {
            (magnitude_of(a) * magnitude_of(b)) / (MICROS_PER_UNIT as int)
        }),
{
    assert(magnitude_of(a) * magnitude_of(b) == magnitude_of(a * b)) by (nonlinear_arith);
    assert((a < 0) != (b < 0) ==> a * b <= 0) by (nonlinear_arith);
    assert((a < 0) == (b < 0) ==> a * b >= 0) by (nonlinear_arith);
}

} // verus!
