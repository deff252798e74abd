//! JSON numbers as exact rationals.
//!
//! A number is an integer, a binary floating value `mant * 2^exp` (what a
//! JSON text's non-integer number decodes to), or a ratio `num / den` that
//! the library itself produces (a duration in days, say). Every form denotes
//! the rational `num() / den()` with a positive denominator.
use vstd::prelude::*;
use vstd::arithmetic::power2::*;
use vstd::arithmetic::div_mod::*;

verus! {

#[derive(Clone, Copy, Debug, PartialEq)]
pub enum Number {
    Int(i64),
    Float { mant: i64, exp: i32 },
    Ratio { num: i64, den: u32 },
}

impl Number {
    /// Numerator of the value.
    pub open spec fn num(self) -> int {
        match self {
            Number::Int(i) => i as int,
            Number::Float { mant, exp } => if exp >= 0 {
                mant * pow2(exp as nat)
            } else {
                mant as int
            },
            Number::Ratio { num, den } => if den > 0 {
                num as int
            } else {
                0
            },
        }
    }

    /// Denominator of the value (always positive).
    pub open spec fn den(self) -> int {
        match self {
            Number::Int(_) => 1,
            Number::Float { mant, exp } => if exp >= 0 {
                1
            } else {
                pow2((-exp) as nat) as int
            },
            Number::Ratio { num, den } => if den > 0 {
                den as int
            } else {
                1
            },
        }
    }

    pub open spec fn is_zero(self) -> bool {
        self.num() == 0
    }

    /// `floor(value * scale)`.
    pub open spec fn floor_scaled(self, scale: int) -> int {
        (self.num() * scale) / self.den()
    }

    /// Sign of `value - k`: -1, 0 or 1.
    pub open spec fn compare_int(self, k: int) -> int {
        let d = self.num() - k * self.den();
        if d < 0 {
            -1
        } else if d == 0 {
            0
        } else {
            1
        }
    }

    pub fn is_zero_exec(&self) -> (r: bool)
        ensures
            r == self.is_zero(),
    {
        match self {
            Number::Int(i) => *i == 0,
            Number::Float { mant, exp } => {
                proof {
                    if *exp >= 0 {
                        lemma_pow2_pos(*exp as nat);
                        lemma_mul_zero_iff(*mant as int, pow2(*exp as nat) as int);
                    }
                }
                *mant == 0
            },
            Number::Ratio { num, den } => *den == 0 || *num == 0,
        }
    }
}

proof fn lemma_mul_zero_iff(a: int, b: int)
    requires
        b > 0,
    ensures
        (a * b == 0) == (a == 0),
{
    if a > 0 {
        assert(a * b > 0) by (nonlinear_arith)
            requires
                a > 0,
                b > 0,
        ;
    } else if a < 0 {
        assert(a * b < 0) by (nonlinear_arith)
            requires
                a < 0,
                b > 0,
        ;
    }
}

proof fn lemma_mul_abs_bound(a: int, b: int, ab: int, bb: int)
    requires
        -ab <= a <= ab,
        0 <= b <= bb,
        ab >= 0,
    ensures
        -(ab * bb) <= a * b <= ab * bb,
{
    assert(-(ab * bb) <= a * b <= ab * bb) by (nonlinear_arith)
        requires
            -ab <= a <= ab,
            0 <= b <= bb,
            ab >= 0,
    ;
}

/// Clamps to the range of `i64`, as Rust's float-to-integer cast does.
pub open spec fn sat_i64(x: int) -> i64 {
    if x > i64::MAX {
        i64::MAX
    } else if x < i64::MIN {
        i64::MIN
    } else {
        x as i64
    }
}

pub fn pow2_u128(e: u32) -> (r: u128)
    requires
        e < 128,
    ensures
        r as int == pow2(e as nat),
{
    let mut r: u128 = 1;
    let mut i: u32 = 0;
    proof {
        lemma2_to64();
    }
    while i < e
        invariant
            i <= e < 128,
            r as int == pow2(i as nat),
        decreases e - i,
    {
        proof {
            lemma_pow2_unfold((i + 1) as nat);
            lemma_pow2_strictly_increases((i + 1) as nat, 128);
            lemma_pow2(128);
            lemma2_to64(); lemma_pow2_adds(64, 64);
        }
        r = r * 2;
        i = i + 1;
    }
    r
}

proof fn lemma_pow2_ge(a: nat, b: nat)
    requires
        a <= b,
    ensures
        pow2(a) <= pow2(b),
{
    if a < b {
        lemma_pow2_strictly_increases(a, b);
    }
}

fn sat_i128(x: i128) -> (r: i64)
    ensures
        r == sat_i64(x as int),
{
    if x > i64::MAX as i128 {
        i64::MAX
    } else if x < i64::MIN as i128 {
        i64::MIN
    } else {
        x as i64
    }
}

/// `floor(p / d)` for a positive divisor.
fn floor_div(p: i128, d: u128) -> (r: i128)
    requires
        d > 0,
        -0x1_0000_0000_0000_0000_0000_0000i128 < p < 0x1_0000_0000_0000_0000_0000_0000i128,
        d <= 0x1_0000_0000_0000_0000_0000_0000u128,
    ensures
        r as int == p as int / d as int,
{
    if p >= 0 {
        let q = (p as u128) / d;
        proof {
            lemma_fundamental_div_mod(p as int, d as int);
            lemma_fundamental_div_mod(p as u128 as int, d as int);
        }
        q as i128
    } else {
        let a: u128 = (0 - p) as u128;
        let t: u128 = a + d - 1;
        let q: u128 = t / d;
        proof {
            let ti = t as int;
            let di = d as int;
            let qi = q as int;
            lemma_fundamental_div_mod(ti, di);
            lemma_mod_pos_bound(ti, di);
            let rr = ti % di;
            assert(ti == di * qi + rr);
            assert(0 <= rr < di);
            let pp = p as int;
            assert(pp == -(a as int));
            assert(pp == (-qi) * di + (di - 1 - rr)) by (nonlinear_arith)
                requires
                    pp == -(a as int),
                    ti == (a as int) + di - 1,
                    ti == di * qi + rr,
            ;
            lemma_fundamental_div_mod_converse(pp, di, -qi, di - 1 - rr);
            assert(qi <= ti);
            assert(qi <= ti / 1) by {
                assert(ti / 1 == ti);
            }
        }
        assert(q <= t);
        0 - (q as i128)
    }
}

impl Number {
    /// `floor(value * scale)`, clamped to the range of `i64`.
    pub fn floor_mul(&self, scale: u32) -> (r: i64)
        requires
            scale > 0,
        ensures
            r == sat_i64(self.floor_scaled(scale as int)),
    {
        match self {
            Number::Int(i) => {
                proof { lemma_mul_abs_bound(*i as int, scale as int, 0x8000_0000_0000_0000, 0xffff_ffff); }
                let p: i128 = (*i as i128) * (scale as i128);
                proof {
                    lemma_div_basics(p as int);
                }
                sat_i128(p)
            },
            Number::Float { mant, exp } => {
                proof { lemma_mul_abs_bound(*mant as int, scale as int, 0x8000_0000_0000_0000, 0xffff_ffff); }
                let p: i128 = (*mant as i128) * (scale as i128);

                if *exp >= 0 {
                    let ghost e = *exp as nat;
                    proof {
                        lemma_div_basics((*mant as int) * pow2(e) * (scale as int));
                        assert((*mant as int) * pow2(e) * (scale as int) == (p as int) * pow2(e))
                            by (nonlinear_arith)
                            requires
                                p == (*mant as int) * (scale as int),
                        ;
                    }
                    if p == 0 {
                        proof {
                            assert((p as int) * pow2(e) == 0) by (nonlinear_arith) requires p == 0;
                        }
                        0
                    } else if *exp >= 64 || p >= 0x8000_0000_0000_0000i128 || p <= -0x8000_0000_0000_0000i128 {
                        proof {
                            lemma_pow2_pos(e);
                            if *exp >= 64 {
                                lemma_pow2_ge(64, e);
                                lemma_pow2(64);
                                lemma2_to64();
                            }
                            let q = (p as int) * pow2(e);
                            if p > 0 {
                                assert(q > i64::MAX) by (nonlinear_arith)
                                    requires
                                        p > 0,
                                        pow2(e) > 0,
                                        p >= 0x8000_0000_0000_0000i128 || pow2(e) >= 0x1_0000_0000_0000_0000nat,
                                        q == (p as int) * pow2(e),
                                ;
                            } else {
                                assert(q <= i64::MIN) by (nonlinear_arith)
                                    requires
                                        p < 0,
                                        pow2(e) > 0,
                                        p <= -0x8000_0000_0000_0000i128 || pow2(e) >= 0x1_0000_0000_0000_0000nat,
                                        q == (p as int) * pow2(e),
                                ;
                            }
                        }
                        if p > 0 {
                            i64::MAX
                        } else {
                            i64::MIN
                        }
                    } else {
                        let m = pow2_u128(*exp as u32);
                        proof {
                            lemma_pow2_pos(e);
                            lemma_pow2_ge(e, 63);
                            lemma2_to64_rest();
                            lemma_mul_abs_bound(p as int, pow2(e) as int, 0x8000_0000_0000_0000, 0x8000_0000_0000_0000);
                        }
                        let q: i128 = p * (m as i128);
                        sat_i128(q)
                    }
                } else {
                    let s: u32 = (0i64 - (*exp as i64)) as u32;
                    proof {
                        lemma_pow2_pos(s as nat);
                    }
                    if s >= 96 {
                        proof {
                            lemma_pow2_ge(96, s as nat);
                            lemma_pow2(96);
                            lemma2_to64(); lemma_pow2_adds(64, 32);
                            let d = pow2(s as nat) as int;
                            if p >= 0 {
                                lemma_fundamental_div_mod_converse(p as int, d, 0, p as int);
                            } else {
                                lemma_fundamental_div_mod_converse(p as int, d, -1, d + p as int);
                            }
                        }
                        if p >= 0 {
                            0
                        } else {
                            -1
                        }
                    } else {
                        let d = pow2_u128(s);
                        proof {
                            lemma_pow2_ge(s as nat, 96);
                            lemma_pow2(96);
                            lemma2_to64(); lemma_pow2_adds(64, 32);
                        }
                        let q = floor_div(p, d);
                        proof {
                            assert((*mant as int) * (scale as int) == p as int);
                        }
                        sat_i128(q)
                    }
                }
            },
            Number::Ratio { num, den } => {
                if *den == 0 {
                    proof {
                        lemma_div_basics(0);
                    }
                    0
                } else {
                    proof { lemma_mul_abs_bound(*num as int, scale as int, 0x8000_0000_0000_0000, 0xffff_ffff); }
                let p: i128 = (*num as i128) * (scale as i128);

                    let q = floor_div(p, *den as u128);
                    sat_i128(q)
                }
            },
        }
    }

    /// Sign of `value - k`.
    #[verifier::rlimit(40)]
    pub fn compare_int_exec(&self, k: i64) -> (r: i8)
        ensures
            r as int == self.compare_int(k as int),
    {
        match self {
            Number::Int(i) => {
                if *i < k {
                    -1
                } else if *i == k {
                    0
                } else {
                    1
                }
            },
            Number::Float { mant, exp } => compare_float(*mant, *exp, k),
            Number::Ratio { num, den } => {
                if *den == 0 {
                    if 0 < k {
                        -1
                    } else if k == 0 {
                        0
                    } else {
                        1
                    }
                } else {
                    proof { lemma_mul_abs_bound(k as int, *den as int, 0x8000_0000_0000_0000, 0xffff_ffff); }
                    let w: i128 = (k as i128) * (*den as i128);
                    if (*num as i128) < w {
                        -1
                    } else if (*num as i128) == w {
                        0
                    } else {
                        1
                    }
                }
            },
        }
    }
}

#[verifier::rlimit(40)]
fn compare_float(mant: i64, exp: i32, k: i64) -> (r: i8)
    ensures
        r as int == (Number::Float { mant, exp }).compare_int(k as int),
{
                if exp >= 0 {
                    let ghost e = exp as nat;
                    proof {
                        lemma_pow2_pos(e);
                        assert((Number::Float{mant, exp}).den() == 1);
                        assert((Number::Float{mant, exp}).num() == mant * pow2(e));
                    }
                    if mant == 0 {
                        proof {
                            assert(0 * pow2(e) == 0);
                        }
                        if 0 < k {
                            -1
                        } else if k == 0 {
                            0
                        } else {
                            1
                        }
                    } else if exp >= 64 {
                        proof {
                            lemma_pow2_ge(64, e);
                            lemma_pow2(64);
                            lemma2_to64();
                            let v = (mant as int) * pow2(e);
                            if mant > 0 {
                                assert(v >= pow2(e)) by (nonlinear_arith)
                                    requires
                                        mant > 0,
                                        pow2(e) > 0,
                                        v == (mant as int) * pow2(e),
                                ;
                            } else {
                                assert(v <= -pow2(e)) by (nonlinear_arith)
                                    requires
                                        mant < 0,
                                        pow2(e) > 0,
                                        v == (mant as int) * pow2(e),
                                ;
                            }
                        }
                        if mant > 0 {
                            1
                        } else {
                            -1
                        }
                    } else {
                        let m = pow2_u128(exp as u32);
                        proof {
                            lemma_pow2_ge(e, 63);
                            lemma2_to64_rest();
                            lemma_mul_abs_bound(mant as int, pow2(e) as int, 0x8000_0000_0000_0000, 0x8000_0000_0000_0000);
                        }
                        let v: i128 = (mant as i128) * (m as i128);
                        if v < k as i128 {
                            -1
                        } else if v == k as i128 {
                            0
                        } else {
                            1
                        }
                    }
                } else {
                    let s: u32 = (0i64 - (exp as i64)) as u32;
                    proof {
                        lemma_pow2_pos(s as nat);
                        assert(s as int == -(exp as int));
                        assert((Number::Float{mant, exp}).den() == pow2(s as nat));
                        assert((Number::Float{mant, exp}).num() == mant);
                    }
                    if k == 0 {
                        proof {
                            assert(0 * pow2(s as nat) == 0);
                        }
                        if mant < 0 {
                            -1
                        } else if mant == 0 {
                            0
                        } else {
                            1
                        }
                    } else if s >= 64 {
                        proof {
                            lemma_pow2_ge(64, s as nat);
                            lemma_pow2(64);
                            lemma2_to64();
                            let w = (k as int) * pow2(s as nat);
                            if k > 0 {
                                assert(w >= pow2(s as nat)) by (nonlinear_arith)
                                    requires
                                        k > 0,
                                        pow2(s as nat) > 0,
                                        w == (k as int) * pow2(s as nat),
                                ;
                            } else {
                                assert(w <= -pow2(s as nat)) by (nonlinear_arith)
                                    requires
                                        k < 0,
                                        pow2(s as nat) > 0,
                                        w == (k as int) * pow2(s as nat),
                                ;
                            }
                        }
                        if k > 0 {
                            -1
                        } else {
                            1
                        }
                    } else {
                        let m = pow2_u128(s);
                        proof {
                            lemma_pow2_ge(s as nat, 63);
                            lemma2_to64_rest();
                            lemma_mul_abs_bound(k as int, pow2(s as nat) as int, 0x8000_0000_0000_0000, 0x8000_0000_0000_0000);
                        }
                        let w: i128 = (k as i128) * (m as i128);
                        if (mant as i128) < w {
                            -1
                        } else if (mant as i128) == w {
                            0
                        } else {
                            1
                        }
                    }
                }
            
}

} // verus!
