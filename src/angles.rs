use vstd::prelude::*;

verus! {

/// π in microradians.
pub const PI_MICRO: i64 = 3_141_593;

/// 2π in microradians.
pub const TWO_PI_MICRO: i64 = 6_283_185;

/// The largest heading magnitude accepted, in microradians.
pub const MAX_HEADING: i64 = 1_000_000_000_000_000;

/// `r` is `a` brought into `[-π, π]` by whole turns, the way repeated
/// subtraction (when above π) or addition (when below -π) of 2π brings it.
pub open spec fn wrapped(a: int, r: int) -> bool {
    &&& -PI_MICRO <= r <= PI_MICRO
    &&& (a - r) % (TWO_PI_MICRO as int) == 0
    &&& (-PI_MICRO <= a <= PI_MICRO ==> r == a)
    &&& (a > PI_MICRO ==> r > PI_MICRO - TWO_PI_MICRO)
    &&& (a < -PI_MICRO ==> r < TWO_PI_MICRO - PI_MICRO)
}

proof fn lemma_wrapped_unique(a: int, r1: int, r2: int)
    requires
        wrapped(a, r1),
        wrapped(a, r2),
    ensures
        r1 == r2,
{
    let t = TWO_PI_MICRO as int;
    assert((r1 - r2) % t == 0) by {
        vstd::arithmetic::div_mod::lemma_fundamental_div_mod(a - r1, t);
        vstd::arithmetic::div_mod::lemma_fundamental_div_mod(a - r2, t);
        vstd::arithmetic::div_mod::lemma_mod_multiples_basic((a - r2) / t - (a - r1) / t, t);
        assert(r1 - r2 == ((a - r2) / t - (a - r1) / t) * t) by (nonlinear_arith)
            requires
                a - r1 == t * ((a - r1) / t),
                a - r2 == t * ((a - r2) / t),
        ;
    }
    vstd::arithmetic::div_mod::lemma_fundamental_div_mod(r1 - r2, t);
    let q = (r1 - r2) / t;
    assert(r1 - r2 == t * q);
    if q >= 1 {
        assert(t * q >= t) by (nonlinear_arith)
            requires
                q >= 1,
                t > 0,
        ;
    } else if q <= -1 {
        assert(t * q <= -t) by (nonlinear_arith)
            requires
                q <= -1,
                t > 0,
        ;
    }
}

/// The angle `a` brought into `[-π, π]` by whole turns.
pub open spec fn wrap(a: int) -> int {
    choose|r: int| #[trigger] wrapped(a, r)
}

/// Brings an angle into `[-π, π]` by whole turns.
pub fn wrap_angle(a: i64) -> (r: i64)
    requires
        -MAX_HEADING * 2 <= a <= MAX_HEADING * 2,
    ensures
        wrapped(a as int, r as int),
        r == wrap(a as int),
{
    let r = wrap_core(a);
    proof {
        lemma_wrapped_unique(a as int, r as int, wrap(a as int));
    }
    r
}

fn wrap_core(a: i64) -> (r: i64)
    requires
        -MAX_HEADING * 2 <= a <= MAX_HEADING * 2,
    ensures
        wrapped(a as int, r as int),
{
    if a > PI_MICRO {
        let n = a - PI_MICRO + TWO_PI_MICRO - 1;
        let q = n / TWO_PI_MICRO;
        proof {
            vstd::arithmetic::div_mod::lemma_fundamental_div_mod(n as int, TWO_PI_MICRO as int);
            assert(0 <= q * TWO_PI_MICRO <= n);
            vstd::arithmetic::div_mod::lemma_mod_multiples_basic(q as int, TWO_PI_MICRO as int);
        }
        a - q * TWO_PI_MICRO
    } else if a < -PI_MICRO {
        let n = -PI_MICRO - a + TWO_PI_MICRO - 1;
        let q = n / TWO_PI_MICRO;
        proof {
            vstd::arithmetic::div_mod::lemma_fundamental_div_mod(n as int, TWO_PI_MICRO as int);
            assert(0 <= q * TWO_PI_MICRO <= n);
            vstd::arithmetic::div_mod::lemma_mod_multiples_basic(-q as int, TWO_PI_MICRO as int);
            assert(a - (a + q * TWO_PI_MICRO) == -q * TWO_PI_MICRO);
        }
        a + q * TWO_PI_MICRO
    } else {
        proof {
            assert((a - a) as int % (TWO_PI_MICRO as int) == 0);
        }
        a
    }
}

} // verus!
