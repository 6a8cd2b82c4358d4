//! Normalization of device samples into 16-bit PCM amplitudes.
//!
//! A normalized amplitude `a` in [-1, 1] is held as the integer
//! `round(a * 32767)`, the value that the encoder writes for it. Integer device
//! formats are converted here exactly, with ties rounded away from zero.
use vstd::prelude::*;
use vstd::arithmetic::div_mod::{lemma_fundamental_div_mod, lemma_mod_bound};

verus! {

/// Full scale of a 16-bit amplitude: a normalized 1.0 is this value.
pub const PCM_FULL_SCALE: i64 = 32767;

/// `n / d` rounded to the nearest integer, ties away from zero.
pub open spec fn round_div(n: int, d: int) -> int
    recommends
        d > 0,
{
    if n >= 0 {
        (2 * n + d) / (2 * d)
    } else {
        -((-2 * n + d) / (2 * d))
    }
}

/// `v` clamped to full scale, so that its amplitude lies in [-1, 1].
pub open spec fn saturate_pcm(v: int) -> int {
    if v < -32767 {
        -32767
    } else if v > 32767 {
        32767
    } else {
        v
    }
}

/// PCM value of a signed sample `x` whose format has maximum magnitude `max`:
/// the amplitude is `x / max`, scaled to full scale and saturated.
pub open spec fn pcm_of_signed(x: int, max: int) -> int {
    saturate_pcm(round_div(x * 32767, max))
}

/// PCM value of an unsigned sample `x` whose format has maximum `max`:
/// the amplitude is `(x / max) * 2 - 1`, scaled to full scale.
pub open spec fn pcm_of_unsigned(x: int, max: int) -> int {
    round_div((2 * x - max) * 32767, max)
}

proof fn lemma_round_div_bound(n: int, d: int, m: int)
    requires
        d > 0,
        m >= 0,
        -m * d <= n <= m * d,
    ensures
        -m <= round_div(n, d) <= m,
{
    let a = if n >= 0 { n } else { -n };
    let q = (2 * a + d) / (2 * d);
    assert((-m) * d == -(m * d)) by (nonlinear_arith);
    assert(a <= m * d);
    lemma_fundamental_div_mod(2 * a + d, 2 * d);
    lemma_mod_bound(2 * a + d, 2 * d);
    assert(0 <= q) by (nonlinear_arith)
        requires
            2 * a + d == 2 * d * q + (2 * a + d) % (2 * d),
            (2 * a + d) % (2 * d) < 2 * d,
            a >= 0,
            d > 0,
    ;
    assert(q <= m) by (nonlinear_arith)
        requires
            2 * a + d == 2 * d * q + (2 * a + d) % (2 * d),
            0 <= (2 * a + d) % (2 * d),
            a <= m * d,
            d > 0,
    ;
}

/// Computes `round_div(n, d)` for operands small enough for 64-bit arithmetic.
fn round_div_exec(n: i64, d: i64) -> (r: i64)
    requires
        0 < d <= 0x1_0000,
        -0x1_0000_0000 <= n <= 0x1_0000_0000,
    ensures
        r == round_div(n as int, d as int),
{
    if n >= 0 {
        (2 * n + d) / (2 * d)
    } else {
        let a: i64 = -n;
        let q: i64 = (2 * a + d) / (2 * d);
        assert(q <= 2 * a + d) by (nonlinear_arith)
            requires
                q == (2 * a + d) / (2 * d),
                a >= 0,
                d > 0,
        ;
        -q
    }
}

/// Normalizes a signed 8-bit sample.
pub fn pcm_from_i8(x: i8) -> (r: i16)
    ensures
        r == pcm_of_signed(x as int, 127),
{
    let v = round_div_exec(x as i64 * PCM_FULL_SCALE, 127);
    if v < -PCM_FULL_SCALE {
        -32767
    } else if v > PCM_FULL_SCALE {
        32767
    } else {
        v as i16
    }
}

/// Normalizes a signed 16-bit sample. Its maximum magnitude is full scale, so
/// the value is kept, but for `i16::MIN`, which saturates to `-32767`.
pub fn pcm_from_i16(x: i16) -> (r: i16)
    ensures
        r == pcm_of_signed(x as int, 32767),
        r == (if x == i16::MIN { -32767i16 } else { x }),
{
    assert(round_div(x * 32767, 32767) == x) by {
        lemma_round_div_exact(x as int, 32767);
    }
    if x == i16::MIN {
        -32767
    } else {
        x
    }
}

proof fn lemma_round_div_exact(x: int, d: int)
    requires
        d > 0,
    ensures
        round_div(x * d, d) == x,
{
    if x >= 0 {
        assert(x * d >= 0) by (nonlinear_arith)
            requires
                x >= 0,
                d > 0,
        ;
        assert(2 * (x * d) + d == x * (2 * d) + d) by (nonlinear_arith);
        vstd::arithmetic::div_mod::lemma_fundamental_div_mod_converse(2 * (x * d) + d, 2 * d, x, d);
    } else {
        assert(x * d < 0) by (nonlinear_arith)
            requires
                x < 0,
                d > 0,
        ;
        assert(-2 * (x * d) + d == (-x) * (2 * d) + d) by (nonlinear_arith);
        vstd::arithmetic::div_mod::lemma_fundamental_div_mod_converse(-2 * (x * d) + d, 2 * d, -x, d);
    }
}

/// Normalizes an unsigned 8-bit sample.
pub fn pcm_from_u8(x: u8) -> (r: i16)
    ensures
        r == pcm_of_unsigned(x as int, 255),
{
    let n: i64 = (2 * x as i64 - 255) * PCM_FULL_SCALE;
    proof {
        lemma_round_div_bound(n as int, 255, 32767);
    }
    round_div_exec(n, 255) as i16
}

/// Normalizes an unsigned 16-bit sample.
pub fn pcm_from_u16(x: u16) -> (r: i16)
    ensures
        r == pcm_of_unsigned(x as int, 65535),
{
    let n: i64 = (2 * x as i64 - 65535) * PCM_FULL_SCALE;
    proof {
        lemma_round_div_bound(n as int, 65535, 32767);
    }
    round_div_exec(n, 65535) as i16
}

} // verus!
