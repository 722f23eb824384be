use vstd::arithmetic::div_mod::{lemma_fundamental_div_mod, lemma_mod_division_less_than_divisor};
use vstd::prelude::*;

verus! {

/// Unity gain in the fixed-point amplitude format: amplitudes are given in
/// units of `1 / GAIN_UNITY`, so `GAIN_UNITY` itself means a factor of one.
/// An amplitude of `GAIN_UNITY / 2` scales a sample by one half.
pub const GAIN_UNITY: u32 = 32768;

/// Truncating (round-toward-zero) division of `a` by a positive `b`, the
/// rounding that machine integer division performs.
pub open spec fn trunc_div(a: int, b: int) -> int {
    if a >= 0 {
        a / b
    } else {
        -((-a) / b)
    }
}

/// One mixed output sample: the live sample `x` scaled by `dry` plus the
/// delayed sample `d` scaled by `wet`, both amplitudes in units of
/// `1 / GAIN_UNITY`, quantized back to sample scale by truncating division.
pub open spec fn mix(x: int, d: int, dry: int, wet: int) -> int {
    trunc_div(x * dry + d * wet, GAIN_UNITY as int)
}

proof fn lemma_product_bounds(x: int, g: int)
    by (nonlinear_arith)
    requires
        i32::MIN <= x <= i32::MAX,
        0 <= g <= GAIN_UNITY,
    ensures
        (i32::MIN as int) * (GAIN_UNITY as int) <= x * g <= (i32::MAX as int) * (GAIN_UNITY as int),
{
}

proof fn lemma_acc_bounds(x: int, d: int, dry: int, wet: int)
    by (nonlinear_arith)
    requires
        i32::MIN <= x <= i32::MAX,
        i32::MIN <= d <= i32::MAX,
        0 <= dry,
        0 <= wet,
        dry + wet <= GAIN_UNITY,
    ensures
        (i32::MIN as int) * (GAIN_UNITY as int) <= x * dry + d * wet <= (i32::MAX as int) * (
        GAIN_UNITY as int),
{
}

/// A quotient bounded above by a multiple of the divisor is bounded by the
/// multiplier; the sample-range argument below uses it on both signs.
proof fn lemma_div_bound(a: int, b: int, c: int)
    by (nonlinear_arith)
    requires
        0 <= a,
        0 < b,
        0 <= c,
        a <= c * b,
    ensures
        a / b <= c,
{
    lemma_fundamental_div_mod(a, b);
    lemma_mod_division_less_than_divisor(a, b);
}

/// A mixed sample stays within the sample range whenever the two amplitudes
/// together do not exceed unity.
pub proof fn lemma_mix_in_sample_range(x: int, d: int, dry: int, wet: int)
    requires
        i32::MIN <= x <= i32::MAX,
        i32::MIN <= d <= i32::MAX,
        0 <= dry,
        0 <= wet,
        dry + wet <= GAIN_UNITY,
    ensures
        i32::MIN <= mix(x, d, dry, wet) <= i32::MAX,
{
    let s = GAIN_UNITY as int;
    let acc = x * dry + d * wet;
    lemma_acc_bounds(x, d, dry, wet);
    if acc >= 0 {
        lemma_div_bound(acc, s, i32::MAX as int);
        assert(mix(x, d, dry, wet) == acc / s);
        vstd::arithmetic::div_mod::lemma_div_pos_is_pos(acc, s);
    } else {
        lemma_div_bound(-acc, s, -(i32::MIN as int));
        assert(mix(x, d, dry, wet) == -((-acc) / s));
        vstd::arithmetic::div_mod::lemma_div_pos_is_pos(-acc, s);
    }
}

/// Scaling by an amplitude of zero contributes nothing: silence mixed with
/// silence stays silence, whatever the amplitudes are.
pub proof fn lemma_mix_zero(dry: int, wet: int)
    ensures
        mix(0, 0, dry, wet) == 0,
{
    assert(0 as int * dry == 0) by (nonlinear_arith);
    assert(0 as int * wet == 0) by (nonlinear_arith);
    assert(trunc_div(0, GAIN_UNITY as int) == 0) by {
        vstd::arithmetic::div_mod::lemma_div_of0(GAIN_UNITY as int);
    }
}

/// The mixed sample is the affine combination `x * dry + d * wet`, up to the
/// quantization of one truncating division: `GAIN_UNITY * mix` differs from
/// the exact combination by strictly less than one quantization step in each
/// direction.  For a fixed delayed sample `d`, the output is therefore an
/// affine function of the live input `x` at the fixed-point resolution.
pub proof fn lemma_mix_affine(x: int, d: int, dry: int, wet: int)
    ensures
        x * dry + d * wet - (GAIN_UNITY as int) < (GAIN_UNITY as int) * mix(x, d, dry, wet),
        (GAIN_UNITY as int) * mix(x, d, dry, wet) < x * dry + d * wet + (GAIN_UNITY as int),
{
    let s = GAIN_UNITY as int;
    let acc = x * dry + d * wet;
    if acc >= 0 {
        lemma_fundamental_div_mod(acc, s);
        lemma_mod_division_less_than_divisor(acc, s);
        assert(mix(x, d, dry, wet) == acc / s);
    } else {
        lemma_fundamental_div_mod(-acc, s);
        lemma_mod_division_less_than_divisor(-acc, s);
        assert(mix(x, d, dry, wet) == -((-acc) / s));
        assert(s * -((-acc) / s) == -(s * ((-acc) / s))) by (nonlinear_arith);
    }
}

/// One mixed output sample, computed exactly as `mix` describes.
pub fn mix_sample(x: i32, d: i32, dry: u32, wet: u32) -> (r: i32)
    requires
        dry + wet <= GAIN_UNITY,
    ensures
        r as int == mix(x as int, d as int, dry as int, wet as int),
{
    proof {
        lemma_product_bounds(x as int, dry as int);
        lemma_product_bounds(d as int, wet as int);
        lemma_acc_bounds(x as int, d as int, dry as int, wet as int);
        lemma_mix_in_sample_range(x as int, d as int, dry as int, wet as int);
    }
    let acc: i64 = (x as i64) * (dry as i64) + (d as i64) * (wet as i64);
    let q: i64 = acc / (GAIN_UNITY as i64);
    q as i32
}

} // verus!
