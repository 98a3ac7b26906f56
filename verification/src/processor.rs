use vstd::prelude::*;
use crate::raster::Rgba8;

verus! {

// Gradient remapping works in fixed point with two scales. Gamma-domain
// values (encoded channels, the perceptual gray, blend ratios) use 11
// fraction bits: full intensity is 2048. Linear-light values use 23
// fraction bits: full intensity is 8388608. Gamma correction uses the
// exponent 2.2, written as the rational 11/5, so linearising is the 11/5
// power and re-encoding the 5/11 power; both are integer fifth/eleventh
// roots, computed exactly by bracketed search against cross-multiplied
// powers. The constant 64 is `2048^11 / 8388608^5`, relating the two
// scales: `(z/8388608)^5 <= (t/2048)^11  <=>  z^5 * 64 <= t^11`. The
// linear scale is fine enough that decoding any nonzero channel stays
// nonzero and the decode-encode round trip returns every byte exactly
// (`lemma_gamma_roundtrip`), which makes blending a colour with itself the
// identity and the blend endpoints exact.

/// The fifth power.
pub open spec fn pow5(y: int) -> int {
    y * y * y * y * y
}

/// The eleventh power, written through the fifth so that proofs can treat
/// the fifth power as one term.
pub open spec fn pow11(t: int) -> int {
    pow5(t) * pow5(t) * t
}

/// The cross-scale constant `2048^11 / 8388608^5 = 64`.
pub open spec fn spec_root_scale() -> int {
    64
}

/// A byte channel scaled to the gamma domain: `2048 * v / 255`, rounded
/// half up.
pub open spec fn spec_chan_fx(v: int) -> int {
    (4096 * v + 255) / 510
}

/// The largest `z` at or below `cap` whose fifth power (at the linear
/// scale) does not exceed the eleventh power of `t` (at the gamma scale),
/// or zero.
pub open spec fn spec_root_down(t: int, cap: int) -> int
    decreases cap,
        when cap >= 0
{
    if cap <= 0 {
        0
    } else if pow5(cap) * spec_root_scale() <= pow11(t) {
        cap
    } else {
        spec_root_down(t, cap - 1)
    }
}

/// Gamma decoding of a gamma-domain value:
/// `floor(8388608 * (t/2048)^(11/5))`.
pub open spec fn spec_gamma_down(t: int) -> int {
    spec_root_down(t, 8388608)
}

/// The largest `w` at or below `cap` whose eleventh power (at the gamma
/// scale) does not exceed the fifth power of `z` (at the linear scale), or
/// zero.
pub open spec fn spec_root_up(z: int, cap: int) -> int
    decreases cap,
        when cap >= 0
{
    if cap <= 0 {
        0
    } else if pow11(cap) <= pow5(z) * spec_root_scale() {
        cap
    } else {
        spec_root_up(z, cap - 1)
    }
}

/// Gamma encoding of a linear-light value:
/// `floor(2048 * (z/8388608)^(5/11))`.
pub open spec fn spec_gamma_up(z: int) -> int {
    spec_root_up(z, 2048)
}

/// The linear-light value of a byte channel.
pub open spec fn spec_lin(v: int) -> int {
    spec_gamma_down(spec_chan_fx(v))
}

/// The perceptual gray of a pixel: the linear channels mixed with the
/// luminance weights `(0.2126, 0.7152, 0.0722)` and re-encoded.
pub open spec fn spec_gray_fx(px: Rgba8) -> int {
    spec_gamma_up(
        (2126 * spec_lin(px.r as int) + 7152 * spec_lin(px.g as int)
            + 722 * spec_lin(px.b as int)) / 10000,
    )
}

/// One blended colour channel: both endpoints linearised, mixed by the
/// gamma-domain ratio in linear light, re-encoded, and scaled to a byte
/// rounded half up.
pub open spec fn spec_blend_ch(a: int, b: int, ratio: int) -> int {
    let mixed = ((2048 - ratio) * spec_lin(a) + ratio * spec_lin(b)) / 2048;
    (255 * spec_gamma_up(mixed) + 1024) / 2048
}

/// The blended pixel: colour channels blended in linear light, alpha
/// interpolated directly in gamma space, rounded half up.
pub open spec fn spec_blend(c1: Rgba8, c2: Rgba8, ratio: int) -> Rgba8 {
    Rgba8 {
        r: spec_blend_ch(c1.r as int, c2.r as int, ratio) as u8,
        g: spec_blend_ch(c1.g as int, c2.g as int, ratio) as u8,
        b: spec_blend_ch(c1.b as int, c2.b as int, ratio) as u8,
        a: (((2048 - ratio) * c1.a + ratio * c2.a + 1024) / 2048) as u8,
    }
}

/// Opaque white, the implicit second stop of a one-colour gradient.
pub open spec fn spec_white() -> Rgba8 {
    Rgba8 { r: 255, g: 255, b: 255, a: 255 }
}

/// What remapping one pixel through a gradient yields. A fully transparent
/// pixel passes through unchanged; so does any pixel when the gradient is
/// empty. One stop blends against white by the gray value, two stops blend
/// against each other, and three or more stops split `[0, 2048]` into
/// equal-width segments blended piecewise.
pub open spec fn spec_process_pixel(colors: Seq<Rgba8>, px: Rgba8) -> Rgba8 {
    if px.a == 0 {
        px
    } else if colors.len() == 0 {
        px
    } else {
        let gray = spec_gray_fx(px);
        if colors.len() == 1 {
            spec_blend(colors[0], spec_white(), gray)
        } else if colors.len() == 2 {
            spec_blend(colors[0], colors[1], gray)
        } else {
            let segs = colors.len() - 1;
            let idx0 = gray * segs / 2048;
            let idx = if idx0 > segs - 1 {
                segs - 1
            } else {
                idx0
            };
            let ratio = gray * segs - idx * 2048;
            spec_blend(colors[idx], colors[idx + 1], ratio)
        }
    }
}

/// The fifth power is monotone on non-negative arguments.
proof fn lemma_pow5_mono(a: int, b: int)
    requires
        0 <= a <= b,
    ensures
        0 <= pow5(a) <= pow5(b),
{
    assert(0 <= a * a * a * a * a <= b * b * b * b * b) by (nonlinear_arith)
        requires
            0 <= a <= b,
    ;
}

/// The fifth power is strictly monotone on non-negative arguments.
proof fn lemma_pow5_strict(a: int, b: int)
    requires
        0 <= a < b,
    ensures
        0 <= pow5(a) < pow5(b),
{
    assert(0 <= a * a * a * a * a < b * b * b * b * b) by (nonlinear_arith)
        requires
            0 <= a < b,
    ;
}

/// The eleventh power is monotone on non-negative arguments.
proof fn lemma_pow11_mono(a: int, b: int)
    requires
        0 <= a <= b,
    ensures
        0 <= pow11(a) <= pow11(b),
{
    lemma_pow5_mono(a, b);
    assert(0 <= pow5(a) * pow5(a) * a <= pow5(b) * pow5(b) * b) by (nonlinear_arith)
        requires
            0 <= a <= b && 0 <= pow5(a) <= pow5(b),
    ;
}

/// The eleventh power is strictly monotone on non-negative arguments.
proof fn lemma_pow11_strict(a: int, b: int)
    requires
        0 <= a < b,
    ensures
        0 <= pow11(a) < pow11(b),
{
    lemma_pow5_strict(a, b);
    assert(0 <= pow5(a) * pow5(a) * a < pow5(b) * pow5(b) * b) by (nonlinear_arith)
        requires
            0 <= a < b && 0 <= pow5(a) < pow5(b),
    ;
}

/// The fifth power distributes over products.
proof fn lemma_pow5_mul(x: int, y: int)
    ensures
        pow5(x * y) == pow5(x) * pow5(y),
{
    assert((x * y) * (x * y) * (x * y) * (x * y) * (x * y) == (x * x * x * x * x) * (y * y * y
        * y * y)) by (nonlinear_arith);
}

/// The eleventh power distributes over products.
proof fn lemma_pow11_mul(x: int, y: int)
    ensures
        pow11(x * y) == pow11(x) * pow11(y),
{
    lemma_pow5_mul(x, y);
    let a = pow5(x);
    let b = pow5(y);
    assert((a * b) * (a * b) * (x * y) == (a * a * x) * (b * b * y)) by (nonlinear_arith);
}

/// The descending search is pinned by its bracketing: any `r` in `[0, cap]`
/// whose fifth power fits and whose successor's does not is the result.
proof fn lemma_root_down_char(t: int, cap: int, r: int)
    requires
        0 <= r <= cap,
        r > 0 ==> pow5(r) * spec_root_scale() <= pow11(t),
        r < cap ==> pow11(t) < pow5(r + 1) * spec_root_scale(),
    ensures
        spec_root_down(t, cap) == r,
    decreases cap,
{
    if cap <= 0 {
    } else if pow5(cap) * spec_root_scale() <= pow11(t) {
        if r < cap {
            lemma_pow5_mono(r + 1, cap);
            assert(pow5(r + 1) * spec_root_scale() <= pow5(cap) * spec_root_scale())
                by (nonlinear_arith)
                requires
                    pow5(r + 1) <= pow5(cap) && spec_root_scale() > 0,
            ;
        }
    } else {
        if r == cap {
            assert(false);
        }
        lemma_root_down_char(t, cap - 1, r);
    }
}

/// The ascending analogue: bracketing pins the result of the upward root.
proof fn lemma_root_up_char(z: int, cap: int, r: int)
    requires
        0 <= r <= cap,
        r > 0 ==> pow11(r) <= pow5(z) * spec_root_scale(),
        r < cap ==> pow5(z) * spec_root_scale() < pow11(r + 1),
    ensures
        spec_root_up(z, cap) == r,
    decreases cap,
{
    if cap <= 0 {
    } else if pow11(cap) <= pow5(z) * spec_root_scale() {
        if r < cap {
            lemma_pow11_mono(r + 1, cap);
        }
    } else {
        if r == cap {
            assert(false);
        }
        lemma_root_up_char(z, cap - 1, r);
    }
}

/// The descending search's result satisfies its own bracketing.
proof fn lemma_root_down_props(t: int, cap: int)
    requires
        0 <= cap,
    ensures
        0 <= spec_root_down(t, cap) <= cap,
        spec_root_down(t, cap) > 0 ==> pow5(spec_root_down(t, cap)) * spec_root_scale()
            <= pow11(t),
        spec_root_down(t, cap) < cap ==> pow11(t) < pow5(spec_root_down(t, cap) + 1)
            * spec_root_scale(),
    decreases cap,
{
    if cap > 0 && !(pow5(cap) * spec_root_scale() <= pow11(t)) {
        lemma_root_down_props(t, cap - 1);
    }
}

/// The ascending search's result satisfies its own bracketing.
proof fn lemma_root_up_props(z: int, cap: int)
    requires
        0 <= cap,
    ensures
        0 <= spec_root_up(z, cap) <= cap,
        spec_root_up(z, cap) > 0 ==> pow11(spec_root_up(z, cap)) <= pow5(z) * spec_root_scale(),
        spec_root_up(z, cap) < cap ==> pow5(z) * spec_root_scale() < pow11(spec_root_up(z, cap)
            + 1),
    decreases cap,
{
    if cap > 0 && !(pow11(cap) <= pow5(z) * spec_root_scale()) {
        lemma_root_up_props(z, cap - 1);
    }
}

/// Full intensity relates the two scales exactly:
/// `8388608^5 * 64 == 2048^11`.
proof fn lemma_full_scale()
    ensures
        pow5(8388608) * spec_root_scale() == pow11(2048),
        pow5(2048) == 0x80000000000000,
        pow5(8388608) == 0x80000000000000000000000000000,
{
    assert(2048 * 2048 * 2048 * 2048 * 2048 == 0x80000000000000) by (nonlinear_arith);
    assert(8388608 * 8388608 * 8388608 * 8388608 * 8388608
        == 0x80000000000000000000000000000) by (nonlinear_arith);
    assert(0x80000000000000000000000000000 * 64 == 0x80000000000000 * 0x80000000000000 * 2048)
        by (nonlinear_arith);
}

/// The three concrete constants the gap ladder instantiates, one per range
/// of gamma-domain values.
proof fn lemma_ladder_consts()
    ensures
        pow5(16) * pow11(35) >= pow5(17) * pow11(34),
        pow5(212) * pow11(467) >= pow5(213) * pow11(466),
        pow5(2804) * pow11(2047) >= pow5(2805) * pow11(2044),
{
    assert(16 * 16 * 16 * 16 * 16 == 1048576) by (nonlinear_arith);
    assert(17 * 17 * 17 * 17 * 17 == 1419857) by (nonlinear_arith);
    assert(35 * 35 * 35 * 35 * 35 == 52521875) by (nonlinear_arith);
    assert(34 * 34 * 34 * 34 * 34 == 45435424) by (nonlinear_arith);
    assert(52521875int * 52521875 * 35 == 96549157373046875) by (nonlinear_arith);
    assert(45435424int * 45435424 * 34 == 70188843638032384) by (nonlinear_arith);
    assert(1048576int * 96549157373046875 >= 1419857int * 70188843638032384)
        by (nonlinear_arith);
    assert(212 * 212 * 212 * 212 * 212 == 428232184832) by (nonlinear_arith);
    assert(213 * 213 * 213 * 213 * 213 == 438427732293) by (nonlinear_arith);
    assert(467 * 467 * 467 * 467 * 467 == 22211833167107) by (nonlinear_arith);
    assert(466 * 466 * 466 * 466 * 466 == 21975035404576) by (nonlinear_arith);
    assert(22211833167107int * 22211833167107 * 467 == 230401703744465269881211992683)
        by (nonlinear_arith);
    assert(21975035404576int * 21975035404576 * 466 == 225032416361083806744810735616)
        by (nonlinear_arith);
    assert(428232184832int * 230401703744465269881211992683
        >= 438427732293int * 225032416361083806744810735616) by (nonlinear_arith);
    assert(2804 * 2804 * 2804 * 2804 * 2804 == 173336509341185024) by (nonlinear_arith);
    assert(2805 * 2805 * 2805 * 2805 * 2805 == 173645817808753125) by (nonlinear_arith);
    assert(2047 * 2047 * 2047 * 2047 * 2047 == 35940921946155007) by (nonlinear_arith);
    assert(2044 * 2044 * 2044 * 2044 * 2044 == 35678325005876224) by (nonlinear_arith);
    assert(35940921946155007int * 35940921946155007 * 2047
        == 2644211984585174742731315532085090303) by (nonlinear_arith);
    assert(35678325005876224int * 35678325005876224 * 2044
        == 2601895236959762355658521737370271744) by (nonlinear_arith);
    assert(173336509341185024int * 2644211984585174742731315532085090303
        >= 173645817808753125int * 2601895236959762355658521737370271744)
        by (nonlinear_arith);
}

/// For gamma-domain values from 8 up to 2047, the decoded linear value is
/// at least twice the input and strictly below full linear intensity.
proof fn lemma_gd_bounds(t: int)
    requires
        8 <= t <= 2047,
    ensures
        2 * t <= spec_gamma_down(t),
        spec_gamma_down(t) < 8388608,
        pow11(t) < pow5(spec_gamma_down(t) + 1) * spec_root_scale(),
        pow5(spec_gamma_down(t)) * spec_root_scale() <= pow11(t),
{
    let z = spec_gamma_down(t);
    lemma_root_down_props(t, 8388608);
    if z == 8388608 {
        lemma_full_scale();
        lemma_pow11_strict(t, 2048);
        assert(false);
    }
    if z < 2 * t {
        lemma_pow5_mono(z + 1, 2 * t);
        lemma_pow5_mul(2, t);
        lemma_pow5_mono(8, t);
        assert(32 * pow5(t) * 64 <= pow5(t) * pow5(t) * t) by (nonlinear_arith)
            requires
                8 <= t && 32768 <= pow5(t),
        ;
        assert(pow5(z + 1) * spec_root_scale() <= pow11(t)) by (nonlinear_arith)
            requires
                pow5(z + 1) <= pow5(2 * t) && pow5(2 * t) == 32 * pow5(t) && 32 * pow5(t) * 64
                    <= pow11(t) && spec_root_scale() == 64,
        ;
        assert(false);
    }
    // z > 0, so the positive side of the bracketing applies.
    assert(pow5(z) * spec_root_scale() <= pow11(t));
}

/// One range of the gap argument: with the bracketing facts of both roots,
/// a decoded value at least `bb`, and the range bound `t * q >= (t-3) * p`,
/// an encoded result four or more below `t` is impossible. The constant
/// fact `pow5(bb) * pow11(p) >= pow5(bb+1) * pow11(q)` is what each range
/// instantiates.
proof fn lemma_gap_case(t: int, z: int, w: int, bb: int, p: int, q: int)
    requires
        8 <= t,
        0 < q < p,
        0 < bb <= z,
        t * q >= (t - 3) * p,
        0 <= w,
        pow11(t) < pow5(z + 1) * 64,
        pow5(z) * 64 < pow11(w + 1),
        pow5(bb) * pow11(p) >= pow5(bb + 1) * pow11(q),
    ensures
        w > t - 4,
{
    if w > t - 4 {
        return;
    }
    let p11t = pow11(t);
    let p11t3 = pow11(t - 3);
    let p5z = pow5(z);
    let p5z1 = pow5(z + 1);
    let p5b = pow5(bb);
    let p5b1 = pow5(bb + 1);
    let p11p = pow11(p);
    let p11q = pow11(q);
    // Signs of every factor involved.
    lemma_pow11_strict(0, t);
    lemma_pow11_strict(0, t - 3);
    lemma_pow5_strict(0, z);
    lemma_pow5_strict(0, z + 1);
    lemma_pow5_strict(0, bb);
    lemma_pow5_strict(0, bb + 1);
    lemma_pow11_strict(0, p);
    lemma_pow11_strict(0, q);
    // The encoded side: pow11(w+1) <= pow11(t-3), so pow5(z)*64 < pow11(t-3).
    lemma_pow11_mono(w + 1, t - 3);
    // Multiply the two bracketing inequalities and cancel the factor 64.
    assert(p11t * (p5z * 64) < (p5z1 * 64) * p11t3) by (nonlinear_arith)
        requires
            p11t < p5z1 * 64 && p5z * 64 < p11t3 && 0 <= p11t && 0 < p5z1 * 64
                && 0 <= p5z * 64 && 0 < p11t3,
    ;
    assert(p11t * p5z < p5z1 * p11t3) by (nonlinear_arith)
        requires
            p11t * (p5z * 64) < (p5z1 * 64) * p11t3,
    ;
    // Slide the `+1` from the linear value to the constant `bb`.
    assert(0 <= (z + 1) * bb <= (bb + 1) * z) by (nonlinear_arith)
        requires
            0 < bb <= z,
    ;
    lemma_pow5_mono((z + 1) * bb, (bb + 1) * z);
    lemma_pow5_mul(z + 1, bb);
    lemma_pow5_mul(bb + 1, z);
    // p5z1 * p5b <= p5b1 * p5z, so scale the strict inequality by p5b and
    // cancel p5z.
    assert(p11t * p5b * p5z < p5b1 * p11t3 * p5z) by (nonlinear_arith)
        requires
            p11t * p5z < p5z1 * p11t3 && p5z1 * p5b <= p5b1 * p5z && 0 < p5b && 0 < p5z
                && 0 < p11t3 && 0 <= p11t && 0 < p5z1,
    ;
    assert(p11t * p5b < p5b1 * p11t3) by (nonlinear_arith)
        requires
            p11t * p5b * p5z < p5b1 * p11t3 * p5z && 0 < p5z,
    ;
    // The range bound, raised to the eleventh power.
    assert(0 <= (t - 3) * p) by (nonlinear_arith)
        requires
            8 <= t && 0 < p,
    ;
    lemma_pow11_mono((t - 3) * p, t * q);
    lemma_pow11_mul(t, q);
    lemma_pow11_mul(t - 3, p);
    // p11t3 * p11p <= p11t * p11q; chain and cancel p11t.
    assert(p11t * p5b * p11p < p5b1 * (p11t * p11q)) by (nonlinear_arith)
        requires
            p11t * p5b < p5b1 * p11t3 && p11t3 * p11p <= p11t * p11q && 0 < p11p && 0 < p5b1
                && 0 < p11t3 && 0 <= p11t,
    ;
    assert(p5b * p11p < p5b1 * p11q) by (nonlinear_arith)
        requires
            p11t * p5b * p11p < p5b1 * (p11t * p11q) && 0 < p11t,
    ;
    assert(false);
}

/// The gamma decode-encode round trip loses at most three gamma-domain
/// steps on any value from 8 through 2047.
proof fn lemma_gamma_gap(t: int)
    requires
        8 <= t <= 2047,
    ensures
        spec_gamma_up(spec_gamma_down(t)) >= t - 3,
        spec_gamma_up(spec_gamma_down(t)) <= t,
{
    let z = spec_gamma_down(t);
    let w = spec_gamma_up(z);
    lemma_gd_bounds(t);
    lemma_root_up_props(z, 2048);
    // Upper: pow11(w) <= pow5(z)*64 <= pow11(t), so w <= t.
    if w > t {
        lemma_pow11_strict(t, w);
        assert(false);
    }
    // Lower: a result of t-4 or less contradicts one of the three ranges.
    if w <= t - 4 {
        assert(pow5(z) * spec_root_scale() < pow11(w + 1));
        lemma_ladder_consts();
        if t <= 105 {
            lemma_gap_case(t, z, w, 16, 35, 34);
        } else if t <= 1401 {
            lemma_gap_case(t, z, w, 212, 467, 466);
        } else {
            lemma_gap_case(t, z, w, 2804, 2047, 2044);
        }
        assert(false);
    }
}

/// The gamma chain returns every byte exactly: scaling a channel to the
/// gamma domain, decoding it to linear light, re-encoding it and scaling
/// back to a byte is the identity. The linear scale is fine enough that
/// the round trip loses at most three gamma-domain steps, which the final
/// half-up rounding absorbs.
pub proof fn lemma_gamma_roundtrip(a: int)
    requires
        0 <= a <= 255,
    ensures
        (255 * spec_gamma_up(spec_gamma_down(spec_chan_fx(a))) + 1024) / 2048 == a,
{
    let t = spec_chan_fx(a);
    vstd::arithmetic::div_mod::lemma_fundamental_div_mod(4096 * a + 255, 510);
    if a == 0 {
        assert(t == 0) by (nonlinear_arith)
            requires
                t == 255int / 510,
        ;
        assert(pow5(0) == 0 && pow5(1) == 1 && pow11(0) == 0 && pow11(1) == 1);
        lemma_root_down_char(0, 8388608, 0);
        lemma_root_up_char(0, 2048, 0);
    } else if a == 255 {
        assert(t == 2048) by (nonlinear_arith)
            requires
                t == (4096 * 255 + 255) / 510,
        ;
        lemma_full_scale();
        lemma_root_down_char(2048, 8388608, 8388608);
        lemma_root_up_char(8388608, 2048, 2048);
        assert((255 * 2048 + 1024) / 2048 == 255) by (nonlinear_arith);
    } else {
        assert(8 <= t <= 2047) by (nonlinear_arith)
            requires
                1 <= a <= 254 && 510 * t <= 4096 * a + 255 && 4096 * a + 255 < 510 * t + 510,
        ;
        let w = spec_gamma_up(spec_gamma_down(t));
        lemma_gamma_gap(t);
        assert(2048 * a <= 255 * w + 1024 < 2048 * (a + 1)) by (nonlinear_arith)
            requires
                t - 3 <= w <= t && 510 * t <= 4096 * a + 255 && 4096 * a + 255 < 510 * t + 510,
        ;
        vstd::arithmetic::div_mod::lemma_fundamental_div_mod_converse(
            255 * w + 1024,
            2048,
            a,
            255 * w + 1024 - 2048 * a,
        );
    }
}

/// Blending a colour with itself returns that colour exactly, whatever the
/// ratio: equal endpoints mix to themselves in linear light, and the gamma
/// round trip returns every byte unchanged.
pub proof fn lemma_blend_self_identity(c: Rgba8, ratio: int)
    requires
        0 <= ratio <= 2048,
    ensures
        spec_blend(c, c, ratio) == c,
{
    lemma_blend_ch_self(c.r as int, ratio);
    lemma_blend_ch_self(c.g as int, ratio);
    lemma_blend_ch_self(c.b as int, ratio);
    assert(((2048 - ratio) * c.a + ratio * c.a + 1024) / 2048 == c.a as int)
        by (nonlinear_arith)
        requires
            0 <= ratio <= 2048 && 0 <= c.a <= 255,
    ;
}

/// One channel blended with itself comes back unchanged.
proof fn lemma_blend_ch_self(a: int, ratio: int)
    requires
        0 <= a <= 255,
        0 <= ratio <= 2048,
    ensures
        spec_blend_ch(a, a, ratio) == a,
{
    let la = spec_lin(a);
    lemma_root_down_props(spec_chan_fx(a), 8388608);
    assert(((2048 - ratio) * la + ratio * la) / 2048 == la) by (nonlinear_arith)
        requires
            0 <= la,
    ;
    lemma_gamma_roundtrip(a);
}

/// At ratio zero the blend returns the first stop exactly; at the full
/// ratio it returns the second: the gradient's endpoints are hit without
/// rounding error.
pub proof fn lemma_blend_endpoints(c1: Rgba8, c2: Rgba8)
    ensures
        spec_blend(c1, c2, 0) == c1,
        spec_blend(c1, c2, 2048) == c2,
{
    lemma_blend_ch_endpoint(c1.r as int, c2.r as int);
    lemma_blend_ch_endpoint(c1.g as int, c2.g as int);
    lemma_blend_ch_endpoint(c1.b as int, c2.b as int);
    assert((2048 * c1.a + 0 * c2.a + 1024) / 2048 == c1.a as int) by (nonlinear_arith)
        requires
            0 <= c1.a <= 255,
    ;
    assert((0 * c1.a + 2048 * c2.a + 1024) / 2048 == c2.a as int) by (nonlinear_arith)
        requires
            0 <= c2.a <= 255,
    ;
}

/// One channel at either end of the ratio range returns that endpoint.
proof fn lemma_blend_ch_endpoint(a: int, b: int)
    requires
        0 <= a <= 255,
        0 <= b <= 255,
    ensures
        spec_blend_ch(a, b, 0) == a,
        spec_blend_ch(a, b, 2048) == b,
{
    let la = spec_lin(a);
    let lb = spec_lin(b);
    lemma_root_down_props(spec_chan_fx(a), 8388608);
    lemma_root_down_props(spec_chan_fx(b), 8388608);
    assert((2048 * la + 0 * lb) / 2048 == la) by (nonlinear_arith)
        requires
            0 <= la,
    ;
    assert((0 * la + 2048 * lb) / 2048 == lb) by (nonlinear_arith)
        requires
            0 <= lb,
    ;
    lemma_gamma_roundtrip(a);
    lemma_gamma_roundtrip(b);
}

/// With an empty gradient the processor returns the exact input pixel, alpha
/// included, whatever the pixel holds.
pub proof fn lemma_empty_gradient_passthrough(colors: Seq<Rgba8>, px: Rgba8)
    requires
        colors.len() == 0,
    ensures
        spec_process_pixel(colors, px) == px,
{
}

/// A single-stop gradient maps a fully white, non-transparent source pixel
/// exactly to opaque white: white sits at the top of the gradient.
pub proof fn lemma_monotone_white_endpoint(c: Rgba8, px: Rgba8)
    requires
        px.r == 255,
        px.g == 255,
        px.b == 255,
        px.a != 0,
    ensures
        spec_process_pixel(seq![c], px) == spec_white(),
{
    lemma_fx_full();
    assert(spec_gray_fx(px) == 2048) by {
        assert((2126 * 8388608 + 7152 * 8388608 + 722 * 8388608) / 10000 == 8388608);
    }
    lemma_blend_endpoints(c, spec_white());
}

/// A single-stop gradient maps a fully black, non-transparent source pixel
/// exactly to the stop: the stop sits at the bottom of the gradient.
pub proof fn lemma_monotone_black_endpoint(c: Rgba8, px: Rgba8)
    requires
        px.r == 0,
        px.g == 0,
        px.b == 0,
        px.a != 0,
    ensures
        spec_process_pixel(seq![c], px) == c,
{
    assert(pow5(0) == 0 && pow5(1) == 1 && pow11(0) == 0 && pow11(1) == 1);
    lemma_root_down_char(0, 8388608, 0);
    assert(spec_gray_fx(px) == spec_gamma_up(0)) by {
        assert((2126 * 0 + 7152 * 0 + 722 * 0) / 10000 == 0);
    }
    lemma_root_up_char(0, 2048, 0);
    lemma_blend_endpoints(c, spec_white());
}

/// Full intensity is a fixed point of the whole gamma chain: a channel
/// value of 255 scales to 2048, linearises to full linear intensity, and
/// re-encodes to 2048.
proof fn lemma_fx_full()
    ensures
        spec_chan_fx(255) == 2048,
        spec_lin(255) == 8388608,
        spec_gamma_up(8388608) == 2048,
{
    assert(spec_chan_fx(255) == 2048);
    assert(pow5(2048) == 0x80000000000000);
    assert(pow5(8388608) * spec_root_scale() == pow11(2048)) by (nonlinear_arith);
    lemma_root_down_char(2048, 8388608, 8388608);
    lemma_root_up_char(8388608, 2048, 2048);
}

/// Computes the fifth power of a linear-scale value, exactly.
fn pow5_exec(t: u32) -> (r: u128)
    requires
        t <= 0x80_0000,
    ensures
        r as int == pow5(t as int),
        r <= 0x80000000000000000000000000000,
{
    let t1: u128 = t as u128;
    proof {
        assert(t1 * t1 <= 0x80_0000 * 0x80_0000) by (nonlinear_arith)
            requires
                0 <= t1 <= 0x80_0000,
        ;
    }
    let t2: u128 = t1 * t1;
    proof {
        assert(t2 * t2 <= (0x80_0000 * 0x80_0000) * (0x80_0000 * 0x80_0000))
            by (nonlinear_arith)
            requires
                0 <= t2 <= 0x80_0000 * 0x80_0000,
        ;
    }
    let t4: u128 = t2 * t2;
    proof {
        assert(t4 * t1 <= 0x80000000000000000000000000000) by (nonlinear_arith)
            requires
                0 <= t4 <= (0x80_0000 * 0x80_0000) * (0x80_0000 * 0x80_0000) && 0 <= t1
                    <= 0x80_0000,
        ;
        assert(t4 * t1 == pow5(t1 as int)) by (nonlinear_arith)
            requires
                t2 == t1 * t1 && t4 == t2 * t2,
        ;
    }
    t4 * t1
}

/// Computes the eleventh power of a gamma-scale value, exactly.
fn pow11_exec(t: u32) -> (r: u128)
    requires
        t <= 2048,
    ensures
        r as int == pow11(t as int),
{
    let t5 = pow5_exec(t);
    proof {
        lemma_full_scale();
        assert(pow5(t as int) <= pow5(2048)) by {
            lemma_pow5_mono(t as int, 2048);
        }
        assert(t5 * t5 <= 0x80000000000000 * 0x80000000000000) by (nonlinear_arith)
            requires
                0 <= t5 <= 0x80000000000000,
        ;
        assert(t5 * t5 * (t as int) <= t5 * t5 * 2048) by (nonlinear_arith)
            requires
                0 <= t <= 2048 && 0 <= t5 * t5,
        ;
        assert(t5 * t5 * 2048 <= 0x80000000000000 * 0x80000000000000 * 2048) by (nonlinear_arith)
            requires
                0 <= t5 * t5 <= 0x80000000000000 * 0x80000000000000,
        ;
    }
    t5 * t5 * (t as u128)
}

/// Computes the fifth power of a linear-scale value times the cross-scale
/// constant, exactly.
fn pow5_sc_exec(y: u32) -> (r: u128)
    requires
        y <= 0x80_0000,
    ensures
        r as int == pow5(y as int) * spec_root_scale(),
{
    let y5 = pow5_exec(y);
    proof {
        assert(y5 * 64 <= 0x80000000000000000000000000000 * 64) by (nonlinear_arith)
            requires
                0 <= y5 <= 0x80000000000000000000000000000,
        ;
    }
    y5 * 64
}

/// Gamma decoding by bracketed binary search: the exact integer
/// `floor(8388608 * (t/2048)^(11/5))`.
fn gamma_down(t: u32) -> (y: u32)
    requires
        t <= 2048,
    ensures
        y as int == spec_gamma_down(t as int),
        y <= 0x80_0000,
{
    let t11 = pow11_exec(t);
    let mut lo: u32 = 0;
    let mut hi: u32 = 0x80_0000;
    while lo < hi
        invariant
            lo <= hi <= 0x80_0000,
            t <= 2048,
            t11 as int == pow11(t as int),
            lo > 0 ==> pow5(lo as int) * spec_root_scale() <= pow11(t as int),
            hi < 0x80_0000 ==> pow11(t as int) < pow5(hi as int + 1) * spec_root_scale(),
        decreases hi - lo,
    {
        let mid = (lo + hi + 1) / 2;
        if pow5_sc_exec(mid) <= t11 {
            lo = mid;
        } else {
            hi = mid - 1;
        }
    }
    proof {
        lemma_root_down_char(t as int, 8388608, lo as int);
    }
    lo
}

/// Gamma encoding by bracketed binary search: the exact integer
/// `floor(2048 * (z/8388608)^(5/11))`.
fn gamma_up(z: u32) -> (w: u32)
    requires
        z <= 0x80_0000,
    ensures
        w as int == spec_gamma_up(z as int),
        w <= 2048,
{
    let z5s = pow5_sc_exec(z);
    let mut lo: u32 = 0;
    let mut hi: u32 = 2048;
    while lo < hi
        invariant
            lo <= hi <= 2048,
            z <= 0x80_0000,
            z5s as int == pow5(z as int) * spec_root_scale(),
            lo > 0 ==> pow11(lo as int) <= pow5(z as int) * spec_root_scale(),
            hi < 2048 ==> pow5(z as int) * spec_root_scale() < pow11(hi as int + 1),
        decreases hi - lo,
    {
        let mid = (lo + hi + 1) / 2;
        if pow11_exec(mid) <= z5s {
            lo = mid;
        } else {
            hi = mid - 1;
        }
    }
    proof {
        lemma_root_up_char(z as int, 2048, lo as int);
    }
    lo
}

/// Scales a byte channel to the gamma domain.
fn chan_fx(v: u8) -> (r: u32)
    ensures
        r as int == spec_chan_fx(v as int),
        r <= 2048,
{
    (4096 * v as u32 + 255) / 510
}

/// Computes the linear-light value of a byte channel.
fn lin_chan(v: u8) -> (r: u32)
    ensures
        r as int == spec_lin(v as int),
        r <= 0x80_0000,
{
    gamma_down(chan_fx(v))
}

/// Remaps grayscale luminance to an output colour through an ordered
/// gradient of colour stops, blending in gamma-corrected linear light.
pub struct ColorProcessor {
    /// The ordered gradient stops.
    pub colors: Vec<Rgba8>,
}

impl ColorProcessor {
    /// Wraps an ordered list of gradient stops.
    pub fn new(colors: Vec<Rgba8>) -> (r: Self)
        ensures
            r.colors == colors,
    {
        Self { colors }
    }

    /// Computes the perceptual gray of a pixel in the gamma domain.
    fn to_grayscale(&self, pixel: &Rgba8) -> (gray: u32)
        ensures
            gray as int == spec_gray_fx(*pixel),
            gray <= 2048,
    {
        let lr = lin_chan(pixel.r) as u64;
        let lg = lin_chan(pixel.g) as u64;
        let lb = lin_chan(pixel.b) as u64;
        let mix = (2126 * lr + 7152 * lg + 722 * lb) / 10000;
        gamma_up(mix as u32)
    }

    /// Blends two colour stops by a gamma-domain ratio in linear light.
    fn blend_colors(&self, color1: &Rgba8, color2: &Rgba8, ratio: u32) -> (r: Rgba8)
        requires
            ratio <= 2048,
        ensures
            r == spec_blend(*color1, *color2, ratio as int),
    {
        let rr = self.blend_ch(color1.r, color2.r, ratio);
        let gg = self.blend_ch(color1.g, color2.g, ratio);
        let bb = self.blend_ch(color1.b, color2.b, ratio);
        proof {
            assert((2048 - ratio as int) * color1.a + ratio as int * color2.a + 1024
                <= 2048 * 255 + 1024) by (nonlinear_arith)
                requires
                    0 <= ratio <= 2048 && 0 <= color1.a <= 255 && 0 <= color2.a <= 255,
            ;
            assert((2048 - ratio as int) * color1.a >= 0 && ratio as int * color2.a >= 0)
                by (nonlinear_arith)
                requires
                    0 <= ratio <= 2048 && 0 <= color1.a && 0 <= color2.a,
            ;
        }
        let aa = (((2048 - ratio) * color1.a as u32 + ratio * color2.a as u32 + 1024) / 2048)
            as u8;
        Rgba8 { r: rr, g: gg, b: bb, a: aa }
    }

    /// Blends one colour channel in linear light.
    fn blend_ch(&self, a: u8, b: u8, ratio: u32) -> (r: u8)
        requires
            ratio <= 2048,
        ensures
            r as int == spec_blend_ch(a as int, b as int, ratio as int),
    {
        let la = lin_chan(a) as u64;
        let lb = lin_chan(b) as u64;
        proof {
            assert((2048 - ratio as int) * la + ratio as int * lb <= 2048 * 0x80_0000)
                by (nonlinear_arith)
                requires
                    0 <= ratio <= 2048 && 0 <= la <= 0x80_0000 && 0 <= lb <= 0x80_0000,
            ;
            assert((2048 - ratio as int) * la >= 0 && ratio as int * lb >= 0)
                by (nonlinear_arith)
                requires
                    0 <= ratio <= 2048 && 0 <= la && 0 <= lb,
            ;
        }
        let mixed = ((2048 - ratio as u64) * la + ratio as u64 * lb) / 2048;
        let g = gamma_up(mixed as u32);
        ((255 * g + 1024) / 2048) as u8
    }

    /// Blends a single stop against white by the gray value.
    fn monotone(&self, gray: u32) -> (r: Rgba8)
        requires
            gray <= 2048,
            self.colors.len() >= 1,
        ensures
            r == spec_blend(self.colors@[0], spec_white(), gray as int),
    {
        let white = Rgba8 { r: 255, g: 255, b: 255, a: 255 };
        let c0 = self.colors[0];
        self.blend_colors(&c0, &white, gray)
    }

    /// Blends the two stops directly by the gray value.
    fn duotone(&self, gray: u32) -> (r: Rgba8)
        requires
            gray <= 2048,
            self.colors.len() >= 2,
        ensures
            r == spec_blend(self.colors@[0], self.colors@[1], gray as int),
    {
        let c0 = self.colors[0];
        let c1 = self.colors[1];
        self.blend_colors(&c0, &c1, gray)
    }

    /// Selects the luminance segment of a gradient of three or more stops
    /// and blends its two endpoint stops by the position inside it.
    fn multi_tone(&self, gray: u32) -> (r: Rgba8)
        requires
            gray <= 2048,
            self.colors.len() >= 3,
        ensures
            ({
                let colors = self.colors@;
                let segs = colors.len() - 1;
                let idx0 = gray * segs / 2048;
                let idx = if idx0 > segs - 1 {
                    segs - 1
                } else {
                    idx0
                };
                let ratio = gray * segs - idx * 2048;
                r == spec_blend(colors[idx], colors[idx + 1], ratio)
            }),
    {
        let segs = self.colors.len() - 1;
        proof {
            assert(gray as int * segs as int <= 2048 * segs as int) by (nonlinear_arith)
                requires
                    0 <= gray <= 2048 && 0 <= segs,
            ;
            assert(2048 * segs as int <= 2048 * 0xffff_ffff_ffff_ffff) by (nonlinear_arith)
                requires
                    0 <= segs <= 0xffff_ffff_ffff_ffff,
            ;
        }
        let prod: u128 = gray as u128 * segs as u128;
        let idx0: u128 = prod / 2048;
        let ghost gsegs = segs as int;
        let ghost gprod = gray as int * gsegs;
        proof {
            assert(0 <= gprod <= 2048 * gsegs) by (nonlinear_arith)
                requires
                    0 <= gray <= 2048 && 1 <= gsegs && gprod == gray as int * gsegs,
            ;
            vstd::arithmetic::div_mod::lemma_fundamental_div_mod(gprod, 2048);
        }
        let idx: usize = if idx0 > (segs - 1) as u128 {
            segs - 1
        } else {
            proof {
                assert(gprod / 2048 <= gsegs) by (nonlinear_arith)
                    requires
                        0 <= gprod <= 2048 * gsegs && 1 <= gsegs,
                ;
            }
            idx0 as usize
        };
        proof {
            assert(idx as int * 2048 <= segs as int * 2048) by (nonlinear_arith)
                requires
                    0 <= idx <= segs,
            ;
            assert(segs as int * 2048 <= 0xffff_ffff_ffff_ffff * 2048) by (nonlinear_arith)
                requires
                    0 <= segs <= 0xffff_ffff_ffff_ffff,
            ;
        }
        let back: u128 = idx as u128 * 2048;
        proof {
            if gprod / 2048 > gsegs - 1 {
                assert(gprod >= 2048 * gsegs) by (nonlinear_arith)
                    requires
                        gprod / 2048 >= gsegs && 0 <= gprod,
                ;
                assert(gprod - (gsegs - 1) * 2048 == gprod - 2048 * gsegs + 2048)
                    by (nonlinear_arith);
                assert(gprod <= 2048 * gsegs);
            } else {
                assert(gprod - (gprod / 2048) * 2048 == gprod % 2048) by (nonlinear_arith)
                    requires
                        0 <= gprod,
                ;
            }
        }
        let ratio: u32 = (prod - back) as u32;
        let c0 = self.colors[idx];
        let c1 = self.colors[idx + 1];
        self.blend_colors(&c0, &c1, ratio)
    }

    /// Remaps one pixel through the gradient. A fully transparent pixel and
    /// an empty gradient both pass the pixel through exactly unchanged.
    pub fn process_pixel(&self, pixel: &Rgba8) -> (r: Rgba8)
        ensures
            r == spec_process_pixel(self.colors@, *pixel),
    {
        if pixel.a == 0 {
            return *pixel;
        }
        if self.colors.len() == 0 {
            return *pixel;
        }
        let gray = self.to_grayscale(pixel);
        if self.colors.len() == 1 {
            self.monotone(gray)
        } else if self.colors.len() == 2 {
            self.duotone(gray)
        } else {
            self.multi_tone(gray)
        }
    }
}

} // verus!
