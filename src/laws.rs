use vstd::prelude::*;
use crate::convolve::{
    clamped_values, convolved, kernel_fits, window_sum, window_term,
};
use crate::normalize::{
    lemma_min_max_bounds, lemma_min_max_contain, lemma_scaled_in_range, map_range_spec, normalized,
    seq_max, seq_min,
};
use crate::raster::Raster;

verus! {

/// Convolving with the one-cell kernel `[1]` gives the source itself,
/// rescaled by its own range onto `0..=255`.
pub proof fn identity_kernel_rescales_source(source: Raster)
    requires
        kernel_fits(source, 1, seq![1i32]),
    ensures
        convolved(source, 1, seq![1i32]) == normalized(
            Seq::new(source.pixels@.len(), |i: int| source.pixels@[i] as int),
        ),
{
    let w = source.width as int;
    let ws = seq![1i32];
    let cv = clamped_values(source, 1, ws);
    let s = Seq::new(source.pixels@.len(), |i: int| source.pixels@[i] as int);
    assert forall|i: int| 0 <= i < cv.len() implies #[trigger] cv[i] == s[i] by {
        let x = i % w;
        let y = i / w;
        reveal_with_fuel(window_sum, 2);
        vstd::arithmetic::div_mod::lemma_fundamental_div_mod(i, w);
        assert(window_sum(source.pixels@, w, ws, 1, x, y, 1) == window_term(source.pixels@, w, ws, 1, x, y, 0));
        assert(y * w + x == i) by (nonlinear_arith)
            requires
                i == w * y + x,
        ;
        assert(ws[0] == 1);
        assert(0int / 1 == 0 && 0int % 1 == 0);
        assert((y + 0int / 1) * w + x + 0int % 1 == y * w + x);
        let p = source.pixels@[y * w + x] as int;
        assert(p * (ws[0] as int) == p) by (nonlinear_arith)
            requires
                ws[0] as int == 1,
        ;
        assert(window_term(source.pixels@, w, ws, 1, x, y, 0) == source.pixels@[y * w + x] as int);
        assert(1int * 1 == 1);
        assert(cv[i] == window_sum(source.pixels@, w, ws, 1, x, y, 1));
    }
    assert(cv =~= s);
}

/// Every normalized value, before it is stored as a byte, already lies in
/// `0..=255`, so storing it loses nothing.
pub proof fn normalized_stays_in_byte_range(v: Seq<int>)
    ensures
        forall|i: int|
            0 <= i < v.len() ==> {
                let m = map_range_spec((seq_min(v), seq_max(v)), (0, 255), #[trigger] v[i]);
                &&& 0 <= m <= 255
                &&& normalized(v)[i] as int == m
            },
{
    if v.len() > 0 {
        lemma_min_max_contain(v);
        assert forall|i: int| 0 <= i < v.len() implies {
            let m = map_range_spec((seq_min(v), seq_max(v)), (0, 255), #[trigger] v[i]);
            &&& 0 <= m <= 255
            &&& normalized(v)[i] as int == m
        } by {
            let lo = seq_min(v);
            let hi = seq_max(v);
            if hi != lo {
                lemma_scaled_in_range(v[i] - lo, hi - lo, 255);
            }
        }
    }
}

proof fn lemma_zero_weights_sum(
    pixels: Seq<u8>,
    width: int,
    weights: Seq<i32>,
    n: int,
    x: int,
    y: int,
    t: int,
)
    requires
        0 <= t <= weights.len(),
        forall|j: int| 0 <= j < weights.len() ==> #[trigger] weights[j] == 0,
    ensures
        window_sum(pixels, width, weights, n, x, y, t) == 0,
    decreases t,
{
    if t > 0 {
        lemma_zero_weights_sum(pixels, width, weights, n, x, y, t - 1);
        assert(weights[t - 1] == 0);
    }
}

/// A kernel of zero weights sums every window to zero, the output is flat,
/// and every output sample is zero.
pub proof fn zero_kernel_gives_black(source: Raster, n: int, weights: Seq<i32>)
    requires
        kernel_fits(source, n, weights),
        forall|j: int| 0 <= j < weights.len() ==> #[trigger] weights[j] == 0,
    ensures
        forall|i: int| 0 <= i < clamped_values(source, n, weights).len()
            ==> #[trigger] clamped_values(source, n, weights)[i] == 0,
        convolved(source, n, weights) == Seq::new(
            clamped_values(source, n, weights).len(),
            |i: int| 0u8,
        ),
{
    let cv = clamped_values(source, n, weights);
    let ow = source.width - n + 1;
    let oh = source.height - n + 1;
    assert forall|i: int| 0 <= i < cv.len() implies #[trigger] cv[i] == 0 by {
        lemma_zero_weights_sum(source.pixels@, source.width as int, weights, n, i % ow, i / ow, n * n);
    }
    assert(ow * oh > 0) by (nonlinear_arith)
        requires
            ow >= 1,
            oh >= 1,
    ;
    lemma_min_max_bounds(cv, 0, 0);
    assert(convolved(source, n, weights) =~= Seq::new(cv.len(), |i: int| 0u8));
}

/// The convolution depends on the source's dimensions and samples and on the
/// kernel alone: equal inputs give identical outputs.
pub proof fn convolution_is_deterministic(a: Raster, b: Raster, n: int, wa: Seq<i32>, wb: Seq<i32>)
    requires
        a.width == b.width,
        a.height == b.height,
        a.pixels@ == b.pixels@,
        wa == wb,
    ensures
        convolved(a, n, wa) == convolved(b, n, wb),
{
    assert(clamped_values(a, n, wa) =~= clamped_values(b, n, wb));
}

proof fn lemma_scaled_window_sum(
    pixels: Seq<u8>,
    width: int,
    weights: Seq<i32>,
    scaled: Seq<i32>,
    k: int,
    n: int,
    x: int,
    y: int,
    t: int,
)
    requires
        0 <= t <= weights.len(),
        scaled.len() == weights.len(),
        forall|j: int| 0 <= j < weights.len() ==> #[trigger] scaled[j] as int == k * weights[j] as int,
    ensures
        window_sum(pixels, width, scaled, n, x, y, t) == k * window_sum(pixels, width, weights, n, x, y, t),
    decreases t,
{
    if t > 0 {
        lemma_scaled_window_sum(pixels, width, weights, scaled, k, n, x, y, t - 1);
        let p = pixels[(y + (t - 1) / n) * width + x + (t - 1) % n] as int;
        let w = weights[t - 1] as int;
        let rest = window_sum(pixels, width, weights, n, x, y, t - 1);
        assert(scaled[t - 1] as int == k * w);
        assert(k * rest + p * (k * w) == k * (rest + p * w)) by (nonlinear_arith);
    }
}

proof fn lemma_scaled_min_max(v: Seq<int>, scaled: Seq<int>, k: int)
    requires
        0 < k,
        scaled.len() == v.len(),
        forall|i: int| 0 <= i < v.len() ==> #[trigger] scaled[i] == k * v[i],
    ensures
        seq_min(scaled) == k * seq_min(v),
        seq_max(scaled) == k * seq_max(v),
    decreases v.len(),
{
    if v.len() == 0 {
        assert(k * 0 == 0) by (nonlinear_arith);
    } else if v.len() > 1 {
        let p = v.drop_last();
        let q = scaled.drop_last();
        assert forall|i: int| 0 <= i < p.len() implies #[trigger] q[i] == k * p[i] by {
            assert(q[i] == scaled[i] && p[i] == v[i]);
        }
        lemma_scaled_min_max(p, q, k);
        let a = v.last();
        let lo = seq_min(p);
        let hi = seq_max(p);
        assert(scaled.last() == k * a);
        assert((k * a < k * lo) == (a < lo)) by (nonlinear_arith)
            requires
                0 < k,
        ;
        assert((k * a > k * hi) == (a > hi)) by (nonlinear_arith)
            requires
                0 < k,
        ;
    }
}

/// Multiplying every weight by the same positive factor `k` leaves the
/// convolution's output unchanged: the rescale divides the factor out.
pub proof fn positive_weight_scaling_keeps_output(
    source: Raster,
    n: int,
    weights: Seq<i32>,
    scaled: Seq<i32>,
    k: int,
)
    requires
        1 <= n,
        weights.len() == n * n,
        0 < k,
        scaled.len() == weights.len(),
        forall|j: int| 0 <= j < weights.len() ==> #[trigger] scaled[j] as int == k * weights[j] as int,
    ensures
        convolved(source, n, scaled) == convolved(source, n, weights),
{
    let cv = clamped_values(source, n, weights);
    let cs = clamped_values(source, n, scaled);
    let ow = source.width - n + 1;
    assert forall|i: int| 0 <= i < cv.len() implies #[trigger] cs[i] == k * cv[i] by {
        lemma_scaled_window_sum(source.pixels@, source.width as int, weights, scaled, k, n, i % ow, i / ow, n * n);
        let r = window_sum(source.pixels@, source.width as int, weights, n, i % ow, i / ow, n * n);
        assert((k * r < 0) == (r < 0)) by (nonlinear_arith)
            requires
                0 < k,
        ;
        assert(k * 0 == 0);
    }
    lemma_scaled_min_max(cv, cs, k);
    lemma_min_max_contain(cv);
    let lo = seq_min(cv);
    let hi = seq_max(cv);
    assert forall|i: int| 0 <= i < cv.len() implies #[trigger] map_range_spec((k * lo, k * hi), (0, 255), k * cv[i])
        == map_range_spec((lo, hi), (0, 255), cv[i]) by {
        let span = hi - lo;
        let a = cv[i] - lo;
        assert(k * hi - k * lo == k * span) by (nonlinear_arith)
            requires
                span == hi - lo,
        ;
        assert(k * cv[i] - k * lo == k * a) by (nonlinear_arith)
            requires
                a == cv[i] - lo,
        ;
        if span == 0 {
            assert(k * span == 0) by (nonlinear_arith)
                requires
                    span == 0,
            ;
        } else {
            let num = a * 255 * 2 + span;
            let den = 2 * span;
            assert(k * a * 255 * 2 + k * span == k * num) by (nonlinear_arith)
                requires
                    num == a * 255 * 2 + span,
            ;
            assert(2 * (k * span) == k * den) by (nonlinear_arith)
                requires
                    den == 2 * span,
            ;
            assert(0 <= num);
            assert(0 <= k * num) by (nonlinear_arith)
                requires
                    0 < k,
                    0 <= num,
            ;
            vstd::arithmetic::div_mod::lemma_div_denominator(k * num, k, den);
            vstd::arithmetic::div_mod::lemma_div_multiples_vanish(num, k);
        }
    }
    assert(convolved(source, n, scaled) =~= convolved(source, n, weights));
}

} // verus!
