use vstd::prelude::*;
use rayon::prelude::{IntoParallelIterator, ParallelIterator};
use crate::normalize::{normalize, normalized, ints_of, MAX_SPAN};
use crate::raster::{Raster, lemma_index_in_grid};

verus! {

/// Largest magnitude of one product of a sample and an `i32` weight.
pub const TERM_BOUND: i128 = 547_608_330_240;

/// The reasons a convolution is refused.
#[derive(Debug, Clone, Copy, PartialEq, Eq, Structural)]
pub enum ConvolveError {
    /// The kernel is wider or taller than the source raster.
    KernelTooLarge,
}

/// Product of the `t`-th kernel cell (row-major) and the sample beneath it,
/// for the window whose top-left corner is at `(x, y)`.
pub open spec fn window_term(
    pixels: Seq<u8>,
    width: int,
    weights: Seq<i32>,
    n: int,
    x: int,
    y: int,
    t: int,
) -> int {
    pixels[(y + t / n) * width + x + t % n] as int * weights[t] as int
}

/// Sum of the first `t` window terms.
pub open spec fn window_sum(
    pixels: Seq<u8>,
    width: int,
    weights: Seq<i32>,
    n: int,
    x: int,
    y: int,
    t: int,
) -> int
    decreases t,
{
    if t <= 0 {
        0
    } else {
        window_sum(pixels, width, weights, n, x, y, t - 1) + window_term(
            pixels,
            width,
            weights,
            n,
            x,
            y,
            t - 1,
        )
    }
}

/// Weighted sum of the `n * n` window at `(x, y)`.
pub open spec fn raw_at(pixels: Seq<u8>, width: int, weights: Seq<i32>, n: int, x: int, y: int) -> int {
    window_sum(pixels, width, weights, n, x, y, n * n)
}

/// The weighted sum with negative results floored to zero.
pub open spec fn clamped_at(
    pixels: Seq<u8>,
    width: int,
    weights: Seq<i32>,
    n: int,
    x: int,
    y: int,
) -> int {
    let r = raw_at(pixels, width, weights, n, x, y);
    if r < 0 {
        0
    } else {
        r
    }
}

/// The clamped sums of every valid window position, in row-major order.
pub open spec fn clamped_values(source: Raster, n: int, weights: Seq<i32>) -> Seq<int> {
    let ow = source.width - n + 1;
    let oh = source.height - n + 1;
    Seq::new(
        (ow * oh) as nat,
        |i: int| clamped_at(source.pixels@, source.width as int, weights, n, i % ow, i / ow),
    )
}

/// The samples of the convolution of `source` with the `n * n` kernel `weights`.
pub open spec fn convolved(source: Raster, n: int, weights: Seq<i32>) -> Seq<u8> {
    normalized(clamped_values(source, n, weights))
}

/// The kernel fits the source and the weights form an `n * n` grid.
pub open spec fn kernel_fits(source: Raster, n: int, weights: Seq<i32>) -> bool {
    &&& source.wf()
    &&& 1 <= n <= source.width
    &&& n <= source.height
    &&& weights.len() == n * n
}

proof fn lemma_window_cell(t: int, n: int)
    requires
        0 <= t < n * n,
        1 <= n,
    ensures
        0 <= t / n < n,
        0 <= t % n < n,
{
    vstd::arithmetic::div_mod::lemma_div_pos_is_pos(t, n);
    vstd::arithmetic::div_mod::lemma_div_is_ordered(t, n * n - 1, n);
    assert((n * n - 1) / n < n) by (nonlinear_arith)
        requires
            1 <= n,
    {
        vstd::arithmetic::div_mod::lemma_fundamental_div_mod(n * n - 1, n);
        vstd::arithmetic::div_mod::lemma_mod_pos_bound(n * n - 1, n);
    }
    vstd::arithmetic::div_mod::lemma_mod_pos_bound(t, n);
}

proof fn lemma_term_bound(p: u8, w: i32)
    ensures
        -TERM_BOUND <= p as int * w as int <= TERM_BOUND,
{
    assert(-TERM_BOUND <= p as int * w as int <= TERM_BOUND) by (nonlinear_arith)
        requires
            0 <= p <= 255,
            -2147483648 <= w <= 2147483647,
            TERM_BOUND == 547_608_330_240,
    ;
}

proof fn lemma_window_sum_bound(
    pixels: Seq<u8>,
    width: int,
    weights: Seq<i32>,
    n: int,
    x: int,
    y: int,
    t: int,
)
    requires
        0 <= t,
    ensures
        -(t * TERM_BOUND) <= window_sum(pixels, width, weights, n, x, y, t) <= t * TERM_BOUND,
    decreases t,
{
    if t > 0 {
        lemma_window_sum_bound(pixels, width, weights, n, x, y, t - 1);
        lemma_term_bound(pixels[(y + (t - 1) / n) * width + x + (t - 1) % n], weights[t - 1]);
        assert(t * TERM_BOUND == (t - 1) * TERM_BOUND + TERM_BOUND) by (nonlinear_arith);
    }
}

/// The weighted sum of the `area_size * area_size` window whose top-left
/// corner is at `(x, y)`.
pub fn raw_sum(source: &Raster, area_size: usize, weights: &[i32], x: usize, y: usize) -> (r: i128)
    requires
        source.wf(),
        1 <= area_size,
        weights@.len() == area_size * area_size,
        x + area_size <= source.width,
        y + area_size <= source.height,
    ensures
        r == raw_at(source.pixels@, source.width as int, weights@, area_size as int, x as int, y as int),
        -(weights@.len() * TERM_BOUND) <= r <= weights@.len() * TERM_BOUND,
{
    let cells = weights.len();
    let mut acc: i128 = 0;
    let mut t: usize = 0;
    while t < cells
        invariant
            t <= cells,
            cells == weights@.len(),
            source.wf(),
            1 <= area_size,
            weights@.len() == area_size * area_size,
            x + area_size <= source.width,
            y + area_size <= source.height,
            acc == window_sum(source.pixels@, source.width as int, weights@, area_size as int, x as int, y as int, t as int),
            -(t * TERM_BOUND) <= acc <= t * TERM_BOUND,
        decreases cells - t,
    {
        let dy = t / area_size;
        let dx = t % area_size;
        proof {
            lemma_window_cell(t as int, area_size as int);
        }
        let p = source.pixel(x + dx, y + dy);
        let w = weights[t];
        proof {
            lemma_term_bound(p, w);
            assert((t + 1) * TERM_BOUND == t * TERM_BOUND + TERM_BOUND) by (nonlinear_arith);
            assert(t * TERM_BOUND <= 0x1_0000_0000_0000_0000 * TERM_BOUND) by (nonlinear_arith)
                requires
                    t <= 0x1_0000_0000_0000_0000,
            ;
        }
        acc = acc + (p as i128) * (w as i128);
        t = t + 1;
    }
    acc
}

/// The clamped sum for output index `i`, whose column is `i % out_w` and row `i / out_w`.
pub fn clamped_at_index(source: &Raster, area_size: usize, weights: &[i32], out_w: usize, i: usize) -> (r: i128)
    requires
        kernel_fits(*source, area_size as int, weights@),
        out_w == source.width - area_size + 1,
        i < out_w * (source.height - area_size + 1),
    ensures
        r == clamped_values(*source, area_size as int, weights@)[i as int],
        0 <= r <= weights@.len() * TERM_BOUND,
{
    let x = i % out_w;
    let y = i / out_w;
    proof {
        let oh = source.height - area_size + 1;
        let ow = out_w as int;
        vstd::arithmetic::div_mod::lemma_mod_pos_bound(i as int, out_w as int);
        vstd::arithmetic::div_mod::lemma_div_pos_is_pos(i as int, out_w as int);
        vstd::arithmetic::div_mod::lemma_div_is_ordered(i as int, ow * oh - 1, ow);
        assert((ow * oh - 1) / ow < oh) by (nonlinear_arith)
            requires
                1 <= ow,
                1 <= oh,
        {
            vstd::arithmetic::div_mod::lemma_fundamental_div_mod(ow * oh - 1, ow);
            vstd::arithmetic::div_mod::lemma_mod_pos_bound(ow * oh - 1, ow);
        }
    }
    let raw = raw_sum(source, area_size, weights, x, y);
    if raw < 0 {
        0
    } else {
        raw
    }
}

/// Relies on rayon: `into_par_iter` on a range of indices, then `map` and
/// `collect` into a `Vec`, which keeps the items in index order.
#[verifier::external_body]
fn par_clamped_sums(source: &Raster, area_size: usize, weights: &[i32], out_w: usize, count: usize) -> (r: Vec<i128>)
    requires
        kernel_fits(*source, area_size as int, weights@),
        out_w == source.width - area_size + 1,
        count == out_w * (source.height - area_size + 1),
    ensures
        r@.len() == count,
        forall|i: int|
            0 <= i < count ==> #[trigger] r@[i] as int == clamped_values(
                *source,
                area_size as int,
                weights@,
            )[i],
{
    (0..count).into_par_iter().map(|i| clamped_at_index(source, area_size, weights, out_w, i)).collect()
}

/// Valid-mode convolution of `source` with the `area_size * area_size` kernel
/// `weights` (row-major): each output sample is the window's weighted sum,
/// floored at zero, then the whole output is rescaled onto `0..=255` by its own
/// minimum and maximum (a flat output becomes all zeros).
pub fn convolve(source: &Raster, area_size: usize, weights: &[i32]) -> (r: Result<Raster, ConvolveError>)
    requires
        source.wf(),
        1 <= area_size,
        weights@.len() == area_size * area_size,
    ensures
        r is Err <==> area_size > source.width || area_size > source.height,
        r matches Err(e) ==> e == ConvolveError::KernelTooLarge,
        r matches Ok(out) ==> {
            &&& out.wf()
            &&& out.width == source.width - area_size + 1
            &&& out.height == source.height - area_size + 1
            &&& out.pixels@ == convolved(*source, area_size as int, weights@)
        },
{
    if area_size > source.width || area_size > source.height {
        return Err(ConvolveError::KernelTooLarge);
    }
    let out_w = source.width - area_size + 1;
    let out_h = source.height - area_size + 1;
    let total = source.pixels.len();
    let cells = weights.len();
    proof {
        assert(out_w * out_h <= source.width * source.height) by (nonlinear_arith)
            requires
                out_w <= source.width,
                out_h <= source.height,
                1 <= out_w,
                1 <= out_h,
        ;
    }
    let count = out_w * out_h;
    let sums = par_clamped_sums(source, area_size, weights, out_w, count);
    proof {
        assert(ints_of(sums@) == clamped_values(*source, area_size as int, weights@));
        assert(weights@.len() * TERM_BOUND <= MAX_SPAN) by (nonlinear_arith)
            requires
                cells <= 0x1_0000_0000_0000_0000,
                cells == weights@.len(),
                TERM_BOUND == 547_608_330_240,
                MAX_SPAN == 0x4000_0000_0000_0000_0000_0000_0000,
        ;
        assert forall|i: int| 0 <= i < sums@.len() implies 0 <= #[trigger] sums@[i] <= MAX_SPAN by {
            let x = i % out_w as int;
            let y = i / out_w as int;
            lemma_window_sum_bound(source.pixels@, source.width as int, weights@, area_size as int, x, y, weights@.len() as int);
            assert(sums@[i] == clamped_values(*source, area_size as int, weights@)[i]);
        }
    }
    let pixels = normalize(sums);
    Ok(Raster { width: out_w, height: out_h, pixels })
}

} // verus!
