use vstd::prelude::*;
use rayon::prelude::{IntoParallelIterator, ParallelIterator};

verus! {

/// Widest source range that `map_range` accepts: the scaled numerator must fit in `i128`.
pub const MAX_SPAN: i128 = 0x4000_0000_0000_0000_0000_0000_0000;

/// Linear map of `s` from `from_range` onto `to_range`, rounded to the nearest
/// integer (halves upward). An empty source range maps everything to the low
/// end of the target range.
pub open spec fn map_range_spec(from_range: (int, int), to_range: (int, int), s: int) -> int {
    let span = from_range.1 - from_range.0;
    if span == 0 {
        to_range.0
    } else {
        to_range.0 + ((s - from_range.0) * (to_range.1 - to_range.0) * 2 + span) / (2 * span)
    }
}

/// Smallest element of `s` (zero when `s` is empty).
pub open spec fn seq_min(s: Seq<int>) -> int
    decreases s.len(),
{
    if s.len() == 0 {
        0
    } else if s.len() == 1 {
        s[0]
    } else {
        let m = seq_min(s.drop_last());
        if s.last() < m {
            s.last()
        } else {
            m
        }
    }
}

/// Largest element of `s` (zero when `s` is empty).
pub open spec fn seq_max(s: Seq<int>) -> int
    decreases s.len(),
{
    if s.len() == 0 {
        0
    } else if s.len() == 1 {
        s[0]
    } else {
        let m = seq_max(s.drop_last());
        if s.last() > m {
            s.last()
        } else {
            m
        }
    }
}

/// `v` rescaled from its own observed range onto `0..=255`.
pub open spec fn normalized(v: Seq<int>) -> Seq<u8> {
    Seq::new(v.len(), |i: int| map_range_spec((seq_min(v), seq_max(v)), (0, 255), v[i]) as u8)
}

/// The integers of `v`.
pub open spec fn ints_of(v: Seq<i128>) -> Seq<int> {
    Seq::new(v.len(), |i: int| v[i] as int)
}

/// The rounded rescale of an offset `a` within a span onto `0..=d` stays in `0..=d`.
pub proof fn lemma_scaled_in_range(a: int, span: int, d: int)
    requires
        0 <= a <= span,
        0 < span,
        0 <= d,
    ensures
        0 <= (a * d * 2 + span) / (2 * span) <= d,
{
    assert(0 <= a * d * 2 + span < 2 * span * (d + 1)) by (nonlinear_arith)
        requires
            0 <= a <= span,
            0 < span,
            0 <= d,
    ;
    assert((2 * span * (d + 1)) / (2 * span) == d + 1) by (nonlinear_arith)
        requires
            0 < span,
    ;
    vstd::arithmetic::div_mod::lemma_div_is_ordered(a * d * 2 + span, 2 * span * (d + 1) - 1, 2 * span);
    vstd::arithmetic::div_mod::lemma_div_pos_is_pos(a * d * 2 + span, 2 * span);
    assert((2 * span * (d + 1) - 1) / (2 * span) <= d) by (nonlinear_arith)
        requires
            0 < span,
            0 <= d,
            (2 * span * (d + 1)) / (2 * span) == d + 1,
    {
        vstd::arithmetic::div_mod::lemma_fundamental_div_mod(2 * span * (d + 1) - 1, 2 * span);
    }
}

/// Maps `s` linearly from `from_range` onto `to_range`, rounding to nearest;
/// an empty source range yields the low end of the target range.
pub fn map_range(from_range: (i128, i128), to_range: (u8, u8), s: i128) -> (r: u8)
    requires
        from_range.0 <= s <= from_range.1,
        to_range.0 <= to_range.1,
        from_range.1 - from_range.0 <= MAX_SPAN,
    ensures
        r as int == map_range_spec(
            (from_range.0 as int, from_range.1 as int),
            (to_range.0 as int, to_range.1 as int),
            s as int,
        ),
        to_range.0 <= r <= to_range.1,
{
    let span: i128 = from_range.1 - from_range.0;
    if span == 0 {
        return to_range.0;
    }
    let a: i128 = s - from_range.0;
    let d: i128 = (to_range.1 - to_range.0) as i128;
    proof {
        lemma_scaled_in_range(a as int, span as int, d as int);
        assert(a * d <= span * 255) by (nonlinear_arith)
            requires
                0 <= a <= span,
                0 <= d <= 255,
        ;
        assert(0 <= a * d) by (nonlinear_arith)
            requires
                0 <= a,
                0 <= d,
        ;
    }
    let q: i128 = (a * d * 2 + span) / (2 * span);
    (to_range.0 as i128 + q) as u8
}

/// Every element of `s` lies between `seq_min(s)` and `seq_max(s)`.
pub proof fn lemma_min_max_contain(s: Seq<int>)
    ensures
        forall|i: int| 0 <= i < s.len() ==> seq_min(s) <= #[trigger] s[i] <= seq_max(s),
    decreases s.len(),
{
    if s.len() > 1 {
        let p = s.drop_last();
        lemma_min_max_contain(p);
        assert forall|i: int| 0 <= i < s.len() implies seq_min(s) <= #[trigger] s[i] <= seq_max(s) by {
            if i < s.len() - 1 {
                assert(s[i] == p[i]);
            }
        }
    }
}

/// Bounds that hold of every element of a non-empty `s` hold of its minimum
/// and maximum, and every element lies between those two.
pub proof fn lemma_min_max_bounds(s: Seq<int>, lo: int, hi: int)
    requires
        s.len() > 0,
        forall|i: int| 0 <= i < s.len() ==> lo <= #[trigger] s[i] <= hi,
    ensures
        forall|i: int| 0 <= i < s.len() ==> seq_min(s) <= #[trigger] s[i] <= seq_max(s),
        lo <= seq_min(s) <= seq_max(s) <= hi,
    decreases s.len(),
{
    lemma_min_max_contain(s);
    if s.len() > 1 {
        let p = s.drop_last();
        assert forall|i: int| 0 <= i < p.len() implies lo <= #[trigger] p[i] <= hi by {
            assert(p[i] == s[i]);
        }
        lemma_min_max_bounds(p, lo, hi);
    }
}

/// The smallest and largest value of `v`.
fn min_max(v: &Vec<i128>) -> (r: (i128, i128))
    requires
        v@.len() > 0,
    ensures
        r.0 == seq_min(ints_of(v@)),
        r.1 == seq_max(ints_of(v@)),
{
    let mut lo: i128 = v[0];
    let mut hi: i128 = v[0];
    let mut i: usize = 1;
    while i < v.len()
        invariant
            1 <= i <= v@.len(),
            lo == seq_min(ints_of(v@).take(i as int)),
            hi == seq_max(ints_of(v@).take(i as int)),
        decreases v@.len() - i,
    {
        let ghost s = ints_of(v@);
        assert(s.take(i as int + 1).drop_last() == s.take(i as int));
        if v[i] < lo {
            lo = v[i];
        }
        if v[i] > hi {
            hi = v[i];
        }
        i = i + 1;
    }
    assert(ints_of(v@).take(v@.len() as int) == ints_of(v@));
    (lo, hi)
}

/// Relies on rayon: `into_par_iter` on a `Vec`, then `map` and `collect` into
/// a `Vec`, which keeps the items in their original order.
#[verifier::external_body]
fn par_map_range(v: Vec<i128>, lo: i128, hi: i128) -> (r: Vec<u8>)
    requires
        forall|i: int| 0 <= i < v@.len() ==> lo <= #[trigger] v@[i] <= hi,
        hi - lo <= MAX_SPAN,
    ensures
        r@.len() == v@.len(),
        forall|i: int|
            0 <= i < v@.len() ==> #[trigger] r@[i] as int == map_range_spec(
                (lo as int, hi as int),
                (0, 255),
                v@[i] as int,
            ),
{
    v.into_par_iter().map(|p| map_range((lo, hi), (0, 255), p)).collect()
}

/// Rescales `v` from its own observed range onto `0..=255`; a flat `v` maps
/// to all zeros.
pub fn normalize(v: Vec<i128>) -> (r: Vec<u8>)
    requires
        forall|i: int| 0 <= i < v@.len() ==> 0 <= #[trigger] v@[i] <= MAX_SPAN,
    ensures
        r@ == normalized(ints_of(v@)),
{
    if v.len() == 0 {
        let r: Vec<u8> = Vec::new();
        assert(r@ == normalized(ints_of(v@)));
        return r;
    }
    let (lo, hi) = min_max(&v);
    let ghost s = ints_of(v@);
    proof {
        assert forall|i: int| 0 <= i < s.len() implies 0 <= #[trigger] s[i] <= MAX_SPAN by {
            assert(s[i] == v@[i]);
        }
        lemma_min_max_bounds(s, 0, MAX_SPAN as int);
        assert forall|i: int| 0 <= i < v@.len() implies lo <= #[trigger] v@[i] <= hi by {
            assert(s[i] == v@[i]);
        }
    }
    let r = par_map_range(v, lo, hi);
    assert(r@ == normalized(s));
    r
}

} // verus!
