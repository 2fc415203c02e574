//! How a candidate is scored: lower is better.

use vstd::prelude::*;

verus! {

/// Division that rounds toward zero, for a positive divisor.
pub open spec fn trunc_div(a: int, b: int) -> int {
    if a >= 0 {
        a / b
    } else {
        -((-a) / b)
    }
}

/// The score of a candidate. A size of 0 stands for an unknown size and gets
/// the largest value there is. Otherwise: the distance of the size from the
/// preferred size, in tenths of the size itself, rounded toward zero; less 15
/// for each seeder; plus 1 for every ten leechers.
pub open spec fn score_value(size: u64, seeders: u32, leechers: u32, preferred_size: u64) -> int {
    if size == 0 {
        i64::MAX as int
    } else {
        trunc_div(size - preferred_size, (size / 10) as int) - seeders * 15 + leechers / 10
    }
}

/// Whether a candidate has a score: its size is unknown, or large enough to
/// have a tenth, and the score fits in 64 bits.
pub open spec fn scorable(size: u64, seeders: u32, leechers: u32, preferred_size: u64) -> bool {
    size == 0 || (size >= 10 && i64::MIN <= score_value(size, seeders, leechers, preferred_size)
        <= i64::MAX)
}

/// The score of a candidate, or `None` where it has none.
pub fn try_score(size: u64, seeders: u32, leechers: u32, preferred_size: u64) -> (r: Option<i64>)
    ensures
        r is Some <==> scorable(size, seeders, leechers, preferred_size),
        r matches Some(s) ==> s == score_value(size, seeders, leechers, preferred_size),
{
    if size == 0 {
        return Some(i64::MAX);
    }
    if size < 10 {
        return None;
    }
    let tenth: u64 = size / 10;
    let deviation: i128 = if size >= preferred_size {
        ((size - preferred_size) / tenth) as i128
    } else {
        -(((preferred_size - size) / tenth) as i128)
    };
    let total: i128 = deviation - (seeders as i128) * 15 + (leechers / 10) as i128;
    if total < i64::MIN as i128 || total > i64::MAX as i128 {
        None
    } else {
        Some(total as i64)
    }
}

/// The score of a candidate that has one.
pub fn score_item(size: u64, seeders: u32, leechers: u32, preferred_size: u64) -> (s: i64)
    requires
        scorable(size, seeders, leechers, preferred_size),
    ensures
        s == score_value(size, seeders, leechers, preferred_size),
{
    match try_score(size, seeders, leechers, preferred_size) {
        Some(s) => s,
        None => 0,
    }
}

/// With size, leechers and preferred size fixed, more seeders never give a
/// higher score.
pub proof fn lemma_score_falls_with_seeders(
    size: u64,
    fewer: u32,
    more: u32,
    leechers: u32,
    preferred_size: u64,
)
    requires
        fewer <= more,
    ensures
        score_value(size, more, leechers, preferred_size) <= score_value(
            size,
            fewer,
            leechers,
            preferred_size,
        ),
{
}

/// With seeders, leechers and a size of at least 10 bytes fixed, a preferred
/// size that lies further below the size never gives a lower score.
pub proof fn lemma_score_rises_with_excess(
    size: u64,
    seeders: u32,
    leechers: u32,
    nearer: u64,
    further: u64,
)
    requires
        size >= 10,
        further <= nearer <= size,
    ensures
        score_value(size, seeders, leechers, nearer) <= score_value(
            size,
            seeders,
            leechers,
            further,
        ),
{
    let d: int = (size / 10) as int;
    let a: int = size - nearer;
    let b: int = size - further;
    assert(a / d <= b / d) by (nonlinear_arith)
        requires
            0 <= a <= b,
            d > 0,
    ;
}

/// With seeders, leechers and a size of at least 10 bytes fixed, a preferred
/// size that lies further above the size never gives a higher score: the
/// score does not rise with the distance on that side.
pub proof fn lemma_score_falls_with_shortfall(
    size: u64,
    seeders: u32,
    leechers: u32,
    nearer: u64,
    further: u64,
)
    requires
        size >= 10,
        size <= nearer <= further,
    ensures
        score_value(size, seeders, leechers, further) <= score_value(
            size,
            seeders,
            leechers,
            nearer,
        ),
{
    let d: int = (size / 10) as int;
    let a: int = nearer - size;
    let b: int = further - size;
    assert(a / d <= b / d) by (nonlinear_arith)
        requires
            0 <= a <= b,
            d > 0,
    ;
}

} // verus!
