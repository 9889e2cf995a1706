//! Turning a grey image into black and white.
//!
//! A pixel above the threshold becomes 255, every other pixel 0. The
//! threshold is given, or found from the image's histogram by Otsu's method:
//! the level that parts the pixels into the two classes between which the
//! variance is largest. The variances are compared as exact fractions.
use crate::image_buffer::GrayImage;
use crate::wide::Wide;
use vstd::prelude::*;

verus! {

/// What a pixel becomes under a threshold.
pub open spec fn binarized(p: u8, threshold: u8) -> u8 {
    if p > threshold {
        255
    } else {
        0
    }
}

/// How often the level `v` occurs among the first `k` pixels.
pub open spec fn count_upto(data: Seq<u8>, k: int, v: int) -> int
    decreases k,
{
    if k <= 0 {
        0
    } else {
        count_upto(data, k - 1, v) + if data[k - 1] == v {
            1int
        } else {
            0int
        }
    }
}

/// How often the level `v` occurs in `data`.
pub open spec fn count(data: Seq<u8>, v: int) -> int {
    count_upto(data, data.len() as int, v)
}

/// The histogram of `data`: for each of the 256 levels, the number of pixels
/// that have it.
pub open spec fn histogram_of(data: Seq<u8>) -> Seq<usize> {
    Seq::new(256, |v: int| count(data, v) as usize)
}

/// The number of pixels with a level of at most `t`.
pub open spec fn weight_upto(hist: Seq<usize>, t: int) -> int
    decreases t + 1,
{
    if t < 0 {
        0
    } else {
        weight_upto(hist, t - 1) + hist[t]
    }
}

/// The sum of the levels of the pixels with a level of at most `t`.
pub open spec fn moment_upto(hist: Seq<usize>, t: int) -> int
    decreases t + 1,
{
    if t < 0 {
        0
    } else {
        moment_upto(hist, t - 1) + t * hist[t]
    }
}

/// Whether the level `t` parts the pixels into two classes that both hold a
/// pixel: the background at or below `t`, the foreground above.
pub open spec fn splits(hist: Seq<usize>, t: int) -> bool {
    0 < weight_upto(hist, t) < weight_upto(hist, 255)
}

/// The difference of the mean levels of the two classes that `t` parts,
/// times the number of pixels in the one and in the other. With the weights
/// `wb`, `wf` and the sums of levels `sb`, `sf` of the two classes that is
/// `wb * wf * (sb / wb - sf / wf)`, a whole number.
pub open spec fn spread(hist: Seq<usize>, t: int) -> int {
    let bg_weight = weight_upto(hist, t);
    let bg_sum = moment_upto(hist, t);
    let fg_weight = weight_upto(hist, 255) - bg_weight;
    let fg_sum = moment_upto(hist, 255) - bg_sum;
    fg_weight * bg_sum - bg_weight * fg_sum
}

/// The number of pixels in the one class that `t` parts, times the number
/// in the other.
pub open spec fn balance(hist: Seq<usize>, t: int) -> int {
    weight_upto(hist, t) * (weight_upto(hist, 255) - weight_upto(hist, t))
}

/// Whether the variance between the two classes that `t` parts is at most
/// the variance between the two that `u` parts.
///
/// The variance between two classes is the square of the difference of
/// their mean levels, times the number of pixels in the one and in the
/// other: `spread * spread / balance`. Two such fractions are compared by
/// cross-multiplication, their denominators being positive.
pub open spec fn apart_at_most(hist: Seq<usize>, t: int, u: int) -> bool {
    spread(hist, t) * spread(hist, t) * balance(hist, u) <= spread(hist, u) * spread(hist, u)
        * balance(hist, t)
}

/// Whether some level up to `t` parts the pixels into two classes.
pub open spec fn splits_upto(hist: Seq<usize>, t: int) -> bool {
    exists|u: int| 0 <= u <= t && splits(hist, u)
}

/// Whether `best` is the last of the levels up to `t` at which the variance
/// between the classes is largest.
pub open spec fn is_best_upto(hist: Seq<usize>, t: int, best: int) -> bool {
    &&& 0 <= best <= t
    &&& splits(hist, best)
    &&& forall|u: int| 0 <= u <= t && splits(hist, u) ==> #[trigger] apart_at_most(hist, u, best)
    &&& forall|u: int| best < u <= t && splits(hist, u) ==> !#[trigger] apart_at_most(hist, best, u)
}

/// Whether `t` is the threshold that Otsu's method gives for a histogram: the
/// last of the levels at which the variance between the two classes is
/// largest, and 0 where no level parts the pixels into two classes.
pub open spec fn is_otsu_threshold(hist: Seq<usize>, t: int) -> bool {
    if splits_upto(hist, 255) {
        is_best_upto(hist, 255, t)
    } else {
        t == 0
    }
}

/// The threshold that Otsu's method gives for a histogram.
pub open spec fn otsu_level(hist: Seq<usize>) -> int {
    choose|t: int| is_otsu_threshold(hist, t)
}

/// The threshold that Otsu's method gives for the pixels of an image.
pub open spec fn otsu_of(data: Seq<u8>) -> u8 {
    otsu_level(histogram_of(data)) as u8
}

/// Binarization of a grey image.
pub trait Threshold {
    /// Binarize the image with the given threshold.
    fn threshold(&mut self, threshold: u8);

    /// Binarize the image with the threshold that Otsu's method finds.
    fn otsu_threshold(&mut self);

    /// Count the pixels of each level.
    fn get_histogram(&mut self) -> [usize; 256];

    /// The threshold that Otsu's method finds for the image.
    fn get_otsu_value(&mut self) -> u8;

    /// Turn each level `p` into `255 - p`.
    fn invert(&mut self);
}

impl Threshold for GrayImage {
    fn threshold(&mut self, threshold: u8)
        ensures
            final(self).width == old(self).width,
            final(self).height == old(self).height,
            final(self).data@.len() == old(self).data@.len(),
            forall|i: int|
                0 <= i < old(self).data@.len() ==> #[trigger] final(self).data@[i] == binarized(
                    old(self).data@[i],
                    threshold,
                ),
    {
        let n: usize = self.data.len();
        let mut i: usize = 0;
        while i < n
            invariant
                i <= n,
                n == self.data@.len(),
                self.width == old(self).width,
                self.height == old(self).height,
                self.data@.len() == old(self).data@.len(),
                forall|j: int|
                    0 <= j < i ==> #[trigger] self.data@[j] == binarized(
                        old(self).data@[j],
                        threshold,
                    ),
                forall|j: int| i <= j < n ==> #[trigger] self.data@[j] == old(self).data@[j],
            decreases n - i,
        {
            let p: u8 = self.data[i];
            let q: u8 = if p > threshold {
                255
            } else {
                0
            };
            self.data[i] = q;
            i += 1;
        }
    }

    fn get_histogram(&mut self) -> (hist: [usize; 256])
        ensures
            *final(self) == *old(self),
            hist@ == histogram_of(old(self).data@),
    {
        let mut out: [usize; 256] = [0usize; 256];
        let n: usize = self.data.len();
        let mut i: usize = 0;
        while i < n
            invariant
                i <= n,
                n == self.data@.len(),
                *self == *old(self),
                forall|v: int|
                    0 <= v < 256 ==> #[trigger] out@[v] == count_upto(self.data@, i as int, v),
                forall|v: int| 0 <= v < 256 ==> #[trigger] out@[v] <= i,
            decreases n - i,
        {
            let p: usize = self.data[i] as usize;
            out[p] = out[p] + 1;
            i += 1;
        }
        assert(out@ =~= histogram_of(self.data@));
        out
    }

    fn get_otsu_value(&mut self) -> (t: u8)
        ensures
            *final(self) == *old(self),
            t == otsu_of(old(self).data@),
    {
        let histogram: [usize; 256] = self.get_histogram();
        let pixels: usize = self.data.len();
        proof {
            lemma_histogram_total(self.data@);
        }
        otsu_value(&histogram)
    }

    fn otsu_threshold(&mut self)
        ensures
            final(self).width == old(self).width,
            final(self).height == old(self).height,
            final(self).data@.len() == old(self).data@.len(),
            forall|i: int|
                0 <= i < old(self).data@.len() ==> #[trigger] final(self).data@[i] == binarized(
                    old(self).data@[i],
                    otsu_of(old(self).data@),
                ),
    {
        let t: u8 = self.get_otsu_value();
        self.threshold(t);
    }

    fn invert(&mut self)
        ensures
            final(self).width == old(self).width,
            final(self).height == old(self).height,
            final(self).data@.len() == old(self).data@.len(),
            forall|i: int|
                0 <= i < old(self).data@.len() ==> #[trigger] final(self).data@[i] == 255 - old(
                    self,
                ).data@[i],
    {
        let n: usize = self.data.len();
        let mut i: usize = 0;
        while i < n
            invariant
                i <= n,
                n == self.data@.len(),
                self.width == old(self).width,
                self.height == old(self).height,
                self.data@.len() == old(self).data@.len(),
                forall|j: int| 0 <= j < i ==> #[trigger] self.data@[j] == 255 - old(self).data@[j],
                forall|j: int| i <= j < n ==> #[trigger] self.data@[j] == old(self).data@[j],
            decreases n - i,
        {
            let p: u8 = self.data[i];
            self.data[i] = 255 - p;
            i += 1;
        }
    }
}

/// The threshold that Otsu's method gives for a histogram of 256 levels that
/// counts no more pixels than 64 bits can number.
pub fn otsu_value(histogram: &[usize; 256]) -> (t: u8)
    requires
        weight_upto(histogram@, 255) <= u64::MAX,
    ensures
        is_otsu_threshold(histogram@, t as int),
        t == otsu_level(histogram@),
{
    let ghost hist = histogram@;
    let mut total_weight: u128 = 0;
    let mut total_sum: u128 = 0;
    let mut level: usize = 0;
    while level < 256
        invariant
            level <= 256,
            hist == histogram@,
            total_weight == weight_upto(hist, level - 1),
            total_sum == moment_upto(hist, level - 1),
            total_weight <= level * 0x1_0000_0000_0000_0000,
            total_sum <= level * 0xFF_0000_0000_0000_0000,
        decreases 256 - level,
    {
        let held: u128 = histogram[level] as u128;
        assert(0 <= level * held <= 0xFF_0000_0000_0000_0000) by (nonlinear_arith)
            requires
                0 <= level <= 255,
                0 <= held <= 0x1_0000_0000_0000_0000,
        ;
        total_weight = total_weight + held;
        total_sum = total_sum + level as u128 * held;
        level += 1;
    }
    let mut bg_weight: u128 = 0;
    let mut bg_sum: u128 = 0;
    let mut found: bool = false;
    let mut best: u8 = 0;
    let mut best_spread: Wide = Wide::zero();
    let mut best_balance: u128 = 0;
    level = 0;
    while level < 256
        invariant
            level <= 256,
            hist == histogram@,
            total_weight == weight_upto(hist, 255),
            total_sum == moment_upto(hist, 255),
            total_weight <= u64::MAX,
            bg_weight == weight_upto(hist, level - 1),
            bg_sum == moment_upto(hist, level - 1),
            bg_weight <= total_weight,
            bg_sum <= total_sum <= 0xFF00_0000_0000_0000_0000,
            found == splits_upto(hist, level - 1),
            found ==> is_best_upto(hist, level - 1, best as int) && best_balance == balance(
                hist,
                best as int,
            ) && best_spread.value() * best_spread.value() == spread(hist, best as int) * spread(
                hist,
                best as int,
            ),
            !found ==> best == 0,
        decreases 256 - level,
    {
        let held: u128 = histogram[level] as u128;
        proof {
            lemma_weight_grows(hist, level as int, 255);
            assert(0 <= level * held <= 0xFF_0000_0000_0000_0000) by (nonlinear_arith)
                requires
                    0 <= level <= 255,
                    0 <= held <= 0x1_0000_0000_0000_0000,
            ;
        }
        bg_weight = bg_weight + held;
        bg_sum = bg_sum + level as u128 * held;
        let ghost t = level as int;
        let ghost was_found = found;
        let ghost was_best = best as int;
        if bg_weight > 0 && bg_weight < total_weight {
            let fg_weight: u128 = total_weight - bg_weight;
            assert(0 < bg_weight * fg_weight <= 0xFFFF_FFFF_FFFF_FFFF * 0xFFFF_FFFF_FFFF_FFFF)
                by (nonlinear_arith)
                requires
                    0 < bg_weight <= 0xFFFF_FFFF_FFFF_FFFF,
                    0 < fg_weight <= 0xFFFF_FFFF_FFFF_FFFF,
            ;
            let share: u128 = bg_weight * fg_weight;
            let apart = Wide::product(total_weight, bg_sum).distance(
                &Wide::product(bg_weight, total_sum),
            );
            proof {
                let n = total_weight as int;
                let s = total_sum as int;
                let w = bg_weight as int;
                let m = bg_sum as int;
                assert((n - w) * m - w * (s - m) == n * m - w * s) by (nonlinear_arith);
                let d = spread(hist, t);
                assert(apart.value() == d || apart.value() == -d);
                assert(apart.value() * apart.value() == d * d) by (nonlinear_arith)
                    requires
                        apart.value() == d || apart.value() == -d,
                ;
                assert(share == balance(hist, t));
            }
            let accept: bool = if found {
                best_spread.squared_times(share).at_most(&apart.squared_times(best_balance))
            } else {
                true
            };
            proof {
                assert(splits(hist, t));
                assert(splits_upto(hist, t));
                if was_found {
                    assert(accept == apart_at_most(hist, was_best, t));
                }
                if accept {
                    assert forall|u: int| 0 <= u <= t && splits(hist, u) implies
                        #[trigger] apart_at_most(hist, u, t) by {
                        if u < t {
                            assert(splits_upto(hist, t - 1));
                            assert(apart_at_most(hist, u, was_best));
                            lemma_apart_order(hist, u, was_best, t);
                        }
                    }
                } else {
                    assert forall|u: int| 0 <= u <= t && splits(hist, u) implies
                        #[trigger] apart_at_most(hist, u, was_best) by {
                        if u == t {
                            assert(!apart_at_most(hist, was_best, t));
                        }
                    }
                }
            }
            if accept {
                found = true;
                best = level as u8;
                best_spread = apart;
                best_balance = share;
            }
        } else {
            proof {
                assert(!splits(hist, t));
                if splits_upto(hist, t) {
                    let u = choose|u: int| 0 <= u <= t && splits(hist, u);
                    assert(u <= t - 1);
                    assert(splits_upto(hist, t - 1));
                }
                if splits_upto(hist, t - 1) {
                    let u = choose|u: int| 0 <= u <= t - 1 && splits(hist, u);
                    assert(0 <= u <= t && splits(hist, u));
                }
            }
        }
        level += 1;
    }
    proof {
        lemma_otsu_unique(hist, best as int, otsu_level(hist));
    }
    best
}

/// Where the variance at `low` is at most the variance at `mid`, and that at
/// most the variance at `high`, the variance at `low` is at most the variance
/// at `high`.
proof fn lemma_apart_order(hist: Seq<usize>, low: int, mid: int, high: int)
    requires
        splits(hist, low),
        splits(hist, mid),
        splits(hist, high),
        apart_at_most(hist, low, mid),
        apart_at_most(hist, mid, high),
    ensures
        apart_at_most(hist, low, high),
{
    let a = spread(hist, low) * spread(hist, low);
    let b = balance(hist, low);
    let c = spread(hist, mid) * spread(hist, mid);
    let d = balance(hist, mid);
    let e = spread(hist, high) * spread(hist, high);
    let f = balance(hist, high);
    lemma_balance_positive(hist, low);
    lemma_balance_positive(hist, mid);
    lemma_balance_positive(hist, high);
    assert(a * f <= e * b) by (nonlinear_arith)
        requires
            a * d <= c * b,
            c * f <= e * d,
            b > 0,
            d > 0,
            f > 0,
            c >= 0,
    ;
}

/// A level that parts the pixels into two classes has a positive balance.
proof fn lemma_balance_positive(hist: Seq<usize>, t: int)
    requires
        splits(hist, t),
    ensures
        balance(hist, t) > 0,
        spread(hist, t) * spread(hist, t) >= 0,
{
    let w = weight_upto(hist, t);
    let f = weight_upto(hist, 255) - w;
    assert(w * f > 0) by (nonlinear_arith)
        requires
            w > 0,
            f > 0,
    ;
    let d = spread(hist, t);
    assert(d * d >= 0) by (nonlinear_arith);
}

/// How many of the first `k` pixels have a level of at most `t`.
pub open spec fn counts_upto(data: Seq<u8>, k: int, t: int) -> int
    decreases t + 1,
{
    if t < 0 {
        0
    } else {
        counts_upto(data, k, t - 1) + count_upto(data, k, t)
    }
}

/// Pixel `k - 1` counts among the pixels with a level of at most `t` where
/// its level is at most `t`.
proof fn lemma_counts_step(data: Seq<u8>, k: int, t: int)
    requires
        0 < k <= data.len(),
        -1 <= t,
    ensures
        counts_upto(data, k, t) == counts_upto(data, k - 1, t) + if data[k - 1] <= t {
            1int
        } else {
            0int
        },
    decreases t + 1,
{
    if t >= 0 {
        lemma_counts_step(data, k, t - 1);
    }
}

/// Every one of the first `k` pixels has a level of at most 255, and no
/// level is counted more often than there are pixels.
proof fn lemma_counts_all(data: Seq<u8>, k: int)
    requires
        0 <= k <= data.len(),
    ensures
        counts_upto(data, k, 255) == k,
        forall|v: int| 0 <= #[trigger] count_upto(data, k, v) <= k,
    decreases k,
{
    if k > 0 {
        lemma_counts_all(data, k - 1);
        lemma_counts_step(data, k, 255);
        assert forall|v: int| 0 <= #[trigger] count_upto(data, k, v) <= k by {
            assert(0 <= count_upto(data, k - 1, v) <= k - 1);
        }
    } else {
        lemma_counts_none(data, 255);
    }
}

/// Of no pixels none has any level.
proof fn lemma_counts_none(data: Seq<u8>, t: int)
    requires
        -1 <= t,
    ensures
        counts_upto(data, 0, t) == 0,
    decreases t + 1,
{
    if t >= 0 {
        lemma_counts_none(data, t - 1);
    }
}

/// The histogram of an image counts each of its pixels once.
pub proof fn lemma_histogram_total(data: Seq<u8>)
    requires
        data.len() <= usize::MAX,
    ensures
        weight_upto(histogram_of(data), 255) == data.len(),
{
    lemma_counts_all(data, data.len() as int);
    lemma_histogram_weight(data, 255);
}

/// The histogram of an image counts up to a level the pixels that have a
/// level up to it.
proof fn lemma_histogram_weight(data: Seq<u8>, t: int)
    requires
        data.len() <= usize::MAX,
        -1 <= t <= 255,
    ensures
        weight_upto(histogram_of(data), t) == counts_upto(data, data.len() as int, t),
    decreases t + 1,
{
    if t >= 0 {
        lemma_histogram_weight(data, t - 1);
        lemma_counts_all(data, data.len() as int);
        assert(histogram_of(data)[t] == count(data, t));
    }
}

/// Otsu's method gives one threshold for a histogram, and no other.
pub proof fn lemma_otsu_unique(hist: Seq<usize>, t: int, u: int)
    requires
        is_otsu_threshold(hist, t),
        is_otsu_threshold(hist, u),
    ensures
        t == u,
{
    if splits_upto(hist, 255) {
        if t < u {
            assert(!apart_at_most(hist, t, u));
            assert(apart_at_most(hist, t, u));
        }
        if u < t {
            assert(!apart_at_most(hist, u, t));
            assert(apart_at_most(hist, u, t));
        }
    }
}

/// The number of pixels at or below a level does not fall as the level
/// rises.
pub proof fn lemma_weight_grows(hist: Seq<usize>, low: int, high: int)
    requires
        low <= high,
    ensures
        weight_upto(hist, low) <= weight_upto(hist, high),
        moment_upto(hist, low) <= moment_upto(hist, high) || low < -1,
    decreases high - low,
{
    if low < high {
        lemma_weight_grows(hist, low, high - 1);
        if high >= 0 {
            assert(high * hist[high] >= 0) by (nonlinear_arith)
                requires
                    high >= 0,
                    hist[high] >= 0,
            ;
        }
    }
}

/// Whether the pixels of a histogram have the two levels `low` and `high`
/// and no other.
pub open spec fn has_two_levels(hist: Seq<usize>, low: int, high: int) -> bool {
    &&& hist.len() == 256
    &&& 0 <= low < high <= 255
    &&& hist[low] > 0
    &&& hist[high] > 0
    &&& forall|v: int| 0 <= v < 256 && v != low && v != high ==> #[trigger] hist[v] == 0
}

/// For an image of two levels Otsu's method gives the level just below the
/// higher one: a threshold that parts the two, and that lies strictly between
/// them unless they are neighbours.
pub proof fn lemma_otsu_two_levels(hist: Seq<usize>, low: int, high: int)
    requires
        has_two_levels(hist, low, high),
    ensures
        otsu_level(hist) == high - 1,
        low <= otsu_level(hist) < high,
        low + 1 < high ==> low < otsu_level(hist) < high,
{
    let best = high - 1;
    assert forall|u: int| 0 <= u <= 255 implies (splits(hist, u) <==> low <= u < high) && (low <= u
        < high ==> spread(hist, u) == spread(hist, best) && balance(hist, u) == balance(
        hist,
        best,
    )) by {
        lemma_two_levels_sums(hist, low, high, u);
        lemma_two_levels_sums(hist, low, high, best);
        lemma_two_levels_sums(hist, low, high, 255);
    }
    assert(splits(hist, best));
    assert(splits_upto(hist, 255));
    assert(is_best_upto(hist, 255, best));
    assert(is_otsu_threshold(hist, best));
    lemma_otsu_unique(hist, best, otsu_level(hist));
}

/// The sums over a histogram of two levels.
proof fn lemma_two_levels_sums(hist: Seq<usize>, low: int, high: int, t: int)
    requires
        has_two_levels(hist, low, high),
        -1 <= t <= 255,
    ensures
        t < low ==> weight_upto(hist, t) == 0 && moment_upto(hist, t) == 0,
        low <= t < high ==> weight_upto(hist, t) == hist[low] && moment_upto(hist, t) == low
            * hist[low],
        high <= t ==> weight_upto(hist, t) == hist[low] + hist[high] && moment_upto(hist, t) == low
            * hist[low] + high * hist[high],
    decreases t + 1,
{
    if t >= 0 {
        lemma_two_levels_sums(hist, low, high, t - 1);
        if t != low && t != high {
            assert(hist[t] == 0);
            assert(t * hist[t] == 0);
        }
    }
}

} // verus!
