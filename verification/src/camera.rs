//! The controller-tracking pipeline: grayscale column profiles of a frame,
//! the background model captured during calibration, the distance metric
//! between a live profile and the background, and the locator that turns a
//! distance profile into a horizontal controller position.

use vstd::prelude::*;

verus! {

/// Fewest shades of grey two background-only captures are assumed to differ
/// by; the calibrated noise threshold never goes below it.
pub const MINIMUM_BACKGROUND_DISTANCE: u8 = 10;

/// How many column buckets a frame half is averaged into.
pub const CAMERA_COLUMNS: usize = 1280;

/// How many background-only frames calibration samples for the noise
/// threshold.
pub const FRAMES_TO_TAKE: usize = 3;

/// The absolute difference of two byte intensities.
pub open spec fn abs_diff(a: u8, b: u8) -> u8 {
    if a > b {
        (a - b) as u8
    } else {
        (b - a) as u8
    }
}

/// The column-wise distance of a live profile from a background profile.
pub open spec fn dist_seq(background: Seq<u8>, live: Seq<u8>) -> Seq<u8> {
    Seq::new(live.len(), |i: int| abs_diff(live[i], background[i]))
}

/// The sum of the bytes of a profile.
pub open spec fn sum_bytes(s: Seq<u8>) -> int
    decreases s.len(),
{
    if s.len() == 0 {
        0
    } else {
        sum_bytes(s.drop_last()) + s.last()
    }
}

/// The sum of a profile is at most 255 per column.
pub proof fn lemma_sum_bytes_bound(s: Seq<u8>)
    ensures
        0 <= sum_bytes(s) <= 255 * s.len(),
    decreases s.len(),
{
    if s.len() > 0 {
        lemma_sum_bytes_bound(s.drop_last());
    }
}

/// The distance metric is symmetric: measuring the live profile against the
/// background gives the same profile as measuring the background against the
/// live one, because each column holds an absolute difference.
pub proof fn lemma_distance_symmetric(a: Seq<u8>, b: Seq<u8>)
    requires
        a.len() == b.len(),
    ensures
        dist_seq(a, b) == dist_seq(b, a),
{
    assert(dist_seq(a, b) =~= dist_seq(b, a));
}

/// The grayscale intensity of one RGB pixel, as a weighted approximation of
/// luminance computed in byte arithmetic: each channel is divided by ten
/// first (truncating), then weighted three, six and one tenths.
pub open spec fn gray_of(r: u8, g: u8, b: u8) -> u8 {
    (r / 10 * 3 + g / 10 * 6 + b / 10) as u8
}

/// The grayscale intensity of the `j`-th pixel of a packed RGB byte sequence.
pub open spec fn pixel_gray(frame: Seq<u8>, j: int) -> u8 {
    gray_of(frame[3 * j], frame[3 * j + 1], frame[3 * j + 2])
}

/// A bucket average accumulates in fixed point with this scale: 32
/// fractional bits.
pub const AVG_SCALE: u64 = 0x1_0000_0000;

/// One pixel's contribution to its bucket's running average: the pixel's
/// gray value divided by the bucket's pixel count as the pixel is consumed,
/// in fixed point, rounded to the nearest unit.
pub open spec fn gray_share(g: u8, count: int) -> int {
    (g * (AVG_SCALE as int) + count / 2) / count
}

/// The running fixed-point average of column bucket `col` after the first
/// `n` pixels of `frame`: pixel `j` falls in bucket `j % ncols`, purely
/// positionally, and contributes its gray share.
pub open spec fn col_gray_sum(frame: Seq<u8>, n: int, col: int, ncols: int, count: int) -> int
    decreases n,
{
    if n <= 0 {
        0
    } else {
        col_gray_sum(frame, n - 1, col, ncols, count) + if (n - 1) % ncols == col {
            gray_share(pixel_gray(frame, n - 1), count)
        } else {
            0
        }
    }
}

/// How many of the first `n` pixels fall in column bucket `col`.
pub open spec fn col_pixel_count(n: int, col: int, ncols: int) -> int
    decreases n,
{
    if n <= 0 {
        0
    } else {
        col_pixel_count(n - 1, col, ncols) + if (n - 1) % ncols == col {
            1int
        } else {
            0int
        }
    }
}

/// The profile of column averages of one frame half: for each bucket, the
/// accumulated fixed-point average over its pixels, truncated to a byte at
/// the end.
pub open spec fn column_averages(half: Seq<u8>, ncols: int) -> Seq<u8> {
    let count = (half.len() as int / 3) / ncols;
    Seq::new(
        ncols as nat,
        |c: int|
            (col_gray_sum(half, half.len() as int / 3, c, ncols, count) / (AVG_SCALE as int))
                as u8,
    )
}

/// How incrementing `n` moves `n / k` and `n % k`.
proof fn lemma_div_mod_step(n: int, k: int)
    requires
        n >= 0,
        k > 0,
    ensures
        n % k == k - 1 ==> (n + 1) % k == 0 && (n + 1) / k == n / k + 1,
        n % k < k - 1 ==> (n + 1) % k == n % k + 1 && (n + 1) / k == n / k,
{
    vstd::arithmetic::div_mod::lemma_fundamental_div_mod(n, k);
    vstd::arithmetic::div_mod::lemma_mod_bound(n, k);
    if n % k == k - 1 {
        assert(n + 1 == k * (n / k + 1) + 0) by (nonlinear_arith)
            requires
                n == k * (n / k) + n % k,
                n % k == k - 1,
        ;
        vstd::arithmetic::div_mod::lemma_fundamental_div_mod_converse(n + 1, k, n / k + 1, 0);
    } else {
        assert(n + 1 == (n / k) * k + (n % k + 1)) by (nonlinear_arith)
            requires
                n == k * (n / k) + n % k,
        ;
        vstd::arithmetic::div_mod::lemma_fundamental_div_mod_converse(
            n + 1,
            k,
            n / k,
            n % k + 1,
        );
    }
}

/// Closed form for `col_pixel_count`: each full cycle of `ncols` pixels puts
/// exactly one pixel in each bucket.
proof fn lemma_col_pixel_count_closed(n: int, col: int, ncols: int)
    requires
        n >= 0,
        0 <= col < ncols,
    ensures
        col_pixel_count(n, col, ncols) == n / ncols + if col < n % ncols {
            1int
        } else {
            0int
        },
    decreases n,
{
    if n == 0 {
        vstd::arithmetic::div_mod::lemma_fundamental_div_mod_converse(0, ncols, 0, 0);
    } else {
        lemma_col_pixel_count_closed(n - 1, col, ncols);
        lemma_div_mod_step(n - 1, ncols);
        vstd::arithmetic::div_mod::lemma_mod_bound(n - 1, ncols);
    }
}

/// The largest share one pixel can contribute to a bucket's running
/// average.
pub open spec fn max_gray_share(count: int) -> int {
    (255 * (AVG_SCALE as int) + count / 2) / count
}

/// A pixel's share is between zero and the largest share.
proof fn lemma_gray_share_bounds(g: u8, count: int)
    requires
        count >= 1,
    ensures
        0 <= gray_share(g, count) <= max_gray_share(count),
{
    vstd::arithmetic::div_mod::lemma_fundamental_div_mod_converse(0, count, 0, 0);
    assert(g * (AVG_SCALE as int) <= 255 * (AVG_SCALE as int) && g * (AVG_SCALE as int) >= 0)
        by (nonlinear_arith)
        requires
            0 <= g <= 255,
    ;
    vstd::arithmetic::div_mod::lemma_div_is_ordered(
        0,
        g * (AVG_SCALE as int) + count / 2,
        count,
    );
    vstd::arithmetic::div_mod::lemma_div_is_ordered(
        g * (AVG_SCALE as int) + count / 2,
        255 * (AVG_SCALE as int) + count / 2,
        count,
    );
}

/// A bucket's running average is bounded by the largest share per pixel
/// that fell in the bucket.
proof fn lemma_col_gray_sum_bound(frame: Seq<u8>, n: int, col: int, ncols: int, count: int)
    requires
        ncols > 0,
        count >= 1,
    ensures
        0 <= col_gray_sum(frame, n, col, ncols, count) <= col_pixel_count(n, col, ncols)
            * max_gray_share(count),
        0 <= col_pixel_count(n, col, ncols),
    decreases n,
{
    if n > 0 {
        lemma_col_gray_sum_bound(frame, n - 1, col, ncols, count);
        if (n - 1) % ncols == col {
            lemma_gray_share_bounds(pixel_gray(frame, n - 1), count);
            let cpc = col_pixel_count(n - 1, col, ncols);
            assert((cpc + 1) * max_gray_share(count) == cpc * max_gray_share(count)
                + max_gray_share(count)) by (nonlinear_arith);
        }
    } else {
        assert(col_pixel_count(n, col, ncols) * max_gray_share(count) == 0) by (nonlinear_arith)
            requires
                col_pixel_count(n, col, ncols) == 0,
        ;
    }
}

/// No bucket collects more than `count` of the first `n` pixels while `n`
/// stays within `count` full cycles.
proof fn lemma_cpc_le_count(n: int, col: int, ncols: int, count: int)
    requires
        0 <= col < ncols,
        0 <= n <= count * ncols,
        count >= 0,
    ensures
        col_pixel_count(n, col, ncols) <= count,
{
    lemma_col_pixel_count_closed(n, col, ncols);
    vstd::arithmetic::div_mod::lemma_mod_bound(n, ncols);
    vstd::arithmetic::div_mod::lemma_fundamental_div_mod(n, ncols);
    if n / ncols >= count + 1 {
        assert(ncols * (n / ncols) >= ncols * (count + 1)) by (nonlinear_arith)
            requires
                n / ncols >= count + 1,
                ncols >= 1,
        ;
        assert(ncols * (count + 1) == count * ncols + ncols) by (nonlinear_arith);
        assert(false);
    }
    if n / ncols == count {
        assert(ncols * (n / ncols) == count * ncols) by (nonlinear_arith)
            requires
                n / ncols == count,
        ;
        assert(n % ncols == 0);
    }
}

/// Converts every RGB pixel of `frame` to grayscale and averages the gray
/// over each of the column buckets, pixel `j` falling in bucket `j % ncols`.
/// Overwrites `averages_store` with the bucket averages.
pub fn calculate_average_column_gray(frame: &[u8], averages_store: &mut Vec<u8>)
    requires
        frame@.len() > 0,
        frame@.len() % 3 == 0,
        frame@.len() < 0x1000_0000,
        old(averages_store)@.len() > 0,
        (frame@.len() as int / 3) % (old(averages_store)@.len() as int) == 0,
    ensures
        final(averages_store)@ == column_averages(frame@, old(averages_store)@.len() as int),
{
    let ghost ncols_g = averages_store@.len() as int;
    let n_pixels = frame.len() / 3;
    let ncols = averages_store.len();
    proof {
        vstd::arithmetic::div_mod::lemma_fundamental_div_mod(frame@.len() as int, 3);
        assert(n_pixels >= 1);
        vstd::arithmetic::div_mod::lemma_fundamental_div_mod(n_pixels as int, ncols as int);
        assert(n_pixels as int == ncols as int * (n_pixels as int / ncols as int));
        assert(n_pixels as int / ncols as int >= 1) by (nonlinear_arith)
            requires
                n_pixels as int == ncols as int * (n_pixels as int / ncols as int),
                n_pixels >= 1,
                ncols >= 1,
        ;
    }
    let pixels_per_col = n_pixels / ncols;
    proof {
        assert(ncols as int * (pixels_per_col as int) == pixels_per_col * (ncols as int))
            by (nonlinear_arith);
    }
    let count64 = pixels_per_col as u64;
    let half_count = count64 / 2;

    let mut sums: Vec<u64> = Vec::new();
    let mut c: usize = 0;
    while c < ncols
        invariant
            0 <= c <= ncols,
            sums@.len() == c,
            forall|k: int| 0 <= k < c ==> sums@[k] == 0,
        decreases ncols - c,
    {
        sums.push(0);
        c += 1;
    }

    let mut j: usize = 0;
    let mut col: usize = 0;
    while j < n_pixels
        invariant
            ncols == ncols_g,
            sums@.len() == ncols,
            0 < ncols,
            n_pixels == frame@.len() / 3,
            frame@.len() == 3 * n_pixels,
            frame@.len() < 0x1000_0000,
            0 <= j <= n_pixels,
            col == j as int % ncols as int,
            0 <= col < ncols,
            pixels_per_col == n_pixels as int / ncols as int,
            pixels_per_col >= 1,
            count64 == pixels_per_col,
            half_count == pixels_per_col as int / 2,
            n_pixels as int == ncols as int * (pixels_per_col as int),
            n_pixels as int == pixels_per_col * (ncols as int),
            forall|k: int|
                0 <= k < ncols ==> sums@[k] == col_gray_sum(
                    frame@,
                    j as int,
                    k,
                    ncols as int,
                    pixels_per_col as int,
                ),
        decreases n_pixels - j,
    {
        let r = frame[3 * j];
        let g = frame[3 * j + 1];
        let b = frame[3 * j + 2];
        let grayscale = r / 10 * 3 + g / 10 * 6 + b / 10;
        assert(grayscale == pixel_gray(frame@, j as int));
        proof {
            lemma_col_gray_sum_bound(
                frame@,
                j as int,
                col as int,
                ncols as int,
                pixels_per_col as int,
            );
            lemma_cpc_le_count(j as int, col as int, ncols as int, pixels_per_col as int);
            lemma_gray_share_bounds(grayscale, pixels_per_col as int);
            vstd::arithmetic::mul::lemma_mul_inequality(
                col_pixel_count(j as int, col as int, ncols as int),
                pixels_per_col as int,
                max_gray_share(pixels_per_col as int),
            );
            vstd::arithmetic::div_mod::lemma_fundamental_div_mod(
                255 * (AVG_SCALE as int) + pixels_per_col as int / 2,
                pixels_per_col as int,
            );
            vstd::arithmetic::div_mod::lemma_mod_bound(
                255 * (AVG_SCALE as int) + pixels_per_col as int / 2,
                pixels_per_col as int,
            );
        }
        let share = (grayscale as u64) * AVG_SCALE + half_count;
        let share = share / count64;
        sums[col] = sums[col] + share;
        proof {
            lemma_div_mod_step(j as int, ncols as int);
        }
        col = if col == ncols - 1 {
            0
        } else {
            col + 1
        };
        j += 1;
    }

    let mut c: usize = 0;
    while c < ncols
        invariant
            ncols == ncols_g,
            averages_store@.len() == ncols,
            sums@.len() == ncols,
            0 < ncols,
            0 <= c <= ncols,
            n_pixels == frame@.len() / 3,
            pixels_per_col == n_pixels as int / ncols as int,
            1 <= pixels_per_col <= n_pixels < 0x1000_0000,
            n_pixels as int % ncols as int == 0,
            forall|k: int|
                0 <= k < ncols ==> sums@[k] == col_gray_sum(
                    frame@,
                    n_pixels as int,
                    k,
                    ncols as int,
                    pixels_per_col as int,
                ),
            forall|k: int| 0 <= k < c ==> averages_store@[k] == column_averages(frame@, ncols as int)[k],
        decreases ncols - c,
    {
        proof {
            lemma_col_gray_sum_bound(
                frame@,
                n_pixels as int,
                c as int,
                ncols as int,
                pixels_per_col as int,
            );
            lemma_col_pixel_count_closed(n_pixels as int, c as int, ncols as int);
            assert(col_pixel_count(n_pixels as int, c as int, ncols as int) == pixels_per_col);
            vstd::arithmetic::div_mod::lemma_fundamental_div_mod(
                255 * (AVG_SCALE as int) + pixels_per_col as int / 2,
                pixels_per_col as int,
            );
            vstd::arithmetic::div_mod::lemma_mod_bound(
                255 * (AVG_SCALE as int) + pixels_per_col as int / 2,
                pixels_per_col as int,
            );
            vstd::arithmetic::div_mod::lemma_div_is_ordered(
                col_gray_sum(frame@, n_pixels as int, c as int, ncols as int, pixels_per_col as int),
                255 * (AVG_SCALE as int) + pixels_per_col as int / 2,
                AVG_SCALE as int,
            );
            vstd::arithmetic::div_mod::lemma_fundamental_div_mod_converse(
                255 * (AVG_SCALE as int) + pixels_per_col as int / 2,
                AVG_SCALE as int,
                255,
                pixels_per_col as int / 2,
            );
            vstd::arithmetic::div_mod::lemma_fundamental_div_mod_converse(0, AVG_SCALE as int, 0, 0);
            vstd::arithmetic::div_mod::lemma_div_is_ordered(
                0,
                col_gray_sum(frame@, n_pixels as int, c as int, ncols as int, pixels_per_col as int),
                AVG_SCALE as int,
            );
        }
        averages_store[c] = (sums[c] / AVG_SCALE) as u8;
        c += 1;
    }
    assert(averages_store@ =~= column_averages(frame@, ncols_g));
}

/// Converts the frame to grayscale, splits it horizontally into a top and a
/// bottom half, and stores each half's column-average profile.
pub fn average_gray_for_frame_halves(
    frame: &[u8],
    top_half_cols_averages: &mut Vec<u8>,
    bottom_half_cols_averages: &mut Vec<u8>,
)
    requires
        frame@.len() > 0,
        frame@.len() % 2 == 0,
        frame@.len() < 0x2000_0000,
        (frame@.len() as int / 2) % 3 == 0,
        old(top_half_cols_averages)@.len() > 0,
        old(top_half_cols_averages)@.len() == old(bottom_half_cols_averages)@.len(),
        (frame@.len() as int / 2 / 3) % (old(top_half_cols_averages)@.len() as int) == 0,
    ensures
        final(top_half_cols_averages)@ == column_averages(
            frame@.subrange(0, frame@.len() as int / 2),
            old(top_half_cols_averages)@.len() as int,
        ),
        final(bottom_half_cols_averages)@ == column_averages(
            frame@.subrange(frame@.len() as int / 2, frame@.len() as int),
            old(top_half_cols_averages)@.len() as int,
        ),
{
    let half = frame.len() / 2;
    proof {
        vstd::arithmetic::div_mod::lemma_fundamental_div_mod(frame@.len() as int, 2);
    }
    let top_half = &frame[0..half];
    calculate_average_column_gray(top_half, top_half_cols_averages);

    let bottom_half = &frame[half..frame.len()];
    calculate_average_column_gray(bottom_half, bottom_half_cols_averages);
}

/// Replaces each column of `frame` by its distance to the same column of the
/// background, that is by the absolute difference of the two intensities.
pub fn distance_from_background(background: &[u8], frame: &mut Vec<u8>)
    requires
        background@.len() == old(frame)@.len(),
    ensures
        final(frame)@ == dist_seq(background@, old(frame)@),
{
    let n = frame.len();
    let mut i: usize = 0;
    while i < n
        invariant
            n == frame@.len() == background@.len(),
            0 <= i <= n,
            forall|j: int| 0 <= j < i ==> frame@[j] == abs_diff(old(frame)@[j], background@[j]),
            forall|j: int| i <= j < n ==> frame@[j] == old(frame)@[j],
        decreases n - i,
    {
        let c = frame[i];
        let bg = background[i];
        frame[i] = if c > bg {
            c - bg
        } else {
            bg - c
        };
        i += 1;
    }
    assert(frame@ =~= dist_seq(background@, old(frame)@));
}

/// The average distance of a profile: the sum of its columns divided by the
/// number of columns, truncated. It fits in a byte because every column does.
pub fn average_distance(frame: &[u8]) -> (r: u8)
    requires
        frame@.len() >= 1,
        frame@.len() < 0x1_0000_0000,
    ensures
        r == sum_bytes(frame@) / frame@.len() as int,
{
    let n = frame.len();
    let mut total: u64 = 0;
    let mut i: usize = 0;
    while i < n
        invariant
            n == frame@.len() < 0x1_0000_0000,
            0 <= i <= n,
            total == sum_bytes(frame@.take(i as int)),
            total <= 255 * i,
        decreases n - i,
    {
        proof {
            assert(frame@.take(i + 1).drop_last() =~= frame@.take(i as int));
            assert(frame@.take(i + 1).last() == frame@[i as int]);
        }
        total = total + frame[i] as u64;
        i += 1;
    }
    proof {
        assert(frame@.take(n as int) =~= frame@);
        lemma_sum_bytes_bound(frame@);
        vstd::arithmetic::div_mod::lemma_div_is_ordered(
            sum_bytes(frame@),
            255 * n as int,
            n as int,
        );
        vstd::arithmetic::div_mod::lemma_div_multiples_vanish(255, n as int);
    }
    (total / n as u64) as u8
}

/// The average of a profile's columns, truncated.
pub open spec fn avg_of(s: Seq<u8>) -> int
    recommends
        s.len() > 0,
{
    sum_bytes(s) / s.len() as int
}

/// The sum of the squares of the `n` columns of `d` starting at `from`.
pub open spec fn sq_sum(d: Seq<u8>, from: int, n: int) -> int
    decreases n,
{
    if n <= 0 {
        0
    } else {
        sq_sum(d, from, n - 1) + d[from + n - 1] * d[from + n - 1]
    }
}

/// The rating of a run of columns: the sum of its squared distances. Squaring
/// favours strong, sustained changes over weak, sporadic noise.
pub open spec fn streak_rating(d: Seq<u8>, from: int, to: int) -> int {
    sq_sum(d, from, to - from + 1)
}

/// A streak: a maximal contiguous run of columns of the distance profile `d`
/// whose distance exceeds the average distance `avg`.
pub open spec fn is_streak(d: Seq<u8>, avg: int, from: int, to: int) -> bool {
    &&& 0 <= from <= to < d.len()
    &&& forall|i: int| from <= i <= to ==> #[trigger] d[i] > avg
    &&& (from == 0 || d[from - 1] <= avg)
    &&& (to == d.len() - 1 || d[to + 1] <= avg)
}

/// The best streak: no streak rates higher, and of the streaks that rate
/// equally high it is the earliest.
pub open spec fn is_best_streak(d: Seq<u8>, avg: int, from: int, to: int) -> bool {
    &&& is_streak(d, avg, from, to)
    &&& forall|f2: int, t2: int|
        #[trigger] is_streak(d, avg, f2, t2) ==> streak_rating(d, f2, t2) < streak_rating(
            d,
            from,
            to,
        ) || (streak_rating(d, f2, t2) == streak_rating(d, from, to) && from <= f2)
}

/// The midpoint of a streak, rescaled from camera-column space to
/// window-pixel space.
pub open spec fn streak_position(from: int, to: int, n: int) -> int {
    ((to - from) / 2 + from) * crate::WINDOW_WIDTH as int / n
}

/// A rating is nonnegative and at most the square of the largest intensity
/// per column.
proof fn lemma_sq_sum_bound(d: Seq<u8>, from: int, n: int)
    ensures
        0 <= sq_sum(d, from, n),
        n >= 0 ==> sq_sum(d, from, n) <= 65025 * n,
    decreases n,
{
    if n > 0 {
        lemma_sq_sum_bound(d, from, n - 1);
        let c = d[from + n - 1];
        assert(c * c <= 65025) by (nonlinear_arith)
            requires
                0 <= c <= 255,
        ;
    }
}

/// A run whose columns all exceed a nonnegative average rates above zero.
proof fn lemma_sq_sum_pos(d: Seq<u8>, from: int, n: int)
    requires
        n >= 1,
        d[from + n - 1] >= 1,
    ensures
        sq_sum(d, from, n) >= 1,
{
    lemma_sq_sum_bound(d, from, n - 1);
    let c = d[from + n - 1];
    assert(c * c >= 1) by (nonlinear_arith)
        requires
            c >= 1,
    ;
}

/// Two streaks never overlap: the one that starts first ends before the
/// other starts.
proof fn lemma_streaks_disjoint(d: Seq<u8>, avg: int, f1: int, t1: int, f2: int, t2: int)
    requires
        is_streak(d, avg, f1, t1),
        is_streak(d, avg, f2, t2),
        f1 < f2,
    ensures
        t1 < f2,
{
    if f2 <= t1 {
        assert(d[f2 - 1] > avg);
        assert(d[f2 - 1] <= avg);
    }
}

/// A streak is determined by its last column.
proof fn lemma_streak_same_to(d: Seq<u8>, avg: int, f1: int, t1: int, f2: int, t2: int)
    requires
        is_streak(d, avg, f1, t1),
        is_streak(d, avg, f2, t2),
        t1 == t2,
    ensures
        f1 == f2,
{
    if f1 < f2 {
        lemma_streaks_disjoint(d, avg, f1, t1, f2, t2);
    }
    if f2 < f1 {
        lemma_streaks_disjoint(d, avg, f2, t2, f1, t1);
    }
}

/// A streak is determined by its first column.
proof fn lemma_streak_same_from(d: Seq<u8>, avg: int, f1: int, t1: int, f2: int, t2: int)
    requires
        is_streak(d, avg, f1, t1),
        is_streak(d, avg, f2, t2),
        f1 == f2,
    ensures
        t1 == t2,
{
    if t1 < t2 {
        assert(d[t1 + 1] > avg);
        assert(d[t1 + 1] <= avg);
    }
    if t2 < t1 {
        assert(d[t2 + 1] > avg);
        assert(d[t2 + 1] <= avg);
    }
}

/// The streaks whose rating a left-to-right scan has weighed once it stands
/// at column `x`: those whose breaking column lies before `x`, and the streak
/// that runs to the final column once the scan is done.
spec fn rated_by(d: Seq<u8>, avg: int, x: int, f: int, t: int) -> bool {
    &&& is_streak(d, avg, f, t)
    &&& (t + 2 <= x || (t == d.len() - 1 && x == d.len()))
}

/// A raw frame that the pipeline can digest: packed RGB bytes, splittable
/// into two halves of whole pixels, with whole bucket cycles per half.
pub open spec fn frame_ok(f: Seq<u8>) -> bool {
    &&& f.len() > 0
    &&& f.len() % 2 == 0
    &&& f.len() < 0x2000_0000
    &&& (f.len() as int / 2) % 3 == 0
    &&& (f.len() as int / 2 / 3) % (CAMERA_COLUMNS as int) == 0
}

/// The column-average profile of the top half of a raw frame.
pub open spec fn half_profile_top(f: Seq<u8>) -> Seq<u8> {
    column_averages(f.subrange(0, f.len() as int / 2), CAMERA_COLUMNS as int)
}

/// The column-average profile of the bottom half of a raw frame.
pub open spec fn half_profile_bottom(f: Seq<u8>) -> Seq<u8> {
    column_averages(f.subrange(f.len() as int / 2, f.len() as int), CAMERA_COLUMNS as int)
}

/// The scalar background distance of one sample frame: the average column
/// distance of each half from that half's background, averaged over the two
/// halves.
pub open spec fn frame_bg_distance(bg_top: Seq<u8>, bg_bottom: Seq<u8>, f: Seq<u8>) -> int {
    (avg_of(dist_seq(bg_top, half_profile_top(f))) + avg_of(
        dist_seq(bg_bottom, half_profile_bottom(f)),
    )) / 2
}

/// The summed scalar background distances of the first `n` sample frames.
pub open spec fn total_bg_distance(
    bg_top: Seq<u8>,
    bg_bottom: Seq<u8>,
    frames: Seq<Vec<u8>>,
    n: int,
) -> int
    decreases n,
{
    if n <= 0 {
        0
    } else {
        total_bg_distance(bg_top, bg_bottom, frames, n - 1) + frame_bg_distance(
            bg_top,
            bg_bottom,
            frames[n - 1]@,
        )
    }
}

/// The noise threshold that calibration derives from the sample frames: the
/// average scalar distance, floored at the minimum constant.
pub open spec fn calibrated_range(bg_top: Seq<u8>, bg_bottom: Seq<u8>, frames: Seq<Vec<u8>>) -> u8 {
    let t = total_bg_distance(bg_top, bg_bottom, frames, frames.len() as int) / frames.len() as int;
    if t > MINIMUM_BACKGROUND_DISTANCE {
        t as u8
    } else {
        MINIMUM_BACKGROUND_DISTANCE
    }
}

/// Each sample frame's scalar distance fits in a byte, so the total is
/// bounded by 255 per frame.
proof fn lemma_total_bg_distance_bound(
    bg_top: Seq<u8>,
    bg_bottom: Seq<u8>,
    frames: Seq<Vec<u8>>,
    n: int,
)
    ensures
        n >= 0 ==> 0 <= total_bg_distance(bg_top, bg_bottom, frames, n) <= 255 * n,
    decreases n,
{
    if n > 0 {
        lemma_total_bg_distance_bound(bg_top, bg_bottom, frames, n - 1);
        let f = frames[n - 1]@;
        lemma_sum_bytes_bound(dist_seq(bg_top, half_profile_top(f)));
        lemma_sum_bytes_bound(dist_seq(bg_bottom, half_profile_bottom(f)));
        let dt = dist_seq(bg_top, half_profile_top(f));
        let db = dist_seq(bg_bottom, half_profile_bottom(f));
        if dt.len() > 0 {
            vstd::arithmetic::div_mod::lemma_div_is_ordered(
                sum_bytes(dt),
                255 * dt.len() as int,
                dt.len() as int,
            );
            vstd::arithmetic::div_mod::lemma_div_multiples_vanish(255, dt.len() as int);
            vstd::arithmetic::div_mod::lemma_div_is_ordered(0, sum_bytes(dt), dt.len() as int);
        }
        if db.len() > 0 {
            vstd::arithmetic::div_mod::lemma_div_is_ordered(
                sum_bytes(db),
                255 * db.len() as int,
                db.len() as int,
            );
            vstd::arithmetic::div_mod::lemma_div_multiples_vanish(255, db.len() as int);
            vstd::arithmetic::div_mod::lemma_div_is_ordered(0, sum_bytes(db), db.len() as int);
        }
    }
}

/// A profile buffer of one zero entry per column bucket.
fn zeroed_profile() -> (v: Vec<u8>)
    ensures
        v@ =~= Seq::new(CAMERA_COLUMNS as nat, |i: int| 0u8),
{
    let mut v: Vec<u8> = Vec::new();
    let mut i: usize = 0;
    while i < CAMERA_COLUMNS
        invariant
            0 <= i <= CAMERA_COLUMNS,
            v@.len() == i,
            forall|j: int| 0 <= j < i ==> v@[j] == 0u8,
        decreases CAMERA_COLUMNS - i,
    {
        v.push(0);
        i += 1;
    }
    v
}

/// Scans the camera input. It updates the controller positions.
pub struct Camera {
    /// The average gray of each column of the top half when the playfield was
    /// empty. We refer to this initial state as background.
    pub top_half_bg: Vec<u8>,
    /// The average gray of each column of the bottom half when the playfield
    /// was empty.
    pub bottom_half_bg: Vec<u8>,
    /// On average, if we capture only the background, consequential frames
    /// differ at most by this amount per column.
    pub background_distance_range: u8,
}

impl Camera {
    /// Both background profiles hold one entry per column bucket and the
    /// noise threshold never sits below its minimum.
    pub open spec fn wf(&self) -> bool {
        &&& self.top_half_bg@.len() == CAMERA_COLUMNS
        &&& self.bottom_half_bg@.len() == CAMERA_COLUMNS
        &&& self.background_distance_range >= MINIMUM_BACKGROUND_DISTANCE
    }

    /// Builds a new empty camera model that has to be calibrated.
    pub fn new() -> (c: Camera)
        ensures
            c.wf(),
            c.top_half_bg@ =~= Seq::new(CAMERA_COLUMNS as nat, |i: int| 0u8),
            c.bottom_half_bg@ =~= Seq::new(CAMERA_COLUMNS as nat, |i: int| 0u8),
            c.background_distance_range == MINIMUM_BACKGROUND_DISTANCE,
    {
        Camera {
            top_half_bg: zeroed_profile(),
            bottom_half_bg: zeroed_profile(),
            background_distance_range: MINIMUM_BACKGROUND_DISTANCE,
        }
    }

    /// Learns the empty playfield: records each half's column profile of the
    /// background frame as that half's background, then measures over the
    /// sample frames how far background-only captures stray from it, and
    /// floors that noise threshold at the minimum constant. The camera
    /// afterwards calculates controller positions against this default.
    pub fn map_playfield(&mut self, background_frame: &Vec<u8>, sample_frames: &Vec<Vec<u8>>)
        requires
            frame_ok(background_frame@),
            sample_frames@.len() >= 1,
            sample_frames@.len() < 0x1000_0000,
            forall|k: int|
                0 <= k < sample_frames@.len() ==> frame_ok(#[trigger] sample_frames@[k]@),
            old(self).top_half_bg@.len() == CAMERA_COLUMNS,
            old(self).bottom_half_bg@.len() == CAMERA_COLUMNS,
        ensures
            final(self).top_half_bg@ == half_profile_top(background_frame@),
            final(self).bottom_half_bg@ == half_profile_bottom(background_frame@),
            final(self).background_distance_range == calibrated_range(
                half_profile_top(background_frame@),
                half_profile_bottom(background_frame@),
                sample_frames@,
            ),
            final(self).wf(),
    {
        average_gray_for_frame_halves(
            background_frame.as_slice(),
            &mut self.top_half_bg,
            &mut self.bottom_half_bg,
        );
        let ghost bg_top = self.top_half_bg@;
        let ghost bg_bottom = self.bottom_half_bg@;

        let mut top_half = zeroed_profile();
        let mut bottom_half = zeroed_profile();
        let n_frames = sample_frames.len();
        let mut total_distance_over_n_frames: u64 = 0;
        let mut k: usize = 0;
        while k < n_frames
            invariant
                n_frames == sample_frames@.len(),
                1 <= n_frames < 0x1000_0000,
                forall|i: int|
                    0 <= i < sample_frames@.len() ==> frame_ok(#[trigger] sample_frames@[i]@),
                self.top_half_bg@ == bg_top,
                self.bottom_half_bg@ == bg_bottom,
                bg_top.len() == CAMERA_COLUMNS,
                bg_bottom.len() == CAMERA_COLUMNS,
                top_half@.len() == CAMERA_COLUMNS,
                bottom_half@.len() == CAMERA_COLUMNS,
                0 <= k <= n_frames,
                total_distance_over_n_frames == total_bg_distance(
                    bg_top,
                    bg_bottom,
                    sample_frames@,
                    k as int,
                ),
                total_distance_over_n_frames <= 255 * k,
            decreases n_frames - k,
        {
            let frame = &sample_frames[k];
            average_gray_for_frame_halves(frame.as_slice(), &mut top_half, &mut bottom_half);
            // Calculates the distance of this sample from the background.
            distance_from_background(self.top_half_bg.as_slice(), &mut top_half);
            distance_from_background(self.bottom_half_bg.as_slice(), &mut bottom_half);

            // The average distance of this frame from the background, over
            // both halves.
            let avg_top = average_distance(top_half.as_slice()) as u64;
            let avg_bottom = average_distance(bottom_half.as_slice()) as u64;
            total_distance_over_n_frames = total_distance_over_n_frames + (avg_top + avg_bottom)
                / 2;
            k += 1;
        }

        proof {
            lemma_total_bg_distance_bound(bg_top, bg_bottom, sample_frames@, n_frames as int);
            vstd::arithmetic::div_mod::lemma_div_is_ordered(
                total_distance_over_n_frames as int,
                255 * n_frames as int,
                n_frames as int,
            );
            vstd::arithmetic::div_mod::lemma_div_multiples_vanish(255, n_frames as int);
            vstd::arithmetic::div_mod::lemma_div_is_ordered(
                0,
                total_distance_over_n_frames as int,
                n_frames as int,
            );
        }
        let average_distance_over_n_frames = (total_distance_over_n_frames / n_frames as u64)
            as u8;
        self.background_distance_range = if average_distance_over_n_frames
            > MINIMUM_BACKGROUND_DISTANCE {
            average_distance_over_n_frames
        } else {
            MINIMUM_BACKGROUND_DISTANCE
        };
    }

    /// Calculates a diff between the background of one half and the current
    /// frame's column profile of that half, in place. If the frame has
    /// changed enough from the background, looks for the contiguous run of
    /// columns with the largest rating: a candidate for the controller. The
    /// returned position is relative to the window, not to the profile
    /// width; absence means the controller was not distinguishable from the
    /// background in this frame.
    pub fn find_controller(&self, background: &[u8], frame: &mut Vec<u8>) -> (r: Option<u32>)
        requires
            background@.len() == old(frame)@.len(),
            old(frame)@.len() >= 1,
            old(frame)@.len() < 0x1000_0000,
        ensures
            final(frame)@ == dist_seq(background@, old(frame)@),
            ({
                let d = dist_seq(background@, old(frame)@);
                let avg = avg_of(d);
                match r {
                    Option::None => avg < self.background_distance_range || (forall|f: int, t: int|
                        !is_streak(d, avg, f, t)),
                    Option::Some(pos) => {
                        &&& avg >= self.background_distance_range
                        &&& pos < crate::WINDOW_WIDTH
                        &&& exists|f: int, t: int|
                            #[trigger] is_best_streak(d, avg, f, t) && pos == streak_position(
                                f,
                                t,
                                d.len() as int,
                            )
                    },
                }
            }),
    {
        distance_from_background(background, frame);
        let ghost d = frame@;
        let average_dist = average_distance(frame.as_slice());

        if average_dist < self.background_distance_range {
            return Option::None;
        }
        let ghost avg = average_dist as int;

        let n = frame.len();
        let mut best_streak: Option<(usize, usize)> = Option::None;
        let mut best_rating: u64 = 0;
        let mut candidate_streak: Option<usize> = Option::None;
        let mut cur_rating: u64 = 0;
        let mut x: usize = 0;
        while x < n
            invariant
                frame@ == d,
                n == d.len(),
                1 <= n < 0x1000_0000,
                0 <= x <= n,
                0 <= avg <= 255,
                avg == avg_of(d),
                avg == average_dist as int,
                candidate_streak matches Option::Some(s) ==> {
                    &&& 0 <= s < x
                    &&& (forall|i: int| s <= i < x ==> #[trigger] d[i] > avg)
                    &&& (s == 0 || d[s - 1] <= avg)
                    &&& cur_rating == sq_sum(d, s as int, x - s)
                    &&& x < n
                },
                candidate_streak is None ==> (x == 0 || x == n || d[x - 1] <= avg),
                cur_rating <= 65025 * x,
                best_streak is None ==> best_rating == 0 && (forall|f: int, t: int| !rated_by(
                    d,
                    avg,
                    x as int,
                    f,
                    t,
                )),
                best_streak matches Option::Some(b) ==> {
                    &&& rated_by(d, avg, x as int, b.0 as int, b.1 as int)
                    &&& best_rating == streak_rating(d, b.0 as int, b.1 as int)
                    &&& forall|f2: int, t2: int|
                        #[trigger] rated_by(d, avg, x as int, f2, t2) ==> streak_rating(d, f2, t2)
                            < best_rating || (streak_rating(d, f2, t2) == best_rating
                            && b.0 <= f2)
                },
            decreases n - x,
        {
            let col = frame[x];
            if col > average_dist {
                if candidate_streak.is_none() {
                    candidate_streak = Option::Some(x);
                    cur_rating = 0;
                }
                let s = candidate_streak.unwrap();
                proof {
                    lemma_sq_sum_bound(d, s as int, x - s);
                    assert(col * col <= 65025) by (nonlinear_arith)
                        requires
                            0 <= col <= 255,
                    ;
                }
                cur_rating = cur_rating + (col as u64) * (col as u64);
                assert(cur_rating == sq_sum(d, s as int, x + 1 - s));
                if x == n - 1 {
                    // The scan is at the final column while still on a
                    // streak: the streak completes at the final index.
                    assert(is_streak(d, avg, s as int, x as int));
                    proof {
                        lemma_sq_sum_pos(d, s as int, x + 1 - s);
                    }
                    if cur_rating > best_rating {
                        proof {
                            if best_streak is Some {
                                let b = best_streak->Some_0;
                                lemma_rated_carries(d, avg, x as int, b.0 as int, b.1 as int);
                            }
                        }
                        best_streak = Option::Some((s, x));
                        best_rating = cur_rating;
                    } else {
                        proof {
                            let b = best_streak->Some_0;
                            lemma_rated_carries(d, avg, x as int, b.0 as int, b.1 as int);
                            lemma_best_keeps_earlier(d, avg, x as int, b.0 as int, b.1 as int, s as int, x as int);
                        }
                    }
                    proof {
                        lemma_rated_extends_final(d, avg, s as int, x as int);
                    }
                    candidate_streak = Option::None;
                    cur_rating = 0;
                } else {
                    proof {
                        lemma_rated_stays_open(d, avg, x as int);
                        if best_streak is Some {
                            let b = best_streak->Some_0;
                            lemma_rated_carries(d, avg, x as int, b.0 as int, b.1 as int);
                        }
                    }
                }
            } else {
                if candidate_streak.is_some() {
                    let s = candidate_streak.unwrap();
                    // The streak broke at column `x`, so it ran up to the
                    // previous column.
                    assert(is_streak(d, avg, s as int, x - 1));
                    proof {
                        lemma_sq_sum_pos(d, s as int, x - s);
                    }
                    if cur_rating > best_rating {
                        proof {
                            if best_streak is Some {
                                let b = best_streak->Some_0;
                                lemma_rated_carries(d, avg, x as int, b.0 as int, b.1 as int);
                            }
                        }
                        best_streak = Option::Some((s, x - 1));
                        best_rating = cur_rating;
                    } else {
                        proof {
                            let b = best_streak->Some_0;
                            lemma_rated_carries(d, avg, x as int, b.0 as int, b.1 as int);
                            lemma_best_keeps_earlier(d, avg, x as int, b.0 as int, b.1 as int, s as int, x - 1);
                        }
                    }
                    proof {
                        lemma_rated_extends_broken(d, avg, x as int, s as int);
                    }
                } else {
                    proof {
                        lemma_rated_stays(d, avg, x as int);
                        if best_streak is Some {
                            let b = best_streak->Some_0;
                            lemma_rated_carries(d, avg, x as int, b.0 as int, b.1 as int);
                        }
                    }
                }
                candidate_streak = Option::None;
                cur_rating = 0;
            }
            x += 1;
        }

        match best_streak {
            Option::None => {
                assert(forall|f: int, t: int| is_streak(d, avg, f, t) ==> rated_by(
                    d,
                    avg,
                    n as int,
                    f,
                    t,
                ));
                Option::None
            },
            Option::Some((from, to)) => {
                assert(is_best_streak(d, avg, from as int, to as int)) by {
                    assert(forall|f2: int, t2: int| is_streak(d, avg, f2, t2) ==> rated_by(
                        d,
                        avg,
                        n as int,
                        f2,
                        t2,
                    ));
                };
                let mid = (to - from) / 2 + from;
                let pos_wide = (mid as u64) * (crate::WINDOW_WIDTH as u64) / (n as u64);
                proof {
                    assert((mid as int) * (crate::WINDOW_WIDTH as int) < (n as int) * (
                    crate::WINDOW_WIDTH as int)) by (nonlinear_arith)
                        requires
                            0 <= mid < n,
                    ;
                    vstd::arithmetic::div_mod::lemma_multiply_divide_lt(
                        (mid as int) * (crate::WINDOW_WIDTH as int),
                        n as int,
                        crate::WINDOW_WIDTH as int,
                    );
                }
                Option::Some(pos_wide as u32)
            },
        }
    }
}

/// Streaks that a scan standing at `x` has weighed are still weighed one
/// column later.
proof fn lemma_rated_carries(d: Seq<u8>, avg: int, x: int, f: int, t: int)
    requires
        0 <= x < d.len(),
        rated_by(d, avg, x, f, t),
    ensures
        rated_by(d, avg, x + 1, f, t),
{
}

/// When a streak breaks at column `x`, the streaks weighed by `x + 1` are
/// those weighed by `x` plus the streak that ran up to `x - 1`.
proof fn lemma_rated_extends_broken(d: Seq<u8>, avg: int, x: int, s: int)
    requires
        0 <= x < d.len(),
        d[x] <= avg,
        is_streak(d, avg, s, x - 1),
    ensures
        forall|f2: int, t2: int|
            #[trigger] rated_by(d, avg, x + 1, f2, t2) ==> rated_by(d, avg, x, f2, t2) || (f2 == s
                && t2 == x - 1),
{
    assert forall|f2: int, t2: int| #[trigger] rated_by(d, avg, x + 1, f2, t2) implies rated_by(
        d,
        avg,
        x,
        f2,
        t2,
    ) || (f2 == s && t2 == x - 1) by {
        if !rated_by(d, avg, x, f2, t2) {
            if t2 == x {
                assert(d[t2] > avg);
            }
            assert(t2 == x - 1);
            lemma_streak_same_to(d, avg, f2, t2, s, x - 1);
        }
    }
}

/// When the scan closes a streak at the final column, the streaks weighed at
/// the end are those weighed before plus that final streak.
proof fn lemma_rated_extends_final(d: Seq<u8>, avg: int, s: int, x: int)
    requires
        x == d.len() - 1,
        is_streak(d, avg, s, x),
    ensures
        forall|f2: int, t2: int|
            #[trigger] rated_by(d, avg, x + 1, f2, t2) ==> rated_by(d, avg, x, f2, t2) || (f2 == s
                && t2 == x),
{
    assert forall|f2: int, t2: int| #[trigger] rated_by(d, avg, x + 1, f2, t2) implies rated_by(
        d,
        avg,
        x,
        f2,
        t2,
    ) || (f2 == s && t2 == x) by {
        if !rated_by(d, avg, x, f2, t2) {
            if t2 == x - 1 {
                assert(d[t2 + 1] <= avg);
                assert(d[x as int] > avg);
            }
            assert(t2 == x);
            lemma_streak_same_to(d, avg, f2, t2, s, x);
        }
    }
}

/// When column `x` does not extend any streak and none was open, no new
/// streak gets weighed at `x + 1`.
proof fn lemma_rated_stays(d: Seq<u8>, avg: int, x: int)
    requires
        0 <= x < d.len(),
        d[x] <= avg,
        x == 0 || d[x - 1] <= avg,
    ensures
        forall|f2: int, t2: int|
            #[trigger] rated_by(d, avg, x + 1, f2, t2) ==> rated_by(d, avg, x, f2, t2),
{
    assert forall|f2: int, t2: int| #[trigger] rated_by(d, avg, x + 1, f2, t2) implies rated_by(
        d,
        avg,
        x,
        f2,
        t2,
    ) by {
        if !rated_by(d, avg, x, f2, t2) {
            assert(t2 == x - 1 || t2 == x);
            assert(d[t2] > avg);
        }
    }
}

/// While a streak is still open short of the final column, no streak gets
/// newly weighed.
proof fn lemma_rated_stays_open(d: Seq<u8>, avg: int, x: int)
    requires
        0 <= x < d.len() - 1,
        d[x] > avg,
    ensures
        forall|f2: int, t2: int|
            #[trigger] rated_by(d, avg, x + 1, f2, t2) ==> rated_by(d, avg, x, f2, t2),
{
    assert forall|f2: int, t2: int| #[trigger] rated_by(d, avg, x + 1, f2, t2) implies rated_by(
        d,
        avg,
        x,
        f2,
        t2,
    ) by {
        if !rated_by(d, avg, x, f2, t2) {
            assert(t2 == x - 1);
            assert(d[t2 + 1] <= avg);
        }
    }
}

/// A newly closed streak starts after the best streak found so far, so on an
/// equal rating the earlier streak stays the best.
proof fn lemma_best_keeps_earlier(
    d: Seq<u8>,
    avg: int,
    x: int,
    bf: int,
    bt: int,
    s: int,
    t: int,
)
    requires
        rated_by(d, avg, x, bf, bt),
        is_streak(d, avg, s, t),
        t == x - 1 || t == x,
        0 <= x < d.len(),
    ensures
        bf < s,
{
    if bf == s {
        lemma_streak_same_from(d, avg, bf, bt, s, t);
        assert(false);
    }
    if s < bf {
        lemma_streaks_disjoint(d, avg, s, t, bf, bt);
        assert(false);
    }
}

} // verus!
