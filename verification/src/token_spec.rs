//! Image token accounting for DeepSeek V4.1.
//!
//! Sizes are computed with exact integer arithmetic: a scale factor
//! `sqrt(p / q)` applied to a length `x` is the largest `k` with
//! `k * k * q <= x * x * p`, and a real bound `k <= y` on a root of a
//! quadratic is the largest `k` with `a * k * k + b * k <= c`.

use vstd::prelude::*;

verus! {

/// Pixels of one patch side.
pub const PATCH_SIZE: usize = 14;
/// Spatial downsampling between the patch grid and the model token grid.
pub const DOWNSAMPLE_RATIO: usize = 3;
/// Maximum number of model tokens of one image.
pub const MAX_N_TOKEN: usize = 1024;
/// Images with a positive area below this many pixels are upscaled.
pub const MIN_PIXELS: usize = 295936;
/// Number of fitting rounds before a resize is reported as not converging.
pub const MAX_ITER: usize = 10;

/// Result of fitting one image into the token budget.
#[derive(Debug, Clone, Copy, PartialEq, Eq, Structural)]
pub struct ResizeResult {
    /// Number of token rows in the model token grid.
    pub n_llm_h: usize,
    /// Number of token columns in the model token grid.
    pub n_llm_w: usize,
    /// Resized image height in pixels.
    pub best_height: usize,
    /// Resized image width in pixels.
    pub best_width: usize,
    /// Total number of model tokens for the image.
    pub num_tokens: usize,
}

/// Failure to fit an image into the token budget.
#[derive(Debug, Clone, Copy, PartialEq, Eq, Structural)]
pub enum CalcResizeError {
    /// Fitting the image did not reach a fixed point within the iteration limit.
    NotConverged { max_iter: usize, last_result: ResizeResult },
}

/// DeepSeek V4.1 image token specification.
///
/// Images are divided into 14-pixel patches, downsampled by 3 in each
/// dimension, and limited to 1024 model tokens. Images with a positive area
/// below 544 * 544 pixels are upscaled before patch alignment and token-budget
/// fitting.
#[derive(Debug, Clone, Copy, PartialEq, Eq)]
pub struct ImageTokenSpec {
    patch_size: usize,
    downsample_ratio: usize,
    max_n_token: usize,
    min_pixels: usize,
}

// ---------------------------------------------------------------------------
// Specification

/// `ceil(a / b)` for `b > 0`.
pub open spec fn ceil_div(a: int, b: int) -> int {
    (a + b - 1) / b
}

/// `a * k * k + b * k <= c`.
pub open spec fn fits(a: int, b: int, c: int, k: int) -> bool {
    a * k * k + b * k <= c
}

/// `k` is the largest natural number with `a * k * k + b * k <= c`.
pub open spec fn is_largest(a: int, b: int, c: int, k: int) -> bool {
    k >= 0 && fits(a, b, c, k) && !fits(a, b, c, k + 1)
}

/// The largest natural number `k` with `a * k * k + b * k <= c`.
pub open spec fn largest(a: int, b: int, c: int) -> int {
    choose|k: int| is_largest(a, b, c, k)
}

/// The token grid and token count of a `best_height`×`best_width` patch grid.
pub open spec fn grid(best_height: int, best_width: int) -> (int, int, int, int, int) {
    let n_h = ceil_div(best_height / 14, 3);
    let n_w = ceil_div(best_width / 14, 3);
    (n_h, n_w, best_height, best_width, n_h * (n_w + 1) + 2)
}

/// `floor(x * sqrt(MIN_PIXELS / pixels))`.
pub open spec fn upscaled(x: int, pixels: int) -> int {
    largest(pixels, 0, x * x * 295936)
}

/// The largest aspect-preserving patch grid of a `height`×`width` image within
/// 1024 tokens.
///
/// With `r = height / width` and `x = sqrt(1022 / r + 1/4) - 1/2`, the grid has
/// at most `floor(x)` token columns and `floor(x * r)` token rows; the image is
/// scaled by the smaller of the two factors that reach these bounds.
pub open spec fn solved(height: int, width: int) -> (int, int, int, int, int) {
    if 2 * height > 1022 * width {
        grid(511int * 42, 42)
    } else if width + height > 1022 * height {
        grid(42, 1021int * 42)
    } else {
        let mw = largest(height, height, 1022 * width);
        let mh = largest(width, height, 1022 * height);
        if mw * height <= mh * width {
            grid((3 * mw * height / width) * 14, 42 * mw)
        } else {
            grid(42 * mh, (3 * mh * width / height) * 14)
        }
    }
}

/// One fitting round for a `width`×`height` image: upscale to the minimum
/// area, align to patches, and fit the token budget.
pub open spec fn fit_once(width: int, height: int) -> (int, int, int, int, int) {
    let pixels = width * height;
    let w = if 0 < pixels < 295936 { upscaled(width, pixels) } else { width };
    let h = if 0 < pixels < 295936 { upscaled(height, pixels) } else { height };
    let aligned = grid(ceil_div(h, 14) * 14, ceil_div(w, 14) * 14);
    if aligned.4 > 1024 {
        solved(h, w)
    } else {
        aligned
    }
}

/// A grid tuple as a [`ResizeResult`].
pub open spec fn as_result(t: (int, int, int, int, int)) -> ResizeResult {
    ResizeResult {
        n_llm_h: t.0 as usize,
        n_llm_w: t.1 as usize,
        best_height: t.2 as usize,
        best_width: t.3 as usize,
        num_tokens: t.4 as usize,
    }
}

/// One fitting round as a [`ResizeResult`].
pub open spec fn resize_once(width: int, height: int) -> ResizeResult {
    as_result(fit_once(width, height))
}

/// Repeats fitting from `r` for up to `rounds` more rounds until a round
/// leaves the result unchanged; `Err` carries the last result when it does not.
pub open spec fn iterate_resize(r: ResizeResult, rounds: nat) -> Result<ResizeResult, ResizeResult>
    decreases rounds,
{
    if rounds == 0 {
        Err(r)
    } else {
        let next = resize_once(r.best_width as int, r.best_height as int);
        if next == r {
            Ok(r)
        } else {
            iterate_resize(next, (rounds - 1) as nat)
        }
    }
}

/// The result of [`ImageTokenSpec::calc_resize`] on a `width`×`height` image.
pub open spec fn calc_resize_spec(width: int, height: int) -> Result<ResizeResult, CalcResizeError> {
    match iterate_resize(resize_once(width, height), 9) {
        Ok(r) => Ok(r),
        Err(r) => Err(CalcResizeError::NotConverged { max_iter: 10, last_result: r }),
    }
}

/// The sizes [`ImageTokenSpec::calc_resize`] accepts without overflow: the
/// area and the patch-aligned sides fit in `usize`.
pub open spec fn size_in_range(width: int, height: int) -> bool {
    &&& 0 <= width
    &&& 0 <= height
    &&& width * height <= usize::MAX
    &&& ceil_div(width, 14) * 14 <= usize::MAX
    &&& ceil_div(height, 14) * 14 <= usize::MAX
}

// ---------------------------------------------------------------------------
// Lemmas

proof fn lemma_fits_monotone(a: int, b: int, c: int, k1: int, k2: int)
    requires
        a >= 0,
        b >= 0,
        0 <= k1 <= k2,
        fits(a, b, c, k2),
    ensures
        fits(a, b, c, k1),
{
    assert(a * k1 * k1 <= a * k2 * k2) by (nonlinear_arith)
        requires
            a >= 0,
            0 <= k1 <= k2,
    ;
    assert(b * k1 <= b * k2) by (nonlinear_arith)
        requires
            b >= 0,
            0 <= k1 <= k2,
    ;
}

proof fn lemma_largest_unique(a: int, b: int, c: int, k: int)
    requires
        a >= 0,
        b >= 0,
        is_largest(a, b, c, k),
    ensures
        largest(a, b, c) == k,
{
    let j = largest(a, b, c);
    assert(is_largest(a, b, c, j));
    if j < k {
        lemma_fits_monotone(a, b, c, j + 1, k);
    } else if j > k {
        lemma_fits_monotone(a, b, c, k + 1, j);
    }
}

// ---------------------------------------------------------------------------
// Exact integer helpers

/// Returns whether `a * k * k + b * k <= c`.
fn fits_exec(a: u128, b: u128, c: u128, k: u128) -> (r: bool)
    requires
        a >= 1,
    ensures
        r == fits(a as int, b as int, c as int, k as int),
{
    let kk = match k.checked_mul(k) {
        Some(v) => v,
        None => {
            assert(a * k * k + b * k > c) by (nonlinear_arith)
                requires
                    k * k > u128::MAX,
                    a >= 1,
                    b >= 0,
                    k >= 0,
                    c <= u128::MAX,
            {
                assert(a * (k * k) >= k * k);
                assert(b * k >= 0);
            }
            return false;
        },
    };
    let akk = match a.checked_mul(kk) {
        Some(v) => v,
        None => {
            assert(a * k * k == a * kk) by (nonlinear_arith)
                requires
                    kk == k * k,
            ;
            assert(b * k >= 0) by (nonlinear_arith)
                requires
                    b >= 0,
                    k >= 0,
            ;
            return false;
        },
    };
    assert(a * k * k == akk) by (nonlinear_arith)
        requires
            kk == k * k,
            akk == a * kk,
    ;
    let bk = match b.checked_mul(k) {
        Some(v) => v,
        None => {
            return false;
        },
    };
    match akk.checked_add(bk) {
        Some(s) => s <= c,
        None => false,
    }
}

/// Returns the largest `k` with `a * k * k + b * k <= c`.
fn largest_exec(a: u128, b: u128, c: u128) -> (k: u128)
    requires
        a >= 1,
        c < u128::MAX,
    ensures
        is_largest(a as int, b as int, c as int, k as int),
        k as int == largest(a as int, b as int, c as int),
{
    let mut lo: u128 = 0;
    let mut hi: u128 = c + 1;
    assert(fits(a as int, b as int, c as int, 0));
    assert(!fits(a as int, b as int, c as int, hi as int)) by {
        assert(a * hi * hi + b * hi > c) by (nonlinear_arith)
            requires
                a >= 1,
                b >= 0,
                hi == c + 1,
                c >= 0,
        {
            assert(hi * hi >= hi) by (nonlinear_arith)
                requires
                    hi >= 1,
            ;
            assert(a * hi * hi >= hi * hi) by (nonlinear_arith)
                requires
                    a >= 1,
                    hi >= 0,
            ;
            assert(b * hi >= 0) by (nonlinear_arith)
                requires
                    b >= 0,
                    hi >= 0,
            ;
        }
    }
    while hi - lo > 1
        invariant
            lo < hi,
            a >= 1,
            fits(a as int, b as int, c as int, lo as int),
            !fits(a as int, b as int, c as int, hi as int),
        decreases hi - lo,
    {
        let mid = lo + (hi - lo) / 2;
        if fits_exec(a, b, c, mid) {
            lo = mid;
        } else {
            hi = mid;
        }
    }
    proof {
        lemma_largest_unique(a as int, b as int, c as int, lo as int);
    }
    lo
}

proof fn lemma_ceil_div_bounds(a: int, b: int)
    requires
        a >= 0,
        b > 0,
    ensures
        ceil_div(a, b) * b >= a,
        ceil_div(a, b) * b <= a + b - 1,
        ceil_div(a, b) >= 0,
{
    let q = ceil_div(a, b);
    assert((a + b - 1) == q * b + (a + b - 1) % b) by (nonlinear_arith)
        requires
            b > 0,
            q == (a + b - 1) / b,
    ;
    assert(0 <= (a + b - 1) % b < b) by (nonlinear_arith)
        requires
            b > 0,
    ;
    assert(q >= 0) by (nonlinear_arith)
        requires
            b > 0,
            a >= 0,
            q == (a + b - 1) / b,
    ;
}

proof fn lemma_ceil_div3_le(y: int)
    requires
        y >= 0,
    ensures
        0 <= ceil_div(y, 3) <= y / 3 + 1,
        ceil_div(y, 3) <= y,
        y <= 3 * ceil_div(y, 3),
{
}

proof fn lemma_grid_range(bh: int, bw: int)
    requires
        0 <= bh < 0x1_0000_0000_0000_0000,
        0 <= bw < 0x1_0000_0000_0000_0000,
    ensures
        0 <= grid(bh, bw).0 < 0x1000_0000_0000_0000,
        0 <= grid(bh, bw).1 < 0x1000_0000_0000_0000,
        0 <= grid(bh, bw).4 < 0x1_0000_0000_0000_0000_0000_0000_0000_0000,
{
    lemma_ceil_div3_le(bh / 14);
    lemma_ceil_div3_le(bw / 14);
    let g = grid(bh, bw);
    assert(g.0 * (g.1 + 1) <= 0x1000_0000_0000_0000 * 0x1000_0000_0000_0000) by (nonlinear_arith)
        requires
            0 <= g.0 < 0x1000_0000_0000_0000,
            0 <= g.1 < 0x1000_0000_0000_0000,
    ;
}

/// Returns the token grid of a `bh`×`bw` patch grid, `grid(bh, bw)`.
fn resize_result(bh: u128, bw: u128) -> (r: (u128, u128, u128, u128, u128))
    requires
        bh < 0x1_0000_0000_0000_0000,
        bw < 0x1_0000_0000_0000_0000,
    ensures
        r.0 as int == grid(bh as int, bw as int).0,
        r.1 as int == grid(bh as int, bw as int).1,
        r.2 as int == grid(bh as int, bw as int).2,
        r.3 as int == grid(bh as int, bw as int).3,
        r.4 as int == grid(bh as int, bw as int).4,
{
    proof {
        lemma_grid_range(bh as int, bw as int);
    }
    let n_h = (bh / 14 + 2) / 3;
    let n_w = (bw / 14 + 2) / 3;
    (n_h, n_w, bh, bw, n_h * (n_w + 1) + 2)
}

/// In the general case of [`solved`] the token grid stays within the budget.
proof fn lemma_rows_times_columns(h: int, w: int, mw: int, mh: int)
    requires
        h >= 1,
        w >= 1,
        mw >= 0,
        mh >= 0,
        h * mw * mw + h * mw <= 1022 * w,
        w * mh * mh + h * mh <= 1022 * h,
    ensures
        mh * (mw + 1) <= 1022,
{
    if mw * h <= mh * w {
        assert(mh * (mw + 1) * h <= mh * (mh * w + h)) by (nonlinear_arith)
            requires
                mw * h <= mh * w,
                mh >= 0,
                h >= 1,
        ;
        assert(mh * (mh * w + h) == w * mh * mh + h * mh) by (nonlinear_arith);
        assert(mh * (mw + 1) <= 1022) by (nonlinear_arith)
            requires
                mh * (mw + 1) * h <= 1022 * h,
                h >= 1,
        ;
    } else {
        assert(mh * w * (mw + 1) <= mw * h * (mw + 1)) by (nonlinear_arith)
            requires
                mw * h > mh * w,
                mw >= 0,
        ;
        assert(mw * h * (mw + 1) == h * mw * mw + h * mw) by (nonlinear_arith);
        assert(mh * (mw + 1) <= 1022) by (nonlinear_arith)
            requires
                mh * w * (mw + 1) <= 1022 * w,
                w >= 1,
        ;
    }
}

/// The properties of a fitted size that the next fitting round relies on.
pub open spec fn fitted(t: (int, int, int, int, int)) -> bool {
    &&& 0 <= t.0 <= usize::MAX
    &&& 0 <= t.1 <= usize::MAX
    &&& 0 <= t.2 <= usize::MAX
    &&& 0 <= t.3 <= usize::MAX
    &&& 2 <= t.4 <= 1024
    &&& size_in_range(t.3, t.2)
    &&& t.2 % 14 == 0
    &&& t.3 % 14 == 0
}

proof fn lemma_aligned_fitted(bh: int, bw: int)
    requires
        0 <= bh <= usize::MAX,
        0 <= bw <= usize::MAX,
        bh % 14 == 0,
        bw % 14 == 0,
        grid(bh, bw).4 <= 1024,
    ensures
        fitted(grid(bh, bw)),
{
    let g = grid(bh, bw);
    lemma_ceil_div3_le(bh / 14);
    lemma_ceil_div3_le(bw / 14);
    assert(g.0 >= 0 && g.1 >= 0);
    assert(g.0 * (g.1 + 1) <= 1022);
    assert(g.0 * (g.1 + 1) >= 0) by (nonlinear_arith)
        requires
            g.0 >= 0,
            g.1 >= 0,
    ;
    assert(ceil_div(bh, 14) * 14 == bh);
    assert(ceil_div(bw, 14) * 14 == bw);
    if g.0 == 0 {
        assert(bh == 0);
        assert(bw * bh == 0) by (nonlinear_arith)
            requires
                bh == 0,
        ;
    } else if g.1 == 0 {
        assert(bw == 0);
        assert(bw * bh == 0) by (nonlinear_arith)
            requires
                bw == 0,
        ;
    } else {
        assert(g.1 <= 1021) by (nonlinear_arith)
            requires
                g.0 * (g.1 + 1) <= 1022,
                g.0 >= 1,
        ;
        assert(g.0 <= 511) by (nonlinear_arith)
            requires
                g.0 * (g.1 + 1) <= 1022,
                g.1 >= 1,
        ;
        assert(bh <= 42 * 511 + 13);
        assert(bw <= 42 * 1021 + 13);
        assert(bw * bh <= 921170125) by (nonlinear_arith)
            requires
                0 <= bh <= 21475,
                0 <= bw <= 42895,
        ;
    }
}

proof fn lemma_small_grid_fitted(bh: int, bw: int)
    requires
        0 <= bh <= 43000,
        0 <= bw <= 43000,
        bh % 14 == 0,
        bw % 14 == 0,
        grid(bh, bw).4 <= 1024,
    ensures
        fitted(grid(bh, bw)),
{
    lemma_aligned_fitted(bh, bw);
}

/// The column and row bounds of the general case of [`solved`].
proof fn lemma_solved_parts(h: int, w: int)
    requires
        h >= 1,
        2 * h <= 1022 * w,
        w + h <= 1022 * h,
    ensures
        is_largest(h, h, 1022 * w, largest(h, h, 1022 * w)),
        is_largest(w, h, 1022 * h, largest(w, h, 1022 * h)),
        0 <= largest(h, h, 1022 * w) <= 1022,
        0 <= largest(w, h, 1022 * h) <= 1022,
        largest(w, h, 1022 * h) * (largest(h, h, 1022 * w) + 1) <= 1022,
{
    let mw = largest(h, h, 1022 * w);
    let mh = largest(w, h, 1022 * h);
    assert(w >= 1);
    assert(exists|k: int| #[trigger] is_largest(h, h, 1022 * w, k)) by {
        lemma_largest_exists(h, h, 1022 * w);
    }
    assert(exists|k: int| #[trigger] is_largest(w, h, 1022 * h, k)) by {
        lemma_largest_exists(w, h, 1022 * h);
    }
    assert(is_largest(h, h, 1022 * w, mw));
    assert(is_largest(w, h, 1022 * h, mh));
    lemma_rows_times_columns(h, w, mw, mh);
    assert(mw <= 1022 && mh <= 1022) by (nonlinear_arith)
        requires
            mh * (mw + 1) <= 1022,
            h * mw * mw + h * mw <= 1022 * w,
            w + h <= 1022 * h,
            mw >= 0,
            mh >= 0,
            h >= 1,
            w >= 1,
    {
        assert(h * mw * (mw + 1) <= 1022 * 1021 * h) by (nonlinear_arith)
            requires
                h * mw * mw + h * mw <= 1022 * w,
                w <= 1021 * h,
        ;
        assert(mw * (mw + 1) <= 1022 * 1021) by (nonlinear_arith)
            requires
                h * mw * (mw + 1) <= 1022 * 1021 * h,
                h >= 1,
        ;
        if mw > 1022 {
            assert(mw * (mw + 1) > 1022 * 1021) by (nonlinear_arith)
                requires
                    mw > 1022,
            ;
        }
        if mh > 1022 {
            assert(mh * (mw + 1) > 1022) by (nonlinear_arith)
                requires
                    mh > 1022,
                    mw >= 0,
            ;
        }
    }
}

proof fn lemma_solved_fitted(h: int, w: int)
    requires
        h >= 1,
        w >= 0,
    ensures
        fitted(solved(h, w)),
{
    if 2 * h > 1022 * w {
        assert((511int * 42) / 14 == 1533);
        assert(ceil_div(1533, 3) == 511);
        assert(ceil_div(42int / 14, 3) == 1);
        lemma_small_grid_fitted(511int * 42, 42);
    } else if w + h > 1022 * h {
        assert((1021int * 42) / 14 == 3063);
        assert(ceil_div(3063, 3) == 1021);
        assert(ceil_div(42int / 14, 3) == 1);
        lemma_small_grid_fitted(42, 1021int * 42);
    } else {
        let mw = largest(h, h, 1022 * w);
        let mh = largest(w, h, 1022 * h);
        lemma_solved_parts(h, w);
        if mw * h <= mh * w {
            let y = 3 * mw * h / w;
            assert(y <= 3 * mh) by (nonlinear_arith)
                requires
                    y == 3 * mw * h / w,
                    mw * h <= mh * w,
                    w >= 1,
                    mw >= 0,
                    h >= 0,
            {
                assert(3 * mw * h <= 3 * mh * w);
                assert((3 * mw * h) / w <= (3 * mh * w) / w);
                assert((3 * mh * w) / w == 3 * mh);
            }
            assert(y >= 0) by (nonlinear_arith)
                requires
                    y == 3 * mw * h / w,
                    w >= 1,
                    mw >= 0,
                    h >= 0,
            ;
            let g = solved(h, w);
            assert((y * 14) / 14 == y);
            assert((42 * mw) / 14 == 3 * mw);
            assert(ceil_div(3 * mw, 3) == mw);
            lemma_ceil_div3_le(y);
            assert(g.0 <= mh);
            assert(g.1 == mw);
            assert(g.0 * (mw + 1) <= mh * (mw + 1)) by (nonlinear_arith)
                requires
                    g.0 <= mh,
                    mw >= 0,
                    g.0 >= 0,
            ;
            lemma_small_grid_fitted(y * 14, 42 * mw);
        } else {
            let y = 3 * mh * w / h;
            assert(y <= 3 * mw) by (nonlinear_arith)
                requires
                    y == 3 * mh * w / h,
                    mh * w < mw * h,
                    h >= 1,
                    mh >= 0,
                    w >= 0,
            {
                assert(3 * mh * w <= 3 * mw * h);
                assert((3 * mh * w) / h <= (3 * mw * h) / h);
                assert((3 * mw * h) / h == 3 * mw);
            }
            assert(y >= 0) by (nonlinear_arith)
                requires
                    y == 3 * mh * w / h,
                    h >= 1,
                    mh >= 0,
                    w >= 0,
            ;
            let g = solved(h, w);
            assert((y * 14) / 14 == y);
            assert((42 * mh) / 14 == 3 * mh);
            assert(ceil_div(3 * mh, 3) == mh);
            lemma_ceil_div3_le(y);
            assert(g.1 <= mw);
            assert(g.0 == mh);
            assert(mh * (g.1 + 1) <= mh * (mw + 1)) by (nonlinear_arith)
                requires
                    g.1 <= mw,
                    mh >= 0,
            ;
            lemma_small_grid_fitted(42 * mh, y * 14);
        }
    }
}

proof fn lemma_largest_exists(a: int, b: int, c: int)
    requires
        a >= 1,
        b >= 0,
        c >= 0,
    ensures
        exists|k: int| #[trigger] is_largest(a, b, c, k),
    decreases c,
{
    // The fitting values from 0 up to c + 1 cross c once.
    let ghost mut k: int = 0;
    assert(fits(a, b, c, 0));
    assert(!fits(a, b, c, c + 1)) by {
        assert(a * (c + 1) * (c + 1) + b * (c + 1) > c) by (nonlinear_arith)
            requires
                a >= 1,
                b >= 0,
                c >= 0,
        {
            assert((c + 1) * (c + 1) >= c + 1) by (nonlinear_arith)
                requires
                    c >= 0,
            ;
            assert(a * (c + 1) * (c + 1) >= (c + 1) * (c + 1)) by (nonlinear_arith)
                requires
                    a >= 1,
                    c >= 0,
            ;
            assert(b * (c + 1) >= 0) by (nonlinear_arith)
                requires
                    b >= 0,
                    c >= 0,
            ;
        }
    }
    lemma_crossing(a, b, c, 0, c + 1);
}

proof fn lemma_crossing(a: int, b: int, c: int, lo: int, hi: int)
    requires
        0 <= lo < hi,
        fits(a, b, c, lo),
        !fits(a, b, c, hi),
    ensures
        exists|k: int| #[trigger] is_largest(a, b, c, k),
    decreases hi - lo,
{
    if hi == lo + 1 {
        assert(is_largest(a, b, c, lo));
    } else {
        let mid = lo + (hi - lo) / 2;
        if fits(a, b, c, mid) {
            lemma_crossing(a, b, c, mid, hi);
        } else {
            lemma_crossing(a, b, c, lo, mid);
        }
    }
}


/// An upscaled side stays within 544 times the original side.
proof fn lemma_upscaled_bound(x: int, pixels: int)
    requires
        0 <= x,
        1 <= pixels,
    ensures
        is_largest(pixels, 0, x * x * 295936, upscaled(x, pixels)),
        0 <= upscaled(x, pixels) <= 544 * x,
{
    assert(x * x * 295936 >= 0) by (nonlinear_arith)
        requires
            x >= 0,
    ;
    lemma_largest_exists(pixels, 0, x * x * 295936);
    let k = upscaled(x, pixels);
    assert(is_largest(pixels, 0, x * x * 295936, k));
    assert(k <= 544 * x) by (nonlinear_arith)
        requires
            pixels * k * k <= x * x * 295936,
            pixels >= 1,
            k >= 0,
            x >= 0,
    {
        assert(k * k <= pixels * k * k);
        if k > 544 * x {
            assert(k * k > (544 * x) * (544 * x));
        }
    }
}

/// Every fitting round of a size in range yields a fitted size.
proof fn lemma_fit_once_fitted(width: int, height: int)
    requires
        size_in_range(width, height),
    ensures
        fitted(fit_once(width, height)),
{
    let pixels = width * height;
    let up = 0 < pixels < 295936;
    let w = if up { upscaled(width, pixels) } else { width };
    let h = if up { upscaled(height, pixels) } else { height };
    if up {
        lemma_upscaled_bound(width, pixels);
        lemma_upscaled_bound(height, pixels);
        assert(width <= pixels && height <= pixels) by (nonlinear_arith)
            requires
                pixels == width * height,
                pixels >= 1,
                width >= 0,
                height >= 0,
        ;
        lemma_ceil_div_bounds(w, 14);
        lemma_ceil_div_bounds(h, 14);
    } else {
        lemma_ceil_div_bounds(width, 14);
        lemma_ceil_div_bounds(height, 14);
    }
    let bh = ceil_div(h, 14) * 14;
    let bw = ceil_div(w, 14) * 14;
    assert(0 <= bh <= usize::MAX);
    assert(0 <= bw <= usize::MAX);
    if grid(bh, bw).4 > 1024 {
        if h == 0 {
            assert(bh == 0);
            assert(grid(bh, bw).0 == 0);
            assert(grid(bh, bw).0 * (grid(bh, bw).1 + 1) == 0) by (nonlinear_arith)
                requires
                    grid(bh, bw).0 == 0,
            ;
        }
        lemma_solved_fitted(h, w);
    } else {
        lemma_aligned_fitted(bh, bw);
    }
}

/// The properties that every fitted [`ResizeResult`] has.
pub open spec fn result_fitted(r: ResizeResult) -> bool {
    &&& 2 <= r.num_tokens <= 1024
    &&& r.best_width % 14 == 0
    &&& r.best_height % 14 == 0
    &&& size_in_range(r.best_width as int, r.best_height as int)
}

proof fn lemma_resize_once_fitted(width: int, height: int)
    requires
        size_in_range(width, height),
    ensures
        result_fitted(resize_once(width, height)),
        resize_once(width, height).n_llm_h == fit_once(width, height).0,
        resize_once(width, height).n_llm_w == fit_once(width, height).1,
        resize_once(width, height).best_height == fit_once(width, height).2,
        resize_once(width, height).best_width == fit_once(width, height).3,
        resize_once(width, height).num_tokens == fit_once(width, height).4,
{
    lemma_fit_once_fitted(width, height);
}

/// Repeated fitting from a fitted result ends in a fitted result, and a result
/// that it accepts is one that a further round leaves unchanged.
proof fn lemma_iterate_resize(r: ResizeResult, rounds: nat)
    requires
        result_fitted(r),
    ensures
        match iterate_resize(r, rounds) {
            Ok(v) => result_fitted(v) && resize_once(v.best_width as int, v.best_height as int) == v,
            Err(v) => result_fitted(v),
        },
    decreases rounds,
{
    if rounds > 0 {
        lemma_resize_once_fitted(r.best_width as int, r.best_height as int);
        let next = resize_once(r.best_width as int, r.best_height as int);
        if next != r {
            lemma_iterate_resize(next, (rounds - 1) as nat);
        }
    }
}

/// A fitted image fits the token budget, is aligned to whole patches, and is
/// left unchanged when it is fitted again.
pub proof fn lemma_calc_resize_fits_budget(width: int, height: int)
    requires
        size_in_range(width, height),
    ensures
        calc_resize_spec(width, height) matches Ok(r) ==> {
            &&& 2 <= r.num_tokens <= 1024
            &&& r.best_width % 14 == 0
            &&& r.best_height % 14 == 0
            &&& calc_resize_spec(r.best_width as int, r.best_height as int) == Ok::<ResizeResult, CalcResizeError>(r)
        },
{
    lemma_resize_once_fitted(width, height);
    lemma_iterate_resize(resize_once(width, height), 9);
    if let Ok(r) = calc_resize_spec(width, height) {
        assert(iterate_resize(resize_once(width, height), 9) == Ok::<ResizeResult, ResizeResult>(r));
        let first = resize_once(r.best_width as int, r.best_height as int);
        assert(first == r);
        assert(iterate_resize(r, 9) == Ok::<ResizeResult, ResizeResult>(r));
    }
}

/// `3 * a * b / d <= 3 * c` when `a * b <= c * d`.
proof fn lemma_div_le(a: int, b: int, c: int, d: int)
    requires
        a >= 0,
        b >= 0,
        d >= 1,
        a * b <= c * d,
    ensures
        0 <= 3 * a * b / d <= 3 * c,
{
    assert(0 <= 3 * a * b / d <= 3 * c) by (nonlinear_arith)
        requires
            a >= 0,
            b >= 0,
            d >= 1,
            a * b <= c * d,
    {
        assert(3 * a * b <= 3 * c * d);
        assert((3 * a * b) / d <= (3 * c * d) / d);
        assert((3 * c * d) / d == 3 * c);
    }
}

/// Solves for the largest aspect-preserving size within the token budget,
/// `solved(h, w)`.
fn solve_resize_ratio(h: u128, w: u128) -> (r: (u128, u128, u128, u128, u128))
    requires
        1 <= h < 0x1_0000_0000_0000_0000,
        w < 0x1_0000_0000_0000_0000,
    ensures
        r.0 as int == solved(h as int, w as int).0,
        r.1 as int == solved(h as int, w as int).1,
        r.2 as int == solved(h as int, w as int).2,
        r.3 as int == solved(h as int, w as int).3,
        r.4 as int == solved(h as int, w as int).4,
{
    if 2 * h > 1022 * w {
        resize_result(511 * 42, 42)
    } else if w + h > 1022 * h {
        resize_result(42, 1021 * 42)
    } else {
        proof {
            lemma_solved_parts(h as int, w as int);
        }
        let mw = largest_exec(h, h, 1022 * w);
        let mh = largest_exec(w, h, 1022 * h);
        assert(mw * h <= 1022 * 0x1_0000_0000_0000_0000 && mh * w <= 1022 * 0x1_0000_0000_0000_0000
            && 3 * mw * h <= 3066 * 0x1_0000_0000_0000_0000 && 3 * mh * w <= 3066 * 0x1_0000_0000_0000_0000)
            by (nonlinear_arith)
            requires
                mw <= 1022,
                mh <= 1022,
                h < 0x1_0000_0000_0000_0000,
                w < 0x1_0000_0000_0000_0000,
        ;
        if mw * h <= mh * w {
            let y = 3 * mw * h / w;
            proof {
                lemma_div_le(mw as int, h as int, mh as int, w as int);
            }
            resize_result(y * 14, 42 * mw)
        } else {
            let y = 3 * mh * w / h;
            proof {
                lemma_div_le(mh as int, w as int, mw as int, h as int);
            }
            resize_result(42 * mh, y * 14)
        }
    }
}


/// Keeps the patch-aligned `best_height`×`best_width` grid of an `h`×`w` image
/// when it fits the token budget, and solves for a smaller one otherwise.
fn fit_token_budget(h: u128, w: u128, best_height: u128, best_width: u128) -> (r: (u128, u128, u128, u128, u128))
    requires
        h < 0x1_0000_0000_0000_0000,
        w < 0x1_0000_0000_0000_0000,
        best_height < 0x1_0000_0000_0000_0000,
        best_width < 0x1_0000_0000_0000_0000,
        h == 0 ==> best_height == 0,
    ensures
        ({
            let t = if grid(best_height as int, best_width as int).4 > 1024 {
                solved(h as int, w as int)
            } else {
                grid(best_height as int, best_width as int)
            };
            r.0 as int == t.0 && r.1 as int == t.1 && r.2 as int == t.2 && r.3 as int == t.3
                && r.4 as int == t.4
        }),
{
    let aligned = resize_result(best_height, best_width);
    if aligned.4 > 1024 {
        if h == 0 {
            assert(grid(best_height as int, best_width as int).0 * (grid(best_height as int, best_width as int).1 + 1) == 0)
                by (nonlinear_arith)
                requires
                    grid(best_height as int, best_width as int).0 == 0,
            ;
        }
        solve_resize_ratio(h, w)
    } else {
        aligned
    }
}

impl ImageTokenSpec {
    /// The fields of every specification are those of DeepSeek V4.1.
    #[verifier::type_invariant]
    spec fn is_v41(self) -> bool {
        &&& self.patch_size == 14
        &&& self.downsample_ratio == 3
        &&& self.max_n_token == 1024
        &&& self.min_pixels == 295936
    }

    /// Return the specification of DeepSeek V4.1 image tokens.
    pub fn v41() -> (r: ImageTokenSpec)
        ensures
            r.max_n_token_spec() == 1024,
            r.patch_size_spec() == 14,
            r.downsample_ratio_spec() == 3,
    {
        ImageTokenSpec {
            patch_size: PATCH_SIZE,
            downsample_ratio: DOWNSAMPLE_RATIO,
            max_n_token: MAX_N_TOKEN,
            min_pixels: MIN_PIXELS,
        }
    }

    pub closed spec fn max_n_token_spec(self) -> usize {
        self.max_n_token
    }

    pub closed spec fn patch_size_spec(self) -> usize {
        self.patch_size
    }

    pub closed spec fn downsample_ratio_spec(self) -> usize {
        self.downsample_ratio
    }

    /// Return the maximum number of model tokens one image may occupy.
    pub fn max_n_token(&self) -> (r: usize)
        ensures
            r == 1024,
            r == self.max_n_token_spec(),
    {
        proof {
            use_type_invariant(self);
        }
        self.max_n_token
    }

    /// Return the pixel size of one patch.
    pub fn patch_size(&self) -> (r: usize)
        ensures
            r == 14,
            r == self.patch_size_spec(),
    {
        proof {
            use_type_invariant(self);
        }
        self.patch_size
    }

    /// Return the spatial downsampling ratio between the patch grid and the
    /// model token grid.
    pub fn downsample_ratio(&self) -> (r: usize)
        ensures
            r == 3,
            r == self.downsample_ratio_spec(),
    {
        proof {
            use_type_invariant(self);
        }
        self.downsample_ratio
    }

    /// Upscales to the minimum area, aligns to patches, and fits the token
    /// budget: one fitting round.
    fn calc_resize_once(&self, width: usize, height: usize) -> (r: ResizeResult)
        requires
            size_in_range(width as int, height as int),
        ensures
            r == resize_once(width as int, height as int),
            result_fitted(r),
    {
        proof {
            lemma_resize_once_fitted(width as int, height as int);
        }
        let pixels: u128 = (width as u128) * (height as u128);
        let mut w: u128 = width as u128;
        let mut h: u128 = height as u128;
        if pixels < 295936 && pixels > 0 {
            proof {
                lemma_upscaled_bound(width as int, pixels as int);
                lemma_upscaled_bound(height as int, pixels as int);
                assert(width <= pixels && height <= pixels) by (nonlinear_arith)
                    requires
                        pixels == width * height,
                        pixels >= 1,
                ;
                assert(width * width * 295936 < 295936 * 295936 * 295936 && height * height * 295936 < 295936 * 295936 * 295936)
                    by (nonlinear_arith)
                    requires
                        width < 295936,
                        height < 295936,
                ;
            }
            w = largest_exec(pixels, 0, (width as u128) * (width as u128) * 295936);
            h = largest_exec(pixels, 0, (height as u128) * (height as u128) * 295936);
        }
        proof {
            lemma_ceil_div_bounds(w as int, 14);
            lemma_ceil_div_bounds(h as int, 14);
        }
        let best_width = (w + 13) / 14 * 14;
        let best_height = (h + 13) / 14 * 14;
        let t = fit_token_budget(h, w, best_height, best_width);
        ResizeResult {
            n_llm_h: t.0 as usize,
            n_llm_w: t.1 as usize,
            best_height: t.2 as usize,
            best_width: t.3 as usize,
            num_tokens: t.4 as usize,
        }
    }

    /// Return the target size and token length for an image of
    /// `width`×`height` pixels.
    ///
    /// Fitting is repeated until a round leaves the size unchanged; the error
    /// reports the last size when ten rounds do not reach such a size.
    pub fn calc_resize(&self, width: usize, height: usize) -> (r: Result<ResizeResult, CalcResizeError>)
        requires
            size_in_range(width as int, height as int),
        ensures
            r == calc_resize_spec(width as int, height as int),
    {
        let mut result = self.calc_resize_once(width, height);
        let mut i: usize = 1;
        while i < MAX_ITER
            invariant
                1 <= i <= MAX_ITER,
                result_fitted(result),
                iterate_resize(resize_once(width as int, height as int), 9) == iterate_resize(
                    result,
                    (10 - i) as nat,
                ),
            decreases MAX_ITER - i,
        {
            let next = self.calc_resize_once(result.best_width, result.best_height);
            if next == result {
                return Ok(result);
            }
            result = next;
            i = i + 1;
        }
        Err(CalcResizeError::NotConverged { max_iter: MAX_ITER, last_result: result })
    }

    /// Return the model tokens one image of `width`×`height` pixels occupies.
    pub fn calc_token_len(&self, width: usize, height: usize) -> (r: Result<usize, CalcResizeError>)
        requires
            size_in_range(width as int, height as int),
        ensures
            r == (match calc_resize_spec(width as int, height as int) {
                Ok(res) => Ok::<usize, CalcResizeError>(res.num_tokens),
                Err(e) => Err(e),
            }),
    {
        match self.calc_resize(width, height) {
            Ok(result) => Ok(result.num_tokens),
            Err(e) => Err(e),
        }
    }

    /// Return whether token-budget fitting leaves `width`×`height` unchanged.
    /// This checks dimensions only; it does not inspect encoded image bytes.
    pub fn is_image_valid(&self, width: usize, height: usize) -> (r: bool)
        requires
            size_in_range(width as int, height as int),
        ensures
            r == (match calc_resize_spec(width as int, height as int) {
                Ok(res) => res.best_width == width && res.best_height == height,
                Err(_) => false,
            }),
    {
        match self.calc_resize(width, height) {
            Ok(result) => result.best_width == width && result.best_height == height,
            Err(_) => false,
        }
    }
}

} // verus!