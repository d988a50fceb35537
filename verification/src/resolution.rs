//! Traced resolution and denoising strength.

use vstd::prelude::*;

verus! {

/// Up to this many samples the image is noisy and is filtered at full strength.
pub const DENOISE_FULL_SAMPLES: u32 = 16;

/// From this many samples on the image has converged and is not filtered.
pub const DENOISE_CONVERGED_SAMPLES: u32 = 512;

/// The number, or one in place of zero.
pub open spec fn at_least_one(n: u64) -> u64 {
    if n == 0 {
        1
    } else {
        n
    }
}

/// A size, at least one pixel each way, cut down to `max_pixels` pixels: where it
/// has more, the width is cut to the limit and the height to what is then left.
pub open spec fn cut_size(width: u32, height: u32, max_pixels: u64) -> (u32, u32) {
    let limit = at_least_one(max_pixels) as int;
    let w = at_least_one(width as u64) as int;
    let h = at_least_one(height as u64) as int;
    if w * h <= limit {
        (w as u32, h as u32)
    } else {
        let cut_w = if w <= limit {
            w
        } else {
            limit
        };
        let room = limit / cut_w;
        (
            cut_w as u32,
            (if h <= room {
                h
            } else {
                room
            }) as u32,
        )
    }
}

/// The smaller of two numbers.
pub open spec fn smaller(a: u32, b: u32) -> u32 {
    if a <= b {
        a
    } else {
        b
    }
}

/// The size capped to `max_pixels`, where `scaled` is the size scaled down to about
/// that many pixels. The capped size exceeds the size itself in neither direction.
pub open spec fn capped_size(
    width: u32,
    height: u32,
    max_pixels: u64,
    scaled: (u32, u32),
) -> (u32, u32) {
    if width * height == 0 {
        (1u32, 1u32)
    } else if width * height <= max_pixels {
        (width, height)
    } else {
        cut_size(smaller(scaled.0, width), smaller(scaled.1, height), max_pixels)
    }
}

/// A cut size has at least one pixel each way and keeps the limit.
proof fn lemma_cut_size(width: u32, height: u32, max_pixels: u64)
    ensures
        ({
            let size = cut_size(width, height, max_pixels);
            &&& size.0 >= 1
            &&& size.1 >= 1
            &&& size.0 <= at_least_one(width as u64)
            &&& size.1 <= at_least_one(height as u64)
            &&& size.0 * size.1 <= at_least_one(max_pixels)
        }),
{
    let limit = at_least_one(max_pixels) as int;
    let w = at_least_one(width as u64) as int;
    let h = at_least_one(height as u64) as int;
    if w * h > limit {
        let cut_w = if w <= limit {
            w
        } else {
            limit
        };
        let room = limit / cut_w;
        assert(room >= 1 && cut_w * room <= limit) by (nonlinear_arith)
            requires
                1 <= cut_w <= limit,
                room == limit / cut_w,
        ;
        let cut_h = if h <= room {
            h
        } else {
            room
        };
        assert(cut_w * cut_h <= cut_w * room) by (nonlinear_arith)
            requires
                cut_w >= 1,
                cut_h <= room,
        ;
    }
}

/// A capped size has at least one pixel each way and keeps the limit.
pub(crate) proof fn lemma_capped_size(
    width: u32,
    height: u32,
    max_pixels: u64,
    scaled: (u32, u32),
)
    ensures
        ({
            let size = capped_size(width, height, max_pixels, scaled);
            &&& size.0 >= 1
            &&& size.1 >= 1
            &&& size.0 <= at_least_one(width as u64)
            &&& size.1 <= at_least_one(height as u64)
            &&& size.0 * size.1 <= at_least_one(max_pixels)
        }),
{
    lemma_cut_size(smaller(scaled.0, width), smaller(scaled.1, height), max_pixels);
    assert(width * height != 0 ==> width >= 1 && height >= 1) by (nonlinear_arith);
    assert(1u32 * 1u32 == 1) by (nonlinear_arith);
}

/// Caps a resolution to `max_pixels` pixels. `scaled` is `(width, height)` times the
/// square root of `max_pixels / (width * height)`, rounded down: the largest size of
/// the same aspect ratio within the limit. It is read only where the resolution has
/// to be reduced, and cut to the resolution itself.
pub fn capped_resolution(
    width: u32,
    height: u32,
    max_pixels: u64,
    scaled: (u32, u32),
) -> (size: (u32, u32))
    ensures
        size == capped_size(width, height, max_pixels, scaled),
        size.0 >= 1,
        size.1 >= 1,
        size.0 <= at_least_one(width as u64),
        size.1 <= at_least_one(height as u64),
        size.0 * size.1 <= at_least_one(max_pixels),
{
    proof {
        lemma_capped_size(width, height, max_pixels, scaled);
        lemma_product_fits(width, height);
    }
    let pixels: u64 = width as u64 * height as u64;
    if pixels == 0 {
        return (1, 1);
    }
    if pixels <= max_pixels {
        return (width, height);
    }
    let limit: u64 = if max_pixels == 0 {
        1
    } else {
        max_pixels
    };
    let w: u32 = if scaled.0 == 0 {
        1
    } else if scaled.0 <= width {
        scaled.0
    } else {
        width
    };
    let h: u32 = if scaled.1 == 0 {
        1
    } else if scaled.1 <= height {
        scaled.1
    } else {
        height
    };
    proof {
        lemma_product_fits(w, h);
    }
    if w as u64 * h as u64 <= limit {
        return (w, h);
    }
    let cut_w: u32 = if w as u64 <= limit {
        w
    } else {
        limit as u32
    };
    let room: u64 = limit / cut_w as u64;
    let cut_h: u32 = if h as u64 <= room {
        h
    } else {
        room as u32
    };
    (cut_w, cut_h)
}

/// The product of two 32-bit numbers has 64 bits.
pub(crate) proof fn lemma_product_fits(a: u32, b: u32)
    ensures
        0 <= a * b <= u64::MAX,
{
    assert(0 <= a * b <= u64::MAX) by (nonlinear_arith)
        requires
            a <= u32::MAX,
            b <= u32::MAX,
    ;
}

/// How many filter iterations an image of `samples` samples gets: all of them while
/// it is noisy, none once it has converged, and between the two `tapered` of them, at
/// least one and at most all.
pub open spec fn denoise_strength(max_iterations: u32, samples: u32, tapered: u32) -> u32 {
    if max_iterations == 0 {
        0
    } else if samples <= DENOISE_FULL_SAMPLES {
        max_iterations
    } else if samples >= DENOISE_CONVERGED_SAMPLES {
        0
    } else if tapered == 0 {
        1
    } else {
        smaller(tapered, max_iterations)
    }
}

/// How many denoiser iterations to run for an image of `samples` samples.
///
/// `tapered` is `max_iterations`, scaled down log-linearly from all of it at
/// [`DENOISE_FULL_SAMPLES`] samples to none at [`DENOISE_CONVERGED_SAMPLES`], and
/// rounded up. It is read only between the two.
pub fn effective_denoise_iterations(
    max_iterations: u32,
    samples: u32,
    tapered: u32,
) -> (iterations: u32)
    ensures
        iterations == denoise_strength(max_iterations, samples, tapered),
        iterations <= max_iterations,
{
    if max_iterations == 0 {
        return 0;
    }
    if samples <= DENOISE_FULL_SAMPLES {
        return max_iterations;
    }
    if samples >= DENOISE_CONVERGED_SAMPLES {
        return 0;
    }
    if tapered == 0 {
        1
    } else if tapered <= max_iterations {
        tapered
    } else {
        max_iterations
    }
}

} // verus!
