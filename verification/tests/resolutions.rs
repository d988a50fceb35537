//! Traced resolution and denoising strength.

use raytracer::resolution::{capped_resolution, effective_denoise_iterations};

fn scaled_to(width: u32, height: u32, max_pixels: u64) -> (u32, u32) {
    let scale = (max_pixels as f64 / (width as u64 * height as u64) as f64).sqrt();
    ((width as f64 * scale).floor() as u32, (height as f64 * scale).floor() as u32)
}

fn tapered_from(max_iterations: u32, samples: u32) -> u32 {
    let t = (samples as f32 / 16.0).log2() / (512.0f32 / 16.0).log2();
    (max_iterations as f32 * (1.0 - t)).ceil() as u32
}

#[test]
fn small_images_keep_their_resolution() {
    assert_eq!(capped_resolution(640, 480, 640 * 480, (0, 0)), (640, 480));
    assert_eq!(capped_resolution(1, 1, 1, (9, 9)), (1, 1));
}

#[test]
fn empty_images_get_one_pixel() {
    assert_eq!(capped_resolution(0, 480, 100, (3, 3)), (1, 1));
    assert_eq!(capped_resolution(640, 0, 100, (3, 3)), (1, 1));
}

#[test]
fn large_images_keep_their_aspect_ratio() {
    let limit = 960 * 540;
    let got = capped_resolution(1920, 1080, limit, scaled_to(1920, 1080, limit));
    assert_eq!(got, (960, 540));
    let got = capped_resolution(4000, 1000, 1_000_000, scaled_to(4000, 1000, 1_000_000));
    assert_eq!(got, (2000, 500));
}

#[test]
fn capped_images_keep_the_limit() {
    for (w, h, limit) in [
        (1920u32, 1080u32, 1_000_000u64),
        (1, 1000, 10),
        (1000, 1, 10),
        (u32::MAX, 1, 5),
        (3, 3, 1),
        (u32::MAX, u32::MAX, 1 << 40),
    ] {
        let (rw, rh) = capped_resolution(w, h, limit, scaled_to(w, h, limit));
        assert!(rw >= 1 && rh >= 1);
        assert!(rw as u64 * rh as u64 <= limit, "{w}x{h} within {limit} gave {rw}x{rh}");
    }
}

#[test]
fn narrow_images_are_cut_along_their_length() {
    assert_eq!(capped_resolution(1, 1000, 10, scaled_to(1, 1000, 10)), (1, 10));
    assert_eq!(capped_resolution(1000, 1, 10, scaled_to(1000, 1, 10)), (10, 1));
}

#[test]
fn noisy_images_are_filtered_at_full_strength() {
    assert_eq!(effective_denoise_iterations(5, 0, 0), 5);
    assert_eq!(effective_denoise_iterations(5, 1, 0), 5);
    assert_eq!(effective_denoise_iterations(5, 16, 0), 5);
}

#[test]
fn converged_images_are_not_filtered() {
    assert_eq!(effective_denoise_iterations(5, 512, 4), 0);
    assert_eq!(effective_denoise_iterations(5, u32::MAX, 4), 0);
    assert_eq!(effective_denoise_iterations(0, 1, 4), 0);
}

#[test]
fn filtering_fades_between() {
    for (samples, want) in [(17, 5), (32, 4), (64, 3), (128, 2), (256, 1), (511, 1)] {
        let got = effective_denoise_iterations(5, samples, tapered_from(5, samples));
        assert_eq!(got, want, "{samples} samples");
    }
    assert_eq!(effective_denoise_iterations(5, 300, 0), 1);
}

#[test]
fn filtering_never_exceeds_the_maximum() {
    assert_eq!(effective_denoise_iterations(5, 100, 9), 5);
    for max in 1..8 {
        let mut last = max;
        for samples in 0..600 {
            let n = effective_denoise_iterations(max, samples, tapered_from(max, samples.max(1)));
            assert!(n <= last);
            last = n;
        }
    }
}

#[test]
fn capped_images_do_not_grow() {
    assert_eq!(capped_resolution(4, 100, 300, (50, 50)), (4, 50));
    assert_eq!(capped_resolution(100, 4, 300, (50, 50)), (50, 4));
}

#[test]
fn capped_images_are_off_by_less_than_a_pixel() {
    for (w, h, limit) in [(1920u32, 1080u32, 1_000_000u64), (1000, 333, 9_999), (77, 1234, 5_000)] {
        let scaled = scaled_to(w, h, limit);
        let (rw, rh) = capped_resolution(w, h, limit, scaled);
        assert_eq!((rw, rh), scaled);
        let off = rw as i64 * h as i64 - rh as i64 * w as i64;
        assert!(off.abs() <= w.max(h) as i64);
    }
}
