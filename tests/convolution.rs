use convolver::convolve::{clamped_at_index, convolve, raw_sum, ConvolveError};
use convolver::normalize::{map_range, normalize};
use convolver::raster::Raster;

fn raster(width: usize, height: usize, pixels: Vec<u8>) -> Raster {
    Raster::new(width, height, pixels).unwrap()
}

fn ramp_4x4() -> Raster {
    raster(
        4,
        4,
        vec![10, 20, 30, 40, 50, 60, 70, 80, 90, 100, 110, 120, 130, 140, 150, 160],
    )
}

#[test]
fn uniform_2x2_kernel_on_4x4_ramp() {
    let out = convolve(&ramp_4x4(), 2, &[1, 1, 1, 1]).unwrap();
    assert_eq!(out.width(), 3);
    assert_eq!(out.height(), 3);
    assert_eq!(out.pixel(0, 0), 0);
    assert_eq!(out.pixel(2, 2), 255);
    assert_eq!(out.pixels(), &vec![0, 26, 51, 102, 128, 153, 204, 230, 255]);
}

#[test]
fn raw_sums_of_4x4_ramp_corners() {
    let src = ramp_4x4();
    assert_eq!(raw_sum(&src, 2, &[1, 1, 1, 1], 0, 0), 140);
    assert_eq!(raw_sum(&src, 2, &[1, 1, 1, 1], 2, 2), 540);
    assert_eq!(raw_sum(&src, 2, &[1, -1, 0, 2], 1, 1), 60 - 70 + 2 * 110);
}

#[test]
fn negative_sums_are_floored_to_zero() {
    let src = ramp_4x4();
    assert_eq!(clamped_at_index(&src, 2, &[-1, -1, -1, -1], 3, 4), 0);
    assert_eq!(clamped_at_index(&src, 2, &[1, 1, 1, 1], 3, 4), 340);
}

#[test]
fn identity_kernel_rescales_the_source() {
    let out = convolve(&raster(2, 2, vec![10, 20, 30, 50]), 1, &[1]).unwrap();
    assert_eq!(out.width(), 2);
    assert_eq!(out.height(), 2);
    assert_eq!(out.pixels(), &vec![0, 64, 128, 255]);
}

#[test]
fn identity_kernel_keeps_full_range_source() {
    let src = raster(3, 1, vec![0, 128, 255]);
    let out = convolve(&src, 1, &[1]).unwrap();
    assert_eq!(out.pixels(), src.pixels());
}

#[test]
fn output_shrinks_by_kernel_size_minus_one() {
    let src = raster(5, 3, (0..15).collect());
    let out = convolve(&src, 3, &[1; 9]).unwrap();
    assert_eq!((out.width(), out.height()), (3, 1));
    assert_eq!(out.pixels().len(), 3);
    let same = convolve(&src, 3, &[1; 9]).unwrap();
    assert_eq!(same.pixels(), &vec![0, 128, 255]);
}

#[test]
fn kernel_as_large_as_the_source_gives_one_sample() {
    let out = convolve(&ramp_4x4(), 4, &[1; 16]).unwrap();
    assert_eq!((out.width(), out.height()), (1, 1));
    assert_eq!(out.pixels(), &vec![0]);
}

#[test]
fn zero_weights_give_black() {
    let out = convolve(&ramp_4x4(), 2, &[0, 0, 0, 0]).unwrap();
    assert_eq!(out.pixels(), &vec![0; 9]);
}

#[test]
fn all_negative_kernel_gives_black() {
    let out = convolve(&ramp_4x4(), 2, &[-1, -2, -3, -4]).unwrap();
    assert_eq!(out.pixels(), &vec![0; 9]);
}

#[test]
fn kernel_wider_than_source_is_refused() {
    let src = raster(2, 5, vec![1; 10]);
    assert_eq!(convolve(&src, 3, &[1; 9]).unwrap_err(), ConvolveError::KernelTooLarge);
}

#[test]
fn kernel_taller_than_source_is_refused() {
    let src = raster(5, 2, vec![1; 10]);
    assert_eq!(convolve(&src, 3, &[1; 9]).unwrap_err(), ConvolveError::KernelTooLarge);
    assert!(convolve(&src, 2, &[1; 4]).is_ok());
}

#[test]
fn kernel_larger_than_empty_source_is_refused() {
    let src = raster(0, 0, vec![]);
    assert_eq!(convolve(&src, 1, &[1]).unwrap_err(), ConvolveError::KernelTooLarge);
}

#[test]
fn recomputing_gives_identical_output() {
    let src = ramp_4x4();
    let weights = [3, -1, 2, 0];
    let a = convolve(&src, 2, &weights).unwrap();
    let b = convolve(&src, 2, &weights).unwrap();
    assert_eq!(a.pixels(), b.pixels());
    assert_eq!((a.width(), a.height()), (b.width(), b.height()));
}

#[test]
fn extreme_weights_do_not_overflow() {
    let src = raster(2, 2, vec![255, 255, 0, 255]);
    let out = convolve(&src, 1, &[i32::MAX]).unwrap();
    assert_eq!(out.pixels(), &vec![255, 255, 0, 255]);
    assert_eq!(raw_sum(&src, 2, &[i32::MIN; 4], 0, 0), 3 * 255 * (i32::MIN as i128));
}

#[test]
fn map_range_rounds_to_nearest() {
    assert_eq!(map_range((0, 10), (0, 255), 5), 128);
    assert_eq!(map_range((0, 4), (10, 20), 1), 13);
    assert_eq!(map_range((0, 4), (10, 20), 4), 20);
    assert_eq!(map_range((-5, 5), (0, 255), -5), 0);
}

#[test]
fn map_range_of_flat_range_gives_low_end() {
    assert_eq!(map_range((3, 3), (7, 9), 3), 7);
}

#[test]
fn normalize_uses_observed_range() {
    assert_eq!(normalize(vec![140, 540, 340]), vec![0, 255, 128]);
    assert_eq!(normalize(vec![9, 9]), vec![0, 0]);
    assert_eq!(normalize(vec![]), Vec::<u8>::new());
}

#[test]
fn raster_new_checks_the_buffer_length() {
    assert!(Raster::new(2, 3, vec![0; 5]).is_none());
    assert!(Raster::new(usize::MAX, 2, vec![]).is_none());
    let r = Raster::new(2, 3, vec![0, 1, 2, 3, 4, 5]).unwrap();
    assert_eq!(r.pixel(1, 2), 5);
    assert!(r.is_well_formed());
}

#[test]
fn scaling_all_weights_keeps_output() {
    let src = ramp_4x4();
    let a = convolve(&src, 2, &[1, -2, 0, 3]).unwrap();
    let b = convolve(&src, 2, &[1000, -2000, 0, 3000]).unwrap();
    assert_eq!(a.pixels(), b.pixels());
    let c = convolve(&src, 2, &[1, 1, 1, 1]).unwrap();
    let d = convolve(&src, 2, &[7, 7, 7, 7]).unwrap();
    assert_eq!(c.pixels(), d.pixels());
}
