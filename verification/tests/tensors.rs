use std::io::Cursor;

use digit_classifier::codec::{fits_allocation, resize_nearest};
use digit_classifier::error::{PreprocessError, ShapeError};
use digit_classifier::grid::PixelGrid;
use digit_classifier::preprocess_image;
use digit_classifier::tensor::{build, InputTensor, FULL_SCALE, MODEL_INPUT_SIZE};
use image::{DynamicImage, GrayImage, ImageFormat};

fn png(width: u32, height: u32, pixels: Vec<u8>) -> Vec<u8> {
    let image = DynamicImage::ImageLuma8(GrayImage::from_raw(width, height, pixels).unwrap());
    let mut bytes = Vec::new();
    image.write_to(&mut Cursor::new(&mut bytes), ImageFormat::Png).unwrap();
    bytes
}

#[test]
fn the_model_constants() {
    assert_eq!(MODEL_INPUT_SIZE, 28);
    assert_eq!(FULL_SCALE, 255);
}

#[test]
fn full_intensity_gives_an_all_ones_tensor() {
    let grid = PixelGrid::from_raster(28, 28, vec![255; 784]).unwrap();
    let tensor = build(&grid, 28).unwrap();
    assert_eq!(tensor.shape(), (1, 1, 28, 28));
    assert_eq!(tensor.samples(), &vec![FULL_SCALE; 784]);
    let normalised: Vec<f32> = tensor.samples().iter().map(|&s| s as f32 / FULL_SCALE as f32).collect();
    assert!(normalised.iter().all(|&v| v == 1.0));
}

#[test]
fn a_grid_of_the_target_size_is_kept() {
    let pixels: Vec<u8> = (0..784u32).map(|i| (i % 251) as u8).collect();
    let grid = PixelGrid::from_raster(28, 28, pixels.clone()).unwrap();
    let tensor = build(&grid, 28).unwrap();
    assert_eq!(tensor.samples(), &pixels);
    assert_eq!(tensor.get(0, 0, 3, 5), grid.pixel(5, 3));
}

#[test]
fn a_uniform_zero_image_resizes_to_zero() {
    let grid = PixelGrid::from_raster(56, 56, vec![0; 56 * 56]).unwrap();
    let tensor = build(&grid, 28).unwrap();
    assert_eq!(tensor.shape(), (1, 1, 28, 28));
    assert_eq!(tensor.samples(), &vec![0u8; 784]);
}

#[test]
fn a_uniform_image_stays_uniform_at_any_size() {
    let grid = PixelGrid::from_raster(7, 5, vec![93; 35]).unwrap();
    for target in [1u32, 2, 3, 5, 7, 28, 50] {
        let tensor = build(&grid, target).unwrap();
        let side = target as usize;
        assert_eq!(tensor.shape(), (1, 1, side, side));
        assert_eq!(tensor.samples(), &vec![93u8; side * side]);
    }
}

#[test]
fn enlarging_repeats_the_nearest_pixel() {
    let grid = PixelGrid::from_raster(2, 2, vec![10, 20, 30, 40]).unwrap();
    let tensor = build(&grid, 4).unwrap();
    assert_eq!(
        tensor.samples(),
        &vec![10, 10, 20, 20, 10, 10, 20, 20, 30, 30, 40, 40, 30, 30, 40, 40]
    );
}

#[test]
fn shrinking_picks_single_pixels() {
    let pixels: Vec<u8> = (0..16).collect();
    let grid = PixelGrid::from_raster(4, 4, pixels).unwrap();
    let tensor = build(&grid, 2).unwrap();
    assert_eq!(tensor.samples(), &vec![5, 7, 13, 15]);
}

#[test]
fn resizing_to_other_proportions() {
    let grid = PixelGrid::from_raster(2, 1, vec![3, 9]).unwrap();
    let resized = resize_nearest(&grid, 4, 2).unwrap();
    assert_eq!(resized.width(), 4);
    assert_eq!(resized.height(), 2);
    assert_eq!(resized.pixels(), &vec![3, 3, 9, 9, 3, 3, 9, 9]);
}

#[test]
fn resizing_to_the_same_size_copies() {
    let grid = PixelGrid::from_raster(3, 2, vec![1, 2, 3, 4, 5, 6]).unwrap();
    assert_eq!(resize_nearest(&grid, 3, 2).unwrap(), grid);
}

#[test]
fn resizing_an_empty_grid_gives_zeros() {
    let grid = PixelGrid::from_raster(0, 0, Vec::new()).unwrap();
    let resized = resize_nearest(&grid, 3, 2).unwrap();
    assert_eq!(resized.pixels(), &vec![0u8; 6]);
    let tensor = build(&grid, 28).unwrap();
    assert_eq!(tensor.samples(), &vec![0u8; 784]);
}

#[test]
fn resizing_to_nothing_gives_an_empty_grid() {
    let grid = PixelGrid::from_raster(2, 2, vec![1, 2, 3, 4]).unwrap();
    let resized = resize_nearest(&grid, 0, 5).unwrap();
    assert_eq!(resized.width(), 0);
    assert_eq!(resized.height(), 5);
    assert!(resized.pixels().is_empty());
}

#[test]
fn a_zero_target_is_refused() {
    let grid = PixelGrid::from_raster(2, 2, vec![1, 2, 3, 4]).unwrap();
    assert_eq!(build(&grid, 0), Err(ShapeError::NonPositiveTarget));
}

#[test]
fn a_target_beyond_one_allocation_is_refused() {
    let wide = PixelGrid::from_raster(u32::MAX, 0, Vec::new()).unwrap();
    assert!(!fits_allocation(u32::MAX, u32::MAX, u32::MAX));
    assert_eq!(build(&wide, u32::MAX), Err(ShapeError::TooLarge));
    assert_eq!(resize_nearest(&wide, 1, u32::MAX), Err(ShapeError::TooLarge));
    assert!(fits_allocation(56, 28, 28));
    assert!(fits_allocation(4_793_490, 28, 28));
}

#[test]
fn the_allocation_limit_is_exact() {
    let limit = isize::MAX as u128;
    let height = 1u32 << 31;
    let widest = (limit / 16 / height as u128) as u32;
    assert!(fits_allocation(widest, 1, height));
    assert!(!fits_allocation(widest + 1, 1, height));
}

#[test]
fn samples_must_match_the_shape() {
    assert_eq!(InputTensor::from_samples(2, 3, vec![0; 5]), Err(ShapeError::Mismatch));
    assert_eq!(InputTensor::from_samples(usize::MAX, 2, vec![0; 2]), Err(ShapeError::Mismatch));
    let tensor = InputTensor::from_samples(2, 3, vec![1, 2, 3, 4, 5, 6]).unwrap();
    assert_eq!(tensor.shape(), (1, 1, 2, 3));
    assert_eq!(tensor.height(), 2);
    assert_eq!(tensor.width(), 3);
}

#[test]
fn elements_lie_row_major_behind_batch_and_channel() {
    let tensor = InputTensor::from_samples(2, 3, vec![1, 2, 3, 4, 5, 6]).unwrap();
    assert_eq!(tensor.get(0, 0, 0, 0), Some(1));
    assert_eq!(tensor.get(0, 0, 0, 2), Some(3));
    assert_eq!(tensor.get(0, 0, 1, 0), Some(4));
    assert_eq!(tensor.get(0, 0, 1, 2), Some(6));
    assert_eq!(tensor.get(1, 0, 0, 0), None);
    assert_eq!(tensor.get(0, 1, 0, 0), None);
    assert_eq!(tensor.get(0, 0, 2, 0), None);
    assert_eq!(tensor.get(0, 0, 0, 3), None);
}

#[test]
fn a_clone_of_a_tensor_equals_it() {
    let tensor = InputTensor::from_samples(1, 2, vec![4, 2]).unwrap();
    assert_eq!(tensor.clone(), tensor);
}

#[test]
fn preprocessing_resizes_to_the_model_s_input() {
    let tensor = preprocess_image(&png(56, 56, vec![0; 56 * 56])).unwrap();
    assert_eq!(tensor.shape(), (1, 1, 28, 28));
    assert_eq!(tensor.samples(), &vec![0u8; 784]);
}

#[test]
fn preprocessing_keeps_an_image_of_the_model_s_size() {
    let pixels: Vec<u8> = (0..784u32).map(|i| (i * 7 % 256) as u8).collect();
    let tensor = preprocess_image(&png(28, 28, pixels.clone())).unwrap();
    assert_eq!(tensor.samples(), &pixels);
}

#[test]
fn preprocessing_reports_what_does_not_decode() {
    assert!(matches!(preprocess_image(&[0u8; 32]), Err(PreprocessError::Decode(_))));
}
