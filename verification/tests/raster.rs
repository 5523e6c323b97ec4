use icon_composer::raster::{pixel_count, GrayAlphaImage, GrayImage, RgbaImage};
use image::{DynamicImage, ImageBuffer, Rgba};

fn solid(width: u32, height: u32, pixel: [u8; 4]) -> RgbaImage {
    let mut samples = Vec::new();
    for _ in 0..(width * height) {
        samples.extend_from_slice(&pixel);
    }
    RgbaImage::from_raw(width, height, samples).unwrap()
}

fn reference_overlay(bottom: &RgbaImage, top: &RgbaImage) -> Vec<u8> {
    let mut under: ImageBuffer<Rgba<u8>, Vec<u8>> =
        ImageBuffer::from_raw(bottom.width(), bottom.height(), bottom.as_raw().clone()).unwrap();
    let over: ImageBuffer<Rgba<u8>, Vec<u8>> =
        ImageBuffer::from_raw(top.width(), top.height(), top.as_raw().clone()).unwrap();
    image::imageops::overlay(&mut under, &over, 0, 0);
    under.into_raw()
}

#[test]
fn pixel_count_is_the_product() {
    assert_eq!(pixel_count(0, 7), 0);
    assert_eq!(pixel_count(3, 4), 12);
    assert_eq!(pixel_count(u32::MAX, u32::MAX), 18446744065119617025);
}

#[test]
fn rgba_buffer_must_hold_four_samples_per_pixel() {
    assert!(RgbaImage::from_raw(2, 3, vec![0; 24]).is_some());
    assert!(RgbaImage::from_raw(2, 3, vec![0; 23]).is_none());
    assert!(RgbaImage::from_raw(2, 3, vec![0; 25]).is_none());
    assert!(RgbaImage::from_raw(0, 3, vec![]).is_some());
    assert!(RgbaImage::from_raw(0, 3, vec![0; 4]).is_none());
    assert!(RgbaImage::from_raw(u32::MAX, u32::MAX, vec![0; 4]).is_none());
}

#[test]
fn gray_alpha_buffer_must_hold_two_samples_per_pixel() {
    assert!(GrayAlphaImage::from_raw(2, 3, vec![0; 12]).is_some());
    assert!(GrayAlphaImage::from_raw(2, 3, vec![0; 24]).is_none());
    assert!(GrayAlphaImage::from_raw(1, 1, vec![0; 1]).is_none());
}

#[test]
fn gray_buffer_must_hold_one_sample_per_pixel() {
    assert!(GrayImage::from_raw(2, 3, vec![0; 6]).is_some());
    assert!(GrayImage::from_raw(2, 3, vec![0; 12]).is_none());
    assert!(GrayImage::from_raw(0, 0, vec![]).is_some());
}

#[test]
fn images_give_back_what_they_were_made_of() {
    let samples: Vec<u8> = (0..24).collect();
    let image = RgbaImage::from_raw(3, 2, samples.clone()).unwrap();
    assert_eq!(image.width(), 3);
    assert_eq!(image.height(), 2);
    assert_eq!(image.as_raw(), &samples);
    assert_eq!(image.clone(), image);
    assert_eq!(image.into_raw(), samples);
    let mask = GrayAlphaImage::from_raw(1, 2, vec![1, 2, 3, 4]).unwrap();
    assert_eq!((mask.width(), mask.height()), (1, 2));
    assert_eq!(mask.as_raw(), &vec![1, 2, 3, 4]);
    let gray = GrayImage::from_raw(2, 1, vec![9, 8]).unwrap();
    assert_eq!((gray.width(), gray.height()), (2, 1));
    assert_eq!(gray.as_raw(), &vec![9, 8]);
}

#[test]
fn transparent_canvas_is_all_zero() {
    let canvas = RgbaImage::transparent(5, 3);
    assert_eq!((canvas.width(), canvas.height()), (5, 3));
    assert_eq!(canvas.as_raw(), &vec![0u8; 60]);
    let none = RgbaImage::transparent(0, 9);
    assert_eq!((none.width(), none.height()), (0, 9));
    assert!(none.as_raw().is_empty());
}

#[test]
fn opaque_layer_replaces_what_is_below() {
    let mut canvas = solid(2, 2, [10, 20, 30, 255]);
    canvas.overlay(&solid(2, 2, [200, 100, 50, 255]));
    assert_eq!(canvas, solid(2, 2, [200, 100, 50, 255]));
}

#[test]
fn transparent_layer_changes_nothing() {
    let mut canvas = solid(2, 2, [10, 20, 30, 40]);
    canvas.overlay(&solid(2, 2, [200, 100, 50, 0]));
    assert_eq!(canvas, solid(2, 2, [10, 20, 30, 40]));
}

#[test]
fn layer_on_transparent_canvas_shows_as_it_is() {
    let mut canvas = RgbaImage::transparent(1, 1);
    canvas.overlay(&solid(1, 1, [255, 0, 0, 255]));
    assert_eq!(canvas.as_raw(), &vec![255, 0, 0, 255]);
}

#[test]
fn translucent_layer_blends_by_its_alpha() {
    let mut canvas = solid(1, 1, [0, 0, 0, 255]);
    canvas.overlay(&solid(1, 1, [255, 255, 255, 51]));
    let out = canvas.as_raw();
    assert_eq!(out[3], 255);
    assert!(out[0] == 50 || out[0] == 51);
    assert_eq!(out[0], out[1]);
    assert_eq!(out[1], out[2]);
}

#[test]
fn overlay_agrees_with_the_image_crate() {
    let bottoms = [[0u8, 0, 0, 0], [255, 255, 255, 255], [12, 200, 77, 128], [90, 3, 250, 1]];
    let tops =
        [[0u8, 0, 0, 0], [1, 2, 3, 255], [255, 0, 128, 127], [40, 80, 160, 254], [9, 9, 9, 1]];
    for b in bottoms {
        for t in tops {
            let bottom = solid(3, 2, b);
            let top = solid(3, 2, t);
            let expected = reference_overlay(&bottom, &top);
            let mut canvas = bottom.clone();
            canvas.overlay(&top);
            assert_eq!(canvas.as_raw(), &expected);
            assert_eq!((canvas.width(), canvas.height()), (3, 2));
        }
    }
}

#[test]
fn smaller_layer_covers_its_corner_only() {
    let mut canvas = solid(3, 2, [1, 1, 1, 255]);
    canvas.overlay(&solid(2, 1, [9, 9, 9, 255]));
    assert_eq!(
        canvas.as_raw(),
        &vec![9, 9, 9, 255, 9, 9, 9, 255, 1, 1, 1, 255, 1, 1, 1, 255, 1, 1, 1, 255, 1, 1, 1, 255]
    );
}

#[test]
fn larger_layer_is_clipped_to_the_canvas() {
    let mut canvas = solid(1, 2, [1, 1, 1, 255]);
    let mut top_samples = Vec::new();
    for p in 0..6u8 {
        top_samples.extend_from_slice(&[p, p, p, 255]);
    }
    let top = RgbaImage::from_raw(3, 2, top_samples).unwrap();
    let expected = reference_overlay(&canvas, &top);
    canvas.overlay(&top);
    assert_eq!(canvas.as_raw(), &vec![0, 0, 0, 255, 3, 3, 3, 255]);
    assert_eq!(canvas.as_raw(), &expected);
}

#[test]
fn empty_images_neither_change_nor_are_changed() {
    let mut canvas = solid(2, 2, [5, 6, 7, 8]);
    canvas.overlay(&RgbaImage::transparent(0, 4));
    assert_eq!(canvas, solid(2, 2, [5, 6, 7, 8]));
    canvas.overlay(&RgbaImage::transparent(4, 0));
    assert_eq!(canvas, solid(2, 2, [5, 6, 7, 8]));
    let mut none = RgbaImage::transparent(0, 3);
    none.overlay(&solid(2, 2, [5, 6, 7, 255]));
    assert_eq!((none.width(), none.height()), (0, 3));
    assert!(none.as_raw().is_empty());
}

#[test]
fn gray_rendering_keeps_size_and_alpha() {
    let image = RgbaImage::from_raw(
        2,
        2,
        vec![255, 255, 255, 255, 0, 0, 0, 128, 77, 77, 77, 3, 200, 200, 200, 0],
    )
    .unwrap();
    let gray = image.to_gray_alpha();
    assert_eq!((gray.width(), gray.height()), (2, 2));
    assert_eq!(gray.as_raw(), &vec![255, 255, 0, 128, 77, 3, 200, 0]);
}

#[test]
fn gray_rendering_agrees_with_the_image_crate() {
    let mut samples = Vec::new();
    for i in 0..64u32 {
        samples.push((i * 4) as u8);
        samples.push((255 - i * 3) as u8);
        samples.push((i * 7 % 256) as u8);
        samples.push((i * 5 % 256) as u8);
    }
    let image = RgbaImage::from_raw(8, 8, samples.clone()).unwrap();
    let reference: ImageBuffer<Rgba<u8>, Vec<u8>> = ImageBuffer::from_raw(8, 8, samples).unwrap();
    let expected = DynamicImage::ImageRgba8(reference).to_luma_alpha8().into_raw();
    assert_eq!(image.to_gray_alpha().as_raw(), &expected);
}

#[test]
fn gray_rendering_weighs_green_most() {
    let image = RgbaImage::from_raw(3, 1, vec![255, 0, 0, 255, 0, 255, 0, 255, 0, 0, 255, 255])
        .unwrap();
    let gray = image.to_gray_alpha();
    let raw = gray.as_raw();
    assert!(raw[2] > raw[0] && raw[0] > raw[4]);
    assert_eq!((raw[1], raw[3], raw[5]), (255, 255, 255));
}

#[test]
fn gray_rendering_of_empty_image_is_empty() {
    let gray = RgbaImage::transparent(0, 2).to_gray_alpha();
    assert_eq!((gray.width(), gray.height()), (0, 2));
    assert!(gray.as_raw().is_empty());
}
