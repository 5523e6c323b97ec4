use icon_composer::compose::{
    compose_asset, layer_requests, output_path, source_path, AssetOutcome, AssetTask, Composition,
};
use icon_composer::diagnostics::Diagnostic;
use icon_composer::layers::LayerImage;
use icon_composer::raster::RgbaImage;
use icon_composer::tint::TintMode;
use image::{DynamicImage, ImageBuffer, Rgba};

fn solid(width: u32, height: u32, pixel: [u8; 4]) -> RgbaImage {
    let mut samples = Vec::new();
    for _ in 0..(width * height) {
        samples.extend_from_slice(&pixel);
    }
    RgbaImage::from_raw(width, height, samples).unwrap()
}

fn layer(image: &RgbaImage) -> Option<LayerImage> {
    Some(LayerImage::new(image.clone()))
}

fn task(element_type: &str, asset_id: &str, specs: &[&str], folder: Option<&str>) -> AssetTask {
    AssetTask {
        element_type: element_type.to_string(),
        asset_id: asset_id.to_string(),
        layer_specs: specs.iter().map(|s| s.to_string()).collect(),
        layer_folder: folder.map(|f| f.to_string()),
    }
}

fn outside(image: &RgbaImage) -> ImageBuffer<Rgba<u8>, Vec<u8>> {
    ImageBuffer::from_raw(image.width(), image.height(), image.as_raw().clone()).unwrap()
}

#[test]
fn source_path_is_folder_category_asset() {
    assert_eq!(source_path("SourcePack", "items", "sword"), "SourcePack/items/sword.png");
    assert_eq!(
        source_path("SourcePack/", "items/rare", "sword"),
        "SourcePack/items/rare/sword.png"
    );
}

#[test]
fn output_path_uses_the_last_part_of_the_category() {
    assert_eq!(output_path("Output_Pack", "items", "sword"), "Output_Pack/items/sword.png");
    assert_eq!(output_path("Output_Pack", "game/items/", "sword"), "Output_Pack/items/sword.png");
    assert_eq!(output_path("out/", "a/b/c", "x.y"), "out/c/x.y.png");
}

#[test]
fn output_path_of_a_category_without_name_is_unknown() {
    assert_eq!(output_path("Output_Pack", "", "sword"), "Output_Pack/Unknown/sword.png");
    assert_eq!(output_path("Output_Pack", "..", "sword"), "Output_Pack/Unknown/sword.png");
    assert_eq!(output_path("Output_Pack", "/", "sword"), "Output_Pack/Unknown/sword.png");
    assert_eq!(output_path("Output_Pack", "items/..", "sword"), "Output_Pack/Unknown/sword.png");
}

#[test]
fn requests_name_the_files_of_real_layers() {
    let t = task("items", "sword", &["frame#FF0000", "none", "glow", ""], Some("layers"));
    assert_eq!(
        layer_requests(&t),
        vec![
            Some("layers/frame.png".to_string()),
            None,
            Some("layers/glow.png".to_string()),
            None
        ]
    );
}

#[test]
fn no_folder_means_no_requests() {
    let absent = task("items", "sword", &["frame", "glow"], None);
    assert_eq!(layer_requests(&absent), vec![None, None]);
    let empty = task("items", "sword", &["frame", "glow"], Some(""));
    assert_eq!(layer_requests(&empty), vec![None, None]);
}

#[test]
fn missing_base_skips_the_asset() {
    let t = task("items", "sword", &["frame", "glow"], Some("layers"));
    let loaded = vec![layer(&solid(1, 1, [1, 2, 3, 255])), None];
    let outcome = compose_asset(&t, "Output_Pack", None, &loaded, TintMode::Plain);
    assert_eq!(
        outcome,
        AssetOutcome {
            composition: None,
            diagnostic: Some(Diagnostic::Skipped { asset_id: "sword".to_string() }),
        }
    );
}

#[test]
fn base_alone_is_drawn_on_a_transparent_canvas() {
    let base = solid(3, 2, [10, 20, 30, 200]);
    let mut expected = RgbaImage::transparent(3, 2);
    expected.overlay(&base);
    for folder in [None, Some("")] {
        let t = task("items", "sword", &["frame", "glow"], folder);
        let outcome = compose_asset(&t, "out", Some(&base), &vec![], TintMode::Plain);
        assert_eq!(
            outcome,
            AssetOutcome {
                composition: Some(Composition {
                    output_path: "out/items/sword.png".to_string(),
                    image: expected.clone(),
                }),
                diagnostic: None,
            }
        );
    }
    let no_layers = task("items", "sword", &[], Some("layers"));
    let outcome = compose_asset(&no_layers, "out", Some(&base), &vec![], TintMode::Plain);
    assert_eq!(outcome.composition.unwrap().image, expected);
    assert_eq!(outcome.diagnostic, None);
}

#[test]
fn canvas_takes_the_size_of_the_base() {
    let base = solid(4, 3, [0, 0, 0, 255]);
    let big_layer = solid(9, 9, [255, 255, 255, 255]);
    let t = task("items", "sword", &["big"], Some("layers"));
    let outcome = compose_asset(&t, "out", Some(&base), &vec![layer(&big_layer)], TintMode::Plain);
    let image = outcome.composition.unwrap().image;
    assert_eq!((image.width(), image.height()), (4, 3));
    assert_eq!(image, base);
}

#[test]
fn layers_then_base_compose_left_to_right() {
    let a = solid(2, 2, [255, 0, 0, 230]);
    let b = solid(2, 2, [0, 255, 0, 150]);
    let base = solid(2, 2, [0, 0, 255, 70]);
    let mut reference = DynamicImage::new_rgba8(2, 2);
    image::imageops::overlay(&mut reference, &DynamicImage::ImageRgba8(outside(&a)), 0, 0);
    image::imageops::overlay(&mut reference, &DynamicImage::ImageRgba8(outside(&b)), 0, 0);
    image::imageops::overlay(&mut reference, &DynamicImage::ImageRgba8(outside(&base)), 0, 0);
    let t = task("items", "gem", &["a", "b"], Some("layers"));
    let outcome = compose_asset(
        &t,
        "out",
        Some(&base),
        &vec![layer(&a), layer(&b)],
        TintMode::Plain,
    );
    let image = outcome.composition.unwrap().image;
    assert_eq!(image.as_raw(), &reference.to_rgba8().into_raw());
    assert_eq!(outcome.diagnostic, None);
    let swapped = task("items", "gem", &["b", "a"], Some("layers"));
    let other =
        compose_asset(&swapped, "out", Some(&base), &vec![layer(&b), layer(&a)], TintMode::Plain);
    assert_ne!(other.composition.unwrap().image, image);
}

#[test]
fn one_missing_layer_gives_one_grouped_entry() {
    let first = solid(2, 2, [255, 0, 0, 255]);
    let second = solid(2, 2, [0, 0, 255, 128]);
    let base = solid(2, 2, [0, 255, 0, 64]);
    let mut expected = RgbaImage::transparent(2, 2);
    expected.overlay(&first);
    expected.overlay(&second);
    expected.overlay(&base);
    let t = task("items", "sword", &["exists1", "missing", "exists2"], Some("layers"));
    let outcome = compose_asset(
        &t,
        "out",
        Some(&base),
        &vec![layer(&first), None, layer(&second)],
        TintMode::Plain,
    );
    assert_eq!(
        outcome,
        AssetOutcome {
            composition: Some(Composition {
                output_path: "out/items/sword.png".to_string(),
                image: expected,
            }),
            diagnostic: Some(Diagnostic::MissingLayers {
                asset_id: "sword".to_string(),
                paths: vec!["layers/missing.png".to_string()],
            }),
        }
    );
}

#[test]
fn all_missing_layers_of_an_asset_share_one_entry() {
    let base = solid(1, 1, [5, 5, 5, 255]);
    let t = task("items", "sword", &["a", "none", "b#FF0000", "c"], Some("layers"));
    let outcome = compose_asset(&t, "out", Some(&base), &vec![None, None, None], TintMode::Plain);
    assert_eq!(
        outcome.diagnostic,
        Some(Diagnostic::MissingLayers {
            asset_id: "sword".to_string(),
            paths: vec![
                "layers/a.png".to_string(),
                "layers/b.png".to_string(),
                "layers/c.png".to_string()
            ],
        })
    );
    assert_eq!(outcome.composition.unwrap().image, base);
}

#[test]
fn sword_with_red_frame_and_glow() {
    let frame = RgbaImage::from_raw(
        2,
        2,
        vec![255, 255, 255, 255, 128, 128, 128, 255, 64, 64, 64, 128, 0, 0, 0, 0],
    )
    .unwrap();
    let glow = RgbaImage::from_raw(
        2,
        2,
        vec![255, 255, 0, 100, 0, 0, 0, 0, 255, 255, 0, 255, 10, 20, 30, 40],
    )
    .unwrap();
    let sword = RgbaImage::from_raw(
        2,
        2,
        vec![0, 0, 0, 0, 200, 200, 200, 255, 0, 0, 0, 0, 0, 0, 0, 0],
    )
    .unwrap();
    let t = task("items", "sword", &["frame#FF0000", "none", "glow"], Some("layers"));
    assert_eq!(
        layer_requests(&t),
        vec![Some("layers/frame.png".to_string()), None, Some("layers/glow.png".to_string())]
    );
    let loaded = vec![layer(&frame), None, layer(&glow)];
    let outcome = compose_asset(&t, "output", Some(&sword), &loaded, TintMode::Plain);

    let gray = DynamicImage::ImageRgba8(outside(&frame)).to_luma_alpha8();
    let red_frame: ImageBuffer<Rgba<u8>, Vec<u8>> = ImageBuffer::from_fn(2, 2, |x, y| {
        let p = gray.get_pixel(x, y);
        Rgba([(p[0] as u16 * 255 / 255) as u8, 0, 0, p[1]])
    });
    assert_eq!(
        red_frame.as_raw(),
        &vec![255, 0, 0, 255, 128, 0, 0, 255, 64, 0, 0, 128, 0, 0, 0, 0]
    );
    let mut reference = DynamicImage::new_rgba8(2, 2);
    image::imageops::overlay(&mut reference, &DynamicImage::ImageRgba8(red_frame), 0, 0);
    image::imageops::overlay(&mut reference, &DynamicImage::ImageRgba8(outside(&glow)), 0, 0);
    image::imageops::overlay(&mut reference, &DynamicImage::ImageRgba8(outside(&sword)), 0, 0);

    let composition = outcome.composition.unwrap();
    assert_eq!(composition.output_path, "output/items/sword.png");
    assert_eq!((composition.image.width(), composition.image.height()), (2, 2));
    assert_eq!(composition.image.as_raw(), &reference.to_rgba8().into_raw());
    assert_eq!(&composition.image.as_raw()[4..8], &[200, 200, 200, 255]);
    assert_eq!(&composition.image.as_raw()[8..12], &[255, 255, 0, 255]);
    assert_eq!(outcome.diagnostic, None);

    let without_none = task("items", "sword", &["frame#FF0000", "glow"], Some("layers"));
    let same = compose_asset(
        &without_none,
        "output",
        Some(&sword),
        &vec![layer(&frame), layer(&glow)],
        TintMode::Plain,
    );
    assert_eq!(same.composition.unwrap().image, composition.image);
}
