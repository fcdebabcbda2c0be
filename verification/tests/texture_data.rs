use std::io::Cursor;

use v4::binding::TextureViewDimension;
use v4::image_data::{hdr_texture_data, rgb_to_rgba, texture_source, TextureDataError};
use v4::texture::{
    StorageTextureAccess, TextureProperties, TEXTURE_USAGE_COPY_DST,
    TEXTURE_USAGE_RENDER_ATTACHMENT, TEXTURE_USAGE_STORAGE_BINDING,
    TEXTURE_USAGE_TEXTURE_BINDING,
};

fn png_bytes() -> Vec<u8> {
    let img = image::RgbImage::from_raw(2, 1, vec![10, 20, 30, 40, 50, 60]).unwrap();
    let mut out = Cursor::new(Vec::new());
    img.write_to(&mut out, image::ImageFormat::Png).unwrap();
    out.into_inner()
}

fn hdr_bytes() -> Vec<u8> {
    let pixels = vec![image::Rgb([1.0f32, 0.5, 0.25]), image::Rgb([2.0f32, 1.0, 0.5])];
    let mut out = Vec::new();
    image::codecs::hdr::HdrEncoder::new(&mut out).encode(&pixels, 2, 1).unwrap();
    out
}

#[test]
fn png_is_decoded_to_rgba_for_four_components() {
    let props = TextureProperties::with_format(0u32);
    let source = texture_source(png_bytes(), props, 4).unwrap();
    assert_eq!(source.dimensions, (2, 1));
    assert_eq!(source.bytes, vec![10, 20, 30, 255, 40, 50, 60, 255]);
    let native = texture_source(png_bytes(), props, 3).unwrap();
    assert_eq!(native.bytes, vec![10, 20, 30, 40, 50, 60]);
}

#[test]
fn undecodable_image_is_refused() {
    let props = TextureProperties::with_format(0u32);
    assert_eq!(texture_source(vec![1, 2, 3], props, 4).err(), Some(TextureDataError::Undecodable));
    assert_eq!(hdr_texture_data(&[1, 2, 3], [0, 0, 128, 63]).err(), Some(TextureDataError::Undecodable));
}

#[test]
fn hdr_source_is_passed_on_with_upload_properties() {
    let mut props = TextureProperties::with_format(0u32);
    props.is_hdr = true;
    props.is_cubemap = true;
    let source = texture_source(vec![9, 9], props, 4).unwrap();
    assert_eq!(source.bytes, vec![9, 9]);
    assert_eq!(source.dimensions, (0, 0));
    assert!(!source.properties.is_sampled && !source.properties.is_cubemap && !source.properties.is_filtered);
    assert_eq!(source.properties.extra_usages, TEXTURE_USAGE_TEXTURE_BINDING | TEXTURE_USAGE_COPY_DST);
    assert!(source.properties.is_hdr);
}

#[test]
fn hdr_pixels_gain_an_alpha_channel() {
    let one = 1.0f32.to_ne_bytes();
    let (w, h, bytes) = hdr_texture_data(&hdr_bytes(), one).unwrap();
    assert_eq!((w, h), (2, 1));
    assert_eq!(bytes.len(), 32);
    let floats: Vec<f32> = bytes.chunks(4).map(|c| f32::from_ne_bytes([c[0], c[1], c[2], c[3]])).collect();
    let expected = [1.0f32, 0.5, 0.25, 1.0, 2.0, 1.0, 0.5, 1.0];
    for (got, want) in floats.iter().zip(expected.iter()) {
        assert!((got - want).abs() <= want * 0.02, "{got} is not close to {want}");
    }
    assert_eq!(floats[3], 1.0);
    assert_eq!(floats[7], 1.0);
}

#[test]
fn rgb_widening_copies_channels_and_appends_alpha() {
    let rgb: Vec<u8> = (0..24).collect();
    let out = rgb_to_rgba(&rgb, 2, [7, 7, 7, 7]);
    let mut expected: Vec<u8> = (0..12).collect();
    expected.extend([7, 7, 7, 7]);
    expected.extend(12..24);
    expected.extend([7, 7, 7, 7]);
    assert_eq!(out, expected);
    assert!(rgb_to_rgba(&rgb, 0, [1, 2, 3, 4]).is_empty());
}

#[test]
fn texture_plans_follow_the_properties() {
    let plain = TextureProperties::with_format(0u32);
    let p = plain.texture_plan(8, 4);
    assert_eq!((p.width, p.height, p.depth_or_array_layers), (8, 4, 1));
    assert_eq!(p.usage, TEXTURE_USAGE_TEXTURE_BINDING | TEXTURE_USAGE_COPY_DST);
    assert_eq!(p.view_dimension, TextureViewDimension::D2);
    assert_eq!(p.array_layer_count, None);

    let mut cube = plain;
    cube.is_cubemap = true;
    let c = cube.texture_plan(8, 8);
    assert_eq!(c.depth_or_array_layers, 6);
    assert_eq!(c.view_dimension, TextureViewDimension::Cube);
    assert_eq!(c.array_layer_count, Some(6));

    let mut storage_cube = cube;
    storage_cube.storage_texture = Some(StorageTextureAccess::ReadWrite);
    storage_cube.extra_usages = 0;
    let s = storage_cube.texture_plan(8, 8);
    assert_eq!(s.usage, TEXTURE_USAGE_STORAGE_BINDING | TEXTURE_USAGE_COPY_DST);
    assert_eq!(s.view_dimension, TextureViewDimension::D2Array);
    assert_eq!(s.array_layer_count, None);

    let depth = TextureProperties::depth(1u32);
    assert!(depth.is_sampled && !depth.is_filtered);
    assert_eq!(depth.extra_usages, TEXTURE_USAGE_RENDER_ATTACHMENT | TEXTURE_USAGE_TEXTURE_BINDING);
    let hdr = plain.for_hdr_upload();
    assert_eq!(hdr.extra_usages, TEXTURE_USAGE_TEXTURE_BINDING | TEXTURE_USAGE_COPY_DST);
}
