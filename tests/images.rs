use vgrender::{Image, ImageError, ImageFlags, ImageId, ImageStore, SoftwareRenderer, TextureType, MAX_TEXTURE_SIZE};

fn rgba(width: u32, height: u32, fill: u8) -> Image {
    Image { width, height, format: TextureType::Rgba, data: vec![fill; (width * height * 4) as usize] }
}

#[test]
fn create_query_delete_rgba_2x2() {
    let mut r = SoftwareRenderer::new();
    let id = r.create_image(&rgba(2, 2, 7), ImageFlags::empty()).unwrap();
    assert_eq!(r.texture_size(id), (2, 2));
    assert_eq!(r.texture_type(id), Some(TextureType::Rgba));
    r.delete_image(id);
    assert_eq!(r.texture_size(id), (0, 0));
    assert_eq!(r.texture_type(id), None);
}

#[test]
fn size_survives_updates() {
    let mut r = SoftwareRenderer::new();
    let id = r.create_image(&rgba(4, 3, 0), ImageFlags::empty()).unwrap();
    r.update_image(id, &rgba(2, 2, 9), 1, 1);
    r.update_image(id, &rgba(4, 3, 5), 0, 0);
    r.update_image(id, &rgba(5, 5, 5), 0, 0);
    assert_eq!(r.texture_size(id), (4, 3));
}

#[test]
fn update_writes_region() {
    let mut s = ImageStore::new();
    let img = Image { width: 3, height: 2, format: TextureType::Alpha, data: vec![0, 0, 0, 0, 0, 0] };
    let id = s.create_image(&img, ImageFlags::empty()).unwrap();
    let patch = Image { width: 2, height: 1, format: TextureType::Alpha, data: vec![8, 9] };
    s.update_image(id, &patch, 1, 1);
    let t = s.textures[id.index].as_ref().unwrap();
    assert_eq!(t.data, vec![0, 0, 0, 0, 8, 9]);
}

#[test]
fn update_outside_bounds_or_other_layout_changes_nothing() {
    let mut s = ImageStore::new();
    let img = Image { width: 2, height: 2, format: TextureType::Alpha, data: vec![1, 2, 3, 4] };
    let id = s.create_image(&img, ImageFlags::empty()).unwrap();
    s.update_image(id, &Image { width: 2, height: 1, format: TextureType::Alpha, data: vec![8, 9] }, 1, 1);
    s.update_image(id, &Image { width: 1, height: 1, format: TextureType::Rgb, data: vec![8, 9, 7] }, 0, 0);
    s.update_image(ImageId { index: 5 }, &Image { width: 1, height: 1, format: TextureType::Alpha, data: vec![8] }, 0, 0);
    assert_eq!(s.textures[id.index].as_ref().unwrap().data, vec![1, 2, 3, 4]);
}

#[test]
fn delete_twice_and_unknown_are_noops() {
    let mut r = SoftwareRenderer::new();
    let a = r.create_image(&rgba(2, 2, 0), ImageFlags::from_bits(ImageFlags::REPEAT_X)).unwrap();
    let b = r.create_image(&rgba(3, 1, 0), ImageFlags::empty()).unwrap();
    assert_ne!(a, b);
    r.delete_image(a);
    r.delete_image(a);
    r.delete_image(ImageId { index: 99 });
    assert_eq!(r.texture_size(a), (0, 0));
    assert_eq!(r.texture_size(b), (3, 1));
    assert_eq!(r.texture_type(b), Some(TextureType::Rgba));
    let c = r.create_image(&rgba(1, 1, 0), ImageFlags::empty()).unwrap();
    assert_ne!(c, a);
    assert_eq!(r.texture_size(a), (0, 0));
}

#[test]
fn flags_are_kept_and_default_for_invalid_ids() {
    let mut r = SoftwareRenderer::new();
    let flags = ImageFlags::from_bits(ImageFlags::PREMULTIPLIED | ImageFlags::NEAREST);
    let id = r.create_image(&rgba(1, 1, 0), flags).unwrap();
    assert_eq!(r.texture_flags(id), flags);
    assert!(r.texture_flags(id).contains(ImageFlags::from_bits(ImageFlags::NEAREST)));
    assert!(!r.texture_flags(id).contains(ImageFlags::from_bits(ImageFlags::FLIP_Y)));
    assert_eq!(r.texture_flags(ImageId { index: 3 }), ImageFlags::empty());
}

#[test]
fn create_rejects_unsupported_sizes() {
    let mut r = SoftwareRenderer::new();
    assert_eq!(r.create_image(&rgba(0, 2, 0), ImageFlags::empty()), Err(ImageError::UnsupportedSize));
    let wide = Image { width: MAX_TEXTURE_SIZE + 1, height: 1, format: TextureType::Alpha, data: vec![] };
    assert_eq!(r.create_image(&wide, ImageFlags::empty()), Err(ImageError::UnsupportedSize));
    let widest = Image { width: MAX_TEXTURE_SIZE, height: 1, format: TextureType::Alpha, data: vec![0; MAX_TEXTURE_SIZE as usize] };
    assert!(r.create_image(&widest, ImageFlags::empty()).is_ok());
}

#[test]
fn create_rejects_wrong_data_length() {
    let mut r = SoftwareRenderer::new();
    let img = Image { width: 2, height: 2, format: TextureType::Rgb, data: vec![0; 11] };
    assert_eq!(r.create_image(&img, ImageFlags::empty()), Err(ImageError::DataSizeMismatch));
    let img = Image { width: 2, height: 2, format: TextureType::Rgb, data: vec![0; 12] };
    assert_eq!(r.create_image(&img, ImageFlags::empty()), Ok(ImageId { index: 0 }));
}
