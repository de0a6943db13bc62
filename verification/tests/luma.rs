use load_painter::luma::LumaImage;

#[test]
fn image_keeps_the_dimensions_it_was_made_with() {
    let image = LumaImage::new(3, 2, vec![0, 1, 2, 3, 4, 5]).unwrap();
    assert_eq!(image.width(), 3);
    assert_eq!(image.height(), 2);
}

#[test]
fn samples_are_read_row_by_row() {
    let image = LumaImage::new(3, 2, vec![10, 11, 12, 20, 21, 22]).unwrap();
    assert_eq!(image.intensity(0, 0), Some(10));
    assert_eq!(image.intensity(1, 0), Some(11));
    assert_eq!(image.intensity(2, 0), Some(12));
    assert_eq!(image.intensity(0, 1), Some(20));
    assert_eq!(image.intensity(1, 1), Some(21));
    assert_eq!(image.intensity(2, 1), Some(22));
}

#[test]
fn intensity_outside_the_image_is_none() {
    let image = LumaImage::new(3, 2, vec![10, 11, 12, 20, 21, 22]).unwrap();
    assert_eq!(image.intensity(3, 0), None);
    assert_eq!(image.intensity(0, 2), None);
    assert_eq!(image.intensity(2, 2), None);
    assert_eq!(image.intensity(u32::MAX, u32::MAX), None);
}

#[test]
fn too_few_samples_are_refused() {
    assert!(LumaImage::new(3, 2, vec![0, 1, 2, 3, 4]).is_none());
    assert!(LumaImage::new(1, 1, vec![]).is_none());
    assert!(LumaImage::new(u32::MAX, u32::MAX, vec![0; 16]).is_none());
}

#[test]
fn samples_beyond_the_image_are_accepted_and_never_read() {
    let image = LumaImage::new(2, 1, vec![7, 8, 9]).unwrap();
    assert_eq!(image.width(), 2);
    assert_eq!(image.height(), 1);
    assert_eq!(image.intensity(1, 0), Some(8));
    assert_eq!(image.intensity(0, 1), None);
    assert_eq!(image.intensity(2, 0), None);
}

#[test]
fn an_image_may_be_empty() {
    let none = LumaImage::new(0, 0, vec![]).unwrap();
    assert_eq!((none.width(), none.height()), (0, 0));
    assert_eq!(none.intensity(0, 0), None);
    let flat = LumaImage::new(5, 0, vec![]).unwrap();
    assert_eq!((flat.width(), flat.height()), (5, 0));
    let thin = LumaImage::new(0, 5, vec![]).unwrap();
    assert_eq!((thin.width(), thin.height()), (0, 5));
}

#[test]
fn image_agrees_with_the_buffer_of_the_image_crate() {
    let mut buffer = image::GrayImage::new(2, 2);
    buffer.put_pixel(0, 0, image::Luma([0]));
    buffer.put_pixel(1, 0, image::Luma([255]));
    buffer.put_pixel(0, 1, image::Luma([128]));
    buffer.put_pixel(1, 1, image::Luma([64]));
    let (width, height) = buffer.dimensions();
    let image = LumaImage::new(width, height, buffer.clone().into_raw()).unwrap();
    for y in 0..height {
        for x in 0..width {
            assert_eq!(image.intensity(x, y), Some(buffer.get_pixel(x, y).0[0]));
        }
    }
}
