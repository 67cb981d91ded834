use tauri_core::image::{alpha_missing, icon_rgba, largest_group_icon_entry as largest, IconResource, Image};

fn directory(sizes: &[(u8, u8)]) -> Vec<u8> {
    let mut directory = vec![0, 0, 1, 0, sizes.len() as u8, 0];
    for (i, (w, h)) in sizes.iter().enumerate() {
        directory.extend_from_slice(&[*w, *h, 0, 0, 1, 0, 32, 0, 0, 0, 0, 0, i as u8 + 1, 0]);
    }
    directory
}

#[test]
fn largest_group_icon_entry() {
    let full = directory(&[(32, 32), (16, 16), (24, 24), (48, 48), (64, 64), (0, 0)]);
    assert_eq!(largest(&full), Some((256, 256)));
    assert_eq!(largest(&directory(&[(16, 16), (48, 48), (32, 32)])), Some((48, 48)));
    assert_eq!(largest(&directory(&[(32, 32)])), Some((32, 32)));
    assert_eq!(largest(&directory(&[])), None);

    let mut oversized = full.clone();
    oversized[4] = 200;
    assert_eq!(largest(&oversized), Some((256, 256)));
    assert_eq!(largest(&full[..20]), Some((32, 32)));
    assert_eq!(largest(&full[..6]), None);
    assert_eq!(largest(&full[..3]), None);
    assert_eq!(largest(&[]), None);
}

#[test]
fn of_equal_areas_the_later_entry_wins() {
    assert_eq!(largest(&directory(&[(16, 64), (64, 16), (32, 32)])), Some((32, 32)));
    assert_eq!(largest(&directory(&[(64, 16), (16, 64)])), Some((16, 64)));
}

#[test]
fn images_keep_their_pixels_and_size() {
    let pixels = [1u8, 2, 3, 4, 5, 6, 7, 8];
    let img = Image::new(&pixels, 2, 1);
    assert_eq!(img.rgba(), &pixels[..]);
    assert_eq!((img.width(), img.height()), (2, 1));
    let owned = img.to_owned();
    assert_eq!(owned.rgba(), &pixels[..]);
    let moved = Image::new_owned(pixels.to_vec(), 1, 2);
    assert_eq!((moved.width(), moved.height()), (1, 2));
}

#[test]
fn png_bytes_are_decoded() {
    let mut buffer = image::RgbaImage::new(2, 1);
    buffer.put_pixel(0, 0, image::Rgba([255, 0, 0, 255]));
    buffer.put_pixel(1, 0, image::Rgba([0, 0, 255, 128]));
    let mut bytes = Vec::new();
    buffer.write_to(&mut std::io::Cursor::new(&mut bytes), image::ImageFormat::Png).unwrap();
    let img = Image::from_bytes(&bytes).unwrap();
    assert_eq!((img.width(), img.height()), (2, 1));
    assert_eq!(img.rgba(), &[255, 0, 0, 255, 0, 0, 255, 128][..]);
    assert!(Image::from_bytes(&bytes[..10]).is_err());
}

#[test]
fn icon_resources() {
    assert_eq!(IconResource::from_id(1), IconResource::Id(1));
    assert_eq!(IconResource::from_name("icon"), IconResource::Name("icon".into()));
}

#[test]
fn icon_pixels_swap_red_and_blue() {
    let bgra = vec![1u8, 2, 3, 4, 5, 6, 7, 8];
    assert!(!alpha_missing(&bgra));
    assert_eq!(icon_rgba(bgra, None), vec![3u8, 2, 1, 4, 7, 6, 5, 8]);
}

#[test]
fn icon_alpha_comes_from_the_mask_when_missing() {
    let bgra = vec![10u8, 20, 30, 0, 40, 50, 60, 0];
    assert!(alpha_missing(&bgra));
    let mask = [0u8, 0, 0, 0, 255, 255, 255, 0];
    assert_eq!(icon_rgba(bgra, Some(&mask)), vec![30u8, 20, 10, 255, 60, 50, 40, 0]);
    assert!(alpha_missing(&[]));
}
