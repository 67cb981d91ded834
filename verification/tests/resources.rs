use std::sync::Arc;

use tauri_core::error::Error;
use tauri_core::image::{Image, JsImage};
use tauri_core::resources::{Resource, ResourceTable};

struct Named(&'static str);

impl Resource for Named {
    fn name(&self) -> String {
        self.0.to_string()
    }
}

#[test]
fn added_resources_can_be_taken_back() {
    let mut table: ResourceTable<Named> = ResourceTable::new();
    let a = table.add(Named("a"));
    let b = table.add(Named("b"));
    assert_ne!(a, b);
    assert!(table.has(a) && table.has(b));
    assert_eq!(table.get(a).unwrap().0, "a");
    assert_eq!(table.take(a).unwrap().0, "a");
    assert!(!table.has(a));
    assert_eq!(table.get(a).err(), Some(Error::BadResourceId(a)));
    assert_eq!(table.len(), 1);
}

#[test]
fn names_lists_every_resource_by_id() {
    let mut table: ResourceTable<Named> = ResourceTable::new();
    let a = table.add(Named("a"));
    let b = table.add_arc(Arc::new(Named("b")));
    let names = table.names();
    let mut expected = vec![(a, "a".to_string()), (b, "b".to_string())];
    expected.sort();
    assert_eq!(names, expected);
}

#[test]
fn replace_close_and_clear() {
    let mut table: ResourceTable<Named> = ResourceTable::new();
    let a = table.add(Named("a"));
    table.replace(a, Named("z"));
    assert_eq!(table.get_any(a).unwrap().0, "z");
    assert_eq!(table.close(a), Ok(()));
    assert_eq!(table.close(a), Err(Error::BadResourceId(a)));
    table.add(Named("x"));
    table.clear();
    assert_eq!(table.len(), 0);
    assert!(table.take_any(12345).is_err());
}

#[test]
fn images_from_the_table_or_from_pixels() {
    let mut table: ResourceTable<Image> = ResourceTable::new();
    let rid = table.add(Image::new_owned(vec![1, 2, 3, 4], 1, 1));
    let img = JsImage::Resource(rid).into_img(&table).unwrap();
    assert_eq!((img.rgba(), img.width(), img.height()), (&[1u8, 2, 3, 4][..], 1, 1));
    assert_eq!(JsImage::Resource(rid + 1).into_img(&table).err(), Some(Error::BadResourceId(rid + 1)));
    let px = JsImage::Rgba { rgba: vec![9; 8], width: 2, height: 1 }.into_img(&table).unwrap();
    assert_eq!(px.rgba(), &[9u8; 8][..]);
    assert!(matches!(JsImage::Bytes(vec![1, 2, 3]).into_img(&table), Err(Error::InvalidImage(_))));
}
