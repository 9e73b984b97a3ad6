use photomosaic::data_reader::{
    check_image_extension, check_json_extension, sort_atlas_entries, supported_extensions,
    AtlasEntry, ExtensionError,
};

fn entry(x: u32, width: u32, height: u32) -> AtlasEntry {
    AtlasEntry { x, y: 0, width, height, rotated: 0 }
}

#[test]
fn entries_sorted_largest_first_and_stably() {
    let v = vec![entry(0, 2, 2), entry(1, 3, 3), entry(2, 4, 1), entry(3, 1, 1)];
    let s = sort_atlas_entries(&v);
    let xs: Vec<u32> = s.iter().map(|e| e.x).collect();
    assert_eq!(xs, vec![1, 0, 2, 3]);
}

#[test]
fn sorting_empty_and_single() {
    assert!(sort_atlas_entries(&Vec::new()).is_empty());
    let big = vec![entry(9, u32::MAX, u32::MAX)];
    assert_eq!(sort_atlas_entries(&big), big);
}

#[test]
fn image_extensions() {
    assert_eq!(check_image_extension(Some("png")), Ok(()));
    assert_eq!(check_image_extension(Some("PNG")), Ok(()));
    assert_eq!(check_image_extension(Some("WebP")), Ok(()));
    assert_eq!(check_image_extension(Some("jpg")), Ok(()));
    assert_eq!(check_image_extension(Some("jpeg")), Err(ExtensionError::Unsupported));
    assert_eq!(check_image_extension(Some("gif")), Err(ExtensionError::Unsupported));
    assert_eq!(check_image_extension(None), Err(ExtensionError::Missing));
}

#[test]
fn json_extension() {
    assert_eq!(check_json_extension(Some("json")), Ok(()));
    assert_eq!(check_json_extension(Some("JSON")), Ok(()));
    assert_eq!(check_json_extension(Some("txt")), Err(ExtensionError::Unsupported));
    assert_eq!(check_json_extension(None), Err(ExtensionError::Missing));
}

#[test]
fn supported_extension_list() {
    assert_eq!(supported_extensions(), vec!["png", "webp", "jpg"]);
}
