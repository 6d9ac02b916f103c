use rekordcrate::device_library_plus::{
    BackgroundColorType, BinaryFlag, Category, CategoryId, Color, ColorId, ContentFileType, Key,
    KeyId, MenuItem, MenuItemId, PlaylistAttribute, Property, Sort, SortId,
};
use rekordcrate::util::{ColorIndex, FileType};

#[test]
fn binary_flag_codes() {
    assert_eq!(BinaryFlag::from(true), BinaryFlag::On);
    assert_eq!(BinaryFlag::from(false), BinaryFlag::Off);
    assert_eq!(BinaryFlag::from(0), BinaryFlag::Off);
    assert_eq!(BinaryFlag::from(1), BinaryFlag::On);
    assert_eq!(BinaryFlag::from(7), BinaryFlag::Other(7));
    assert_eq!(BinaryFlag::Other(7).as_i32(), 7);
    assert_eq!(BinaryFlag::On.as_i32(), 1);
}

#[test]
fn content_file_type_codes() {
    for (code, t) in [
        (0, ContentFileType::Unknown),
        (1, ContentFileType::Mp3),
        (4, ContentFileType::M4a),
        (5, ContentFileType::Flac),
        (11, ContentFileType::Wav),
        (12, ContentFileType::Aiff),
        (3, ContentFileType::Other(3)),
    ] {
        assert_eq!(ContentFileType::from(code), t);
        assert_eq!(t.as_i32(), code);
    }
    assert_eq!(ContentFileType::from(FileType::Wav), ContentFileType::Wav);
    assert_eq!(ContentFileType::from(FileType::Other(99)), ContentFileType::Other(99));
}

#[test]
fn attribute_codes() {
    assert_eq!(PlaylistAttribute::Default.as_i32(), 0);
    assert_eq!(PlaylistAttribute::Other(3).as_i32(), 3);
    assert_eq!(BackgroundColorType::Default.as_i32(), 0);
    assert_eq!(BackgroundColorType::Other(2).as_i32(), 2);
}

#[test]
fn record_constructors() {
    let c = Category::new(CategoryId(1), MenuItemId(2), 3, BinaryFlag::On);
    assert_eq!((c.category_id, c.menu_item_id, c.sequence_no, c.is_visible), (CategoryId(1), MenuItemId(2), 3, 1));
    let s = Sort::new(SortId(4), MenuItemId(5), 6, BinaryFlag::Off, BinaryFlag::On);
    assert_eq!((s.is_visible, s.is_selected_as_sub_column), (0, 1));
    assert_eq!(Color::new(ColorId(1), "Pink".to_string()).name, "Pink");
    assert_eq!(Key::new(KeyId(1), "Dm".to_string()).key_id, KeyId(1));
    assert_eq!(MenuItem::new(MenuItemId(1), 128, "GENRE".to_string()).kind, 128);
    let p = Property::new("CDJ".to_string(), "1000".to_string(), 3, "2025-10-29".to_string(), 9);
    assert_eq!(p.back_ground_color_type, 0);
    assert_eq!(p.my_tag_master_dbid, 9);
}

#[test]
fn color_index_and_file_type_codes() {
    assert_eq!(ColorIndex::from_byte(0), Some(ColorIndex::NoColor));
    assert_eq!(ColorIndex::from_byte(8), Some(ColorIndex::Purple));
    assert_eq!(ColorIndex::from_byte(9), None);
    assert_eq!(ColorIndex::Aqua.to_byte(), 6);
    assert_eq!(FileType::from_code(0xb), FileType::Wav);
    assert_eq!(FileType::from_code(2), FileType::Other(2));
    assert_eq!(FileType::Aiff.code(), 0xc);
}
