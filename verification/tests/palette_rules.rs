//! Palette scanning rules and category metadata decoding.
use editor_core::palette::{
    category_display, category_id_of, is_hidden_entry, is_prefab_file, parse_category_meta,
    CategoryMeta, PaletteScanResult,
};

#[test]
fn category_ids_come_from_relative_paths() {
    assert_eq!(category_id_of(""), "root");
    assert_eq!(category_id_of("doors"), "doors");
    assert_eq!(category_id_of("props\\small/chairs"), "props_small_chairs");
    assert_eq!(category_id_of("a/b"), "a_b");
}

#[test]
fn hidden_entries_are_skipped() {
    assert!(is_hidden_entry(".git"));
    assert!(is_hidden_entry("_category.json"));
    assert!(!is_hidden_entry("doors"));
    assert!(!is_hidden_entry(""));
}

#[test]
fn prefab_files_are_recognized_by_suffix() {
    assert!(is_prefab_file("door.prefab.json"));
    assert!(!is_prefab_file("door.json"));
    assert!(!is_prefab_file("prefab.json"));
    assert!(is_prefab_file(".prefab.json"));
}

#[test]
fn decodes_category_metadata() {
    let m = parse_category_meta("{\"name\":\"Doors\",\"icon\":\"door\"}").expect("decodes");
    assert_eq!(m.name, "Doors");
    assert_eq!(m.icon.as_deref(), Some("door"));
    assert_eq!(m.description, None);
}

#[test]
fn metadata_tolerates_null_and_unknown_fields() {
    let m = parse_category_meta(
        "{\"icon\":null,\"name\":\"Props\",\"color\":\"#fff\",\"description\":\"things\"}",
    )
    .expect("decodes");
    assert_eq!(m.name, "Props");
    assert_eq!(m.icon, None);
    assert_eq!(m.description.as_deref(), Some("things"));
}

#[test]
fn metadata_needs_a_name_string() {
    assert!(parse_category_meta("{}").is_none());
    assert!(parse_category_meta("{\"icon\":\"x\"}").is_none());
    assert!(parse_category_meta("{\"name\":7}").is_none());
    assert!(parse_category_meta("{\"name\":\"A\",\"name\":\"B\"}").is_none());
    assert!(parse_category_meta("not json").is_none());
}

#[test]
fn display_prefers_metadata_then_directory_then_id() {
    let meta = CategoryMeta::new(String::from("Doors"), Some(String::from("door")), None);
    let (name, icon) = category_display(Some(&meta), Some(&String::from("doors")), "cat_doors");
    assert_eq!(name, "Doors");
    assert_eq!(icon.as_deref(), Some("door"));

    let (name, icon) = category_display(None, Some(&String::from("doors")), "cat_doors");
    assert_eq!(name, "doors");
    assert_eq!(icon, None);

    let (name, icon) = category_display(None, None, "cat_doors");
    assert_eq!(name, "cat_doors");
    assert_eq!(icon, None);
}

#[test]
fn an_empty_scan_has_no_categories() {
    let r = PaletteScanResult::new();
    assert!(r.categories.is_empty());
    assert!(r.root_categories.is_empty());
}
