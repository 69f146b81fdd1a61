use bulk_watermark::presets::{
    is_valid_preset_id, preset_file_name, preset_id_allowed, sort_presets_by_name,
};
use bulk_watermark::types::PresetMetadata;

#[test]
fn preset_ids() {
    assert!(is_valid_preset_id("corner-logo_2"));
    assert!(is_valid_preset_id("größe"));
    assert!(is_valid_preset_id(""));
    assert!(!is_valid_preset_id("../secret"));
    assert!(!is_valid_preset_id("a b"));
    assert!(!is_valid_preset_id("a/b"));
}

#[test]
fn preset_id_with_given_flags() {
    assert!(preset_id_allowed("a-b", &vec![true, false, true]));
    assert!(!preset_id_allowed("a.b", &vec![true, false, true]));
    assert!(preset_id_allowed("x_", &vec![true, false]));
}

#[test]
fn preset_file_names() {
    assert_eq!(preset_file_name("bold"), "bold.json");
}

fn preset(id: &str, name: &str) -> PresetMetadata {
    PresetMetadata { id: id.to_string(), name: name.to_string(), description: String::new() }
}

#[test]
fn presets_sorted_by_name() {
    let sorted = sort_presets_by_name(vec![
        preset("c", "Corner"),
        preset("a", "Bold"),
        preset("z", "Ärger"),
        preset("b", "Banner"),
        preset("e", ""),
        preset("d", "Bold Big"),
    ]);
    let names: Vec<&str> = sorted.iter().map(|p| p.name.as_str()).collect();
    assert_eq!(names, vec!["", "Banner", "Bold", "Bold Big", "Corner", "Ärger"]);
    assert!(sort_presets_by_name(Vec::new()).is_empty());
}
