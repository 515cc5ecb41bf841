use vn_config::{load, parse_backgrounds, parse_characters, parse_fonts, parse_text_configs};
use vn_config::{AppConfig, LoadError};

fn ok(s: &str) -> Result<String, String> {
    Ok(s.to_string())
}

const CHARA: &str = "mahoshojo:\n  alice:\n    full_name: \"Alice\"\n    emotion_count: 5\n    font: \"main\"\n";
const BACKGROUNDS: &str = "backgrounds:\n  school:\n    name: \"School\"\n    file: \"school.png\"\n    variants:\n      night:\n        name: \"School at night\"\n        file: \"school_night.png\"\n  park:\n    name: \"Park\"\n    file: \"park.png\"\n";
const FONTS: &str = "fonts:\n  main:\n    name: \"Main font\"\n    file: \"main.ttf\"\n";
const TEXTS: &str = "text_configs:\n  intro:\n    - text: \"Hi\"\n      position: [10, 20]\n      font_color: [255, 0, 0]\n      font_size: 12.0\n";

fn load_all() -> AppConfig {
    load(ok(CHARA), ok(BACKGROUNDS), ok(FONTS), ok(TEXTS)).expect("well-formed documents load")
}

#[test]
fn well_formed_documents_load_with_exact_sizes() {
    let cfg = load_all();
    assert_eq!(cfg.characters.len(), 1);
    assert_eq!(cfg.backgrounds.len(), 2);
    assert_eq!(cfg.fonts.len(), 1);
    assert_eq!(cfg.text_configs.len(), 1);
}

#[test]
fn character_fields_are_copied_verbatim() {
    let cfg = load_all();
    let alice = cfg.characters.get("alice").expect("alice is present");
    assert_eq!(alice.full_name, "Alice");
    assert_eq!(alice.emotion_count, 5);
    assert_eq!(alice.font, "main");
    assert!(cfg.characters.get("bob").is_none());
}

#[test]
fn text_config_fields_are_copied_verbatim() {
    let cfg = load_all();
    let intro = cfg.text_configs.get("intro").expect("intro is present");
    assert_eq!(intro.len(), 1);
    assert_eq!(intro[0].text, "Hi");
    assert_eq!(intro[0].position, (10, 20));
    assert_eq!(intro[0].font_color, (255, 0, 0));
    assert_eq!(intro[0].font_size_bits, (12.0f64).to_bits());
}

#[test]
fn round_trip_preserves_each_record() {
    // parse, rebuild an equivalent document out of the parsed fields,
    // parse again: the records come back unchanged
    let first = parse_characters(CHARA).expect("parses");
    let alice = first.get("alice").expect("alice is present");
    let rebuilt = format!(
        "mahoshojo:\n  alice:\n    full_name: \"{}\"\n    emotion_count: {}\n    font: \"{}\"\n",
        alice.full_name, alice.emotion_count, alice.font
    );
    let second = parse_characters(&rebuilt).expect("parses again");
    assert_eq!(first, second);
}

#[test]
fn absent_file_is_an_io_error_whatever_the_rest_holds() {
    let r1 = load(
        Err("chara_meta.yml: not found".to_string()),
        ok(BACKGROUNDS),
        ok(FONTS),
        ok(TEXTS),
    );
    let r2 = load(
        Err("chara_meta.yml: not found".to_string()),
        ok("backgrounds: {{{"),
        Err("fonts.yml: not found".to_string()),
        ok(""),
    );
    let expected = Err(LoadError::IoError("chara_meta.yml: not found".to_string()));
    assert_eq!(r1, expected);
    // the other three inputs play no part in the outcome
    assert_eq!(r2, expected);
}

#[test]
fn later_absent_file_reports_its_own_cause() {
    let r = load(
        ok(CHARA),
        ok(BACKGROUNDS),
        Err("fonts.yml: permission denied".to_string()),
        ok(TEXTS),
    );
    assert_eq!(
        r,
        Err(LoadError::IoError("fonts.yml: permission denied".to_string()))
    );
}

#[test]
fn malformed_yaml_is_a_parse_error() {
    let r = load(ok("mahoshojo: [unclosed"), ok(BACKGROUNDS), ok(FONTS), ok(TEXTS));
    assert!(matches!(r, Err(LoadError::ParseError(_))));
}

#[test]
fn missing_top_level_key_is_a_parse_error() {
    let r = parse_fonts("other_key:\n  main:\n    name: \"x\"\n    file: \"y\"\n");
    assert!(matches!(r, Err(LoadError::ParseError(_))));
}

#[test]
fn missing_required_field_is_a_parse_error() {
    let r = parse_characters("mahoshojo:\n  alice:\n    full_name: \"Alice\"\n    font: \"main\"\n");
    assert!(matches!(r, Err(LoadError::ParseError(_))));
}

#[test]
fn background_without_variants_gets_an_empty_variant_mapping() {
    let t = parse_backgrounds(BACKGROUNDS).expect("parses");
    let park = t.get("park").expect("park is present");
    assert_eq!(park.name, "Park");
    assert_eq!(park.file, "park.png");
    assert_eq!(park.variants.len(), 0);
}

#[test]
fn background_with_variants_parses_each_variant() {
    let t = parse_backgrounds(BACKGROUNDS).expect("parses");
    let school = t.get("school").expect("school is present");
    assert_eq!(school.variants.len(), 1);
    let night = school.variants.get("night").expect("night is present");
    assert_eq!(night.name, "School at night");
    assert_eq!(night.file, "school_night.png");
}

#[test]
fn negative_emotion_count_is_a_parse_error() {
    let r = parse_characters(
        "mahoshojo:\n  alice:\n    full_name: \"Alice\"\n    emotion_count: -1\n    font: \"main\"\n",
    );
    assert!(matches!(r, Err(LoadError::ParseError(_))));
}

#[test]
fn oversized_emotion_count_is_a_parse_error() {
    let r = parse_characters(
        "mahoshojo:\n  alice:\n    full_name: \"Alice\"\n    emotion_count: 4294967296\n    font: \"main\"\n",
    );
    assert!(matches!(r, Err(LoadError::ParseError(_))));
}

#[test]
fn accessor_returns_identical_content_twice() {
    let cfg = load_all();
    let first = cfg.get_initial_data();
    let second = cfg.get_initial_data();
    assert_eq!(first, second);
}

#[test]
fn empty_inner_mapping_loads_as_an_empty_table() {
    let t = parse_characters("mahoshojo: {}\n").expect("parses");
    assert_eq!(t.len(), 0);
}

#[test]
fn extra_top_level_keys_are_ignored() {
    let t = parse_fonts("leftover: 3\nfonts:\n  main:\n    name: \"Main font\"\n    file: \"main.ttf\"\n")
        .expect("parses");
    assert_eq!(t.len(), 1);
}

#[test]
fn duplicate_keys_in_a_document_are_a_parse_error() {
    // the YAML reader itself refuses a mapping that binds one key twice
    let r = parse_fonts(
        "fonts:\n  main:\n    name: \"a\"\n    file: \"b\"\n  main:\n    name: \"c\"\n    file: \"d\"\n",
    );
    assert!(matches!(r, Err(LoadError::ParseError(_))));
}

#[test]
fn integer_font_size_is_read_as_its_float_value() {
    let t = parse_text_configs(
        "text_configs:\n  intro:\n    - text: \"Hi\"\n      position: [0, 0]\n      font_color: [1, 2, 3]\n      font_size: 12\n",
    )
    .expect("parses");
    let intro = t.get("intro").expect("intro is present");
    assert_eq!(intro[0].font_size_bits, (12.0f64).to_bits());
}

#[test]
fn negative_font_size_keeps_its_value() {
    let t = parse_text_configs(
        "text_configs:\n  intro:\n    - text: \"Hi\"\n      position: [-5, -7]\n      font_color: [1, 2, 3]\n      font_size: -3\n",
    )
    .expect("parses");
    let intro = t.get("intro").expect("intro is present");
    assert_eq!(intro[0].font_size_bits, (-3.0f64).to_bits());
    assert_eq!(intro[0].position, (-5, -7));
}

#[test]
fn fractional_font_size_is_kept_exactly() {
    let t = parse_text_configs(
        "text_configs:\n  intro:\n    - text: \"Hi\"\n      position: [0, 0]\n      font_color: [1, 2, 3]\n      font_size: 12.5\n",
    )
    .expect("parses");
    let intro = t.get("intro").expect("intro is present");
    assert_eq!(intro[0].font_size_bits, (12.5f64).to_bits());
}

#[test]
fn wrong_position_arity_is_a_parse_error() {
    let r = parse_text_configs(
        "text_configs:\n  intro:\n    - text: \"Hi\"\n      position: [10]\n      font_color: [255, 0, 0]\n      font_size: 12.0\n",
    );
    assert!(matches!(r, Err(LoadError::ParseError(_))));
}

#[test]
fn out_of_range_color_channel_is_a_parse_error() {
    let r = parse_text_configs(
        "text_configs:\n  intro:\n    - text: \"Hi\"\n      position: [10, 20]\n      font_color: [256, 0, 0]\n      font_size: 12.0\n",
    );
    assert!(matches!(r, Err(LoadError::ParseError(_))));
}

#[test]
fn unresolved_resource_directory_is_its_own_failure_kind() {
    let e = LoadError::ResourceDirectoryUnresolved;
    assert_ne!(e, LoadError::IoError(String::new()));
    assert_ne!(e, LoadError::ParseError(String::new()));
}
