use grunner::icon::{parse_icon_variant, extract_file, extract_themed, IconData, WireValue};

fn s(x: &str) -> WireValue {
    WireValue::Str(x.to_string())
}

fn boxed(v: WireValue) -> WireValue {
    WireValue::Boxed(Box::new(v))
}

fn themed_payload(names: &[&str]) -> WireValue {
    WireValue::Structure(vec![
        s("themed-icon"),
        WireValue::Dict(vec![(
            s("names"),
            boxed(WireValue::Array(names.iter().map(|n| s(n)).collect())),
        )]),
    ])
}

#[test]
fn themed_icon_payload_decodes_to_first_name() {
    let v = boxed(themed_payload(&["folder", "folder-generic"]));
    assert_eq!(parse_icon_variant(&v), Some(IconData::Themed("folder".to_string())));
}

#[test]
fn themed_icon_skips_empty_names() {
    let v = themed_payload(&["", "text-x-generic"]);
    assert_eq!(parse_icon_variant(&v), Some(IconData::Themed("text-x-generic".to_string())));
}

#[test]
fn themed_icon_without_names_key_uses_any_array() {
    let payload = WireValue::Dict(vec![
        (s("other"), s("not-an-array-but-a-name")),
        (s("icons"), WireValue::Array(vec![s("edit-copy")])),
    ]);
    // the fallback scan takes the first array of names; a bare string is no array
    assert_eq!(extract_themed(&payload), Some(IconData::Themed("edit-copy".to_string())));
    let only_string = WireValue::Dict(vec![(s("k"), s("foo"))]);
    assert_eq!(extract_themed(&only_string), None);
    let names_string = WireValue::Dict(vec![(s("names"), s("folder"))]);
    assert_eq!(extract_themed(&names_string), None);
    let only_array = WireValue::Dict(vec![(s("icons"), WireValue::Array(vec![s("edit-copy")]))]);
    assert_eq!(extract_themed(&only_array), Some(IconData::Themed("edit-copy".to_string())));
}

#[test]
fn file_icon_payload_strips_uri_prefix() {
    let v = WireValue::Structure(vec![
        s("file-icon"),
        WireValue::Dict(vec![(s("file"), boxed(s("file:///tmp/x.png")))]),
    ]);
    assert_eq!(parse_icon_variant(&v), Some(IconData::File("/tmp/x.png".to_string())));
}

#[test]
fn file_icon_plain_path_kept() {
    let payload = WireValue::Dict(vec![(s("file"), s("/usr/share/pixmaps/a.png"))]);
    assert_eq!(extract_file(&payload), Some(IconData::File("/usr/share/pixmaps/a.png".to_string())));
}

#[test]
fn file_icon_without_file_key_uses_first_string() {
    let payload = WireValue::Dict(vec![(s("path"), s("file:///home/u/p.jpg"))]);
    assert_eq!(extract_file(&payload), Some(IconData::File("/home/u/p.jpg".to_string())));
}

#[test]
fn bare_string_is_a_themed_name() {
    assert_eq!(parse_icon_variant(&s("firefox")), Some(IconData::Themed("firefox".to_string())));
    assert_eq!(parse_icon_variant(&boxed(s("firefox"))), Some(IconData::Themed("firefox".to_string())));
}

#[test]
fn string_with_space_or_empty_is_no_icon() {
    assert_eq!(parse_icon_variant(&s("two words")), None);
    assert_eq!(parse_icon_variant(&s("")), None);
}

#[test]
fn unrecognized_shapes_give_no_icon() {
    assert_eq!(parse_icon_variant(&WireValue::Other), None);
    assert_eq!(parse_icon_variant(&WireValue::Array(vec![s("folder")])), None);
    assert_eq!(parse_icon_variant(&WireValue::Dict(vec![(s("names"), s("folder"))])), None);
    let nothing_usable = WireValue::Structure(vec![WireValue::Other, WireValue::Array(vec![s("x")])]);
    assert_eq!(parse_icon_variant(&nothing_usable), None);
    let unknown_tag = WireValue::Structure(vec![s("emblemed-icon"), WireValue::Dict(vec![])]);
    assert_eq!(parse_icon_variant(&unknown_tag), None);
}

#[test]
fn untagged_structure_gives_no_icon() {
    let v = WireValue::Structure(vec![WireValue::Other, s("has space"), s("starred")]);
    assert_eq!(parse_icon_variant(&v), None);
    let short = WireValue::Structure(vec![s("themed-icon")]);
    assert_eq!(parse_icon_variant(&short), None);
}

#[test]
fn boxed_names_in_the_array_count() {
    let payload = WireValue::Dict(vec![(s("names"), WireValue::Array(vec![boxed(s("")), boxed(boxed(s("inbox")))]))]);
    assert_eq!(extract_themed(&payload), Some(IconData::Themed("inbox".to_string())));
}

#[test]
fn themed_tag_with_nothing_usable_gives_no_icon() {
    let v = WireValue::Structure(vec![s("themed-icon"), WireValue::Dict(vec![]), s("fallback")]);
    assert_eq!(parse_icon_variant(&v), None);
}
