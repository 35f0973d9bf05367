use grunner::icon::{IconData, WireValue};
use grunner::provider::{
    batch_to_deliver, build_result, build_results, capped_ids, desktop_file_name, filter_providers,
    icon_from_desktop_entry, is_blacklisted, parse_ini, search_terms, BackendOutcome, ProviderDescriptor,
    SearchProvider, SearchResult,
};

fn provider(id: &str) -> SearchProvider {
    SearchProvider {
        bus_name: format!("org.example.{}", id),
        object_path: format!("/org/example/{}/SearchProvider", id),
        app_icon: format!("{}-icon", id),
        desktop_id: format!("org.example.{}.desktop", id),
    }
}

fn field(k: &str, v: &str) -> (String, WireValue) {
    (k.to_string(), WireValue::Str(v.to_string()))
}

fn result(id: &str) -> SearchResult {
    SearchResult {
        id: id.to_string(),
        name: id.to_string(),
        description: String::new(),
        icon: None,
        app_icon: String::new(),
        bus_name: "b".to_string(),
        object_path: "/p".to_string(),
    }
}

#[test]
fn parse_ini_reads_version_two_descriptor() {
    let text = "[Shell Search Provider]\n  DesktopId=org.gnome.Nautilus.desktop \nBusName=org.gnome.Nautilus\r\nObjectPath=/org/gnome/Nautilus/SearchProvider\nVersion=2\n";
    let d: ProviderDescriptor = parse_ini(text).expect("descriptor");
    assert_eq!(d.bus_name, "org.gnome.Nautilus");
    assert_eq!(d.object_path, "/org/gnome/Nautilus/SearchProvider");
    assert_eq!(d.desktop_id, "org.gnome.Nautilus.desktop");
}

#[test]
fn parse_ini_rejects_other_versions_and_missing_keys() {
    let v1 = "DesktopId=a.desktop\nBusName=a.b\nObjectPath=/a\nVersion=1\n";
    assert!(parse_ini(v1).is_none());
    let bad = "DesktopId=a.desktop\nBusName=a.b\nObjectPath=/a\nVersion=two\n";
    assert!(parse_ini(bad).is_none());
    let missing = "DesktopId=a.desktop\nObjectPath=/a\nVersion=2\n";
    assert!(parse_ini(missing).is_none());
    assert!(parse_ini("").is_none());
}

#[test]
fn parse_ini_last_value_wins() {
    let text = "BusName=first\nBusName=second\nObjectPath=/a\nDesktopId=x\nVersion=3\nVersion=+2";
    let d = parse_ini(text).expect("descriptor");
    assert_eq!(d.bus_name, "second");
}

#[test]
fn blacklist_filters_by_desktop_id_and_keeps_order() {
    let ps = vec![provider("A"), provider("B"), provider("C")];
    let bl = vec!["org.example.B.desktop".to_string()];
    assert!(is_blacklisted(&bl, &"org.example.B.desktop".to_string()));
    assert!(!is_blacklisted(&bl, &"org.example.A.desktop".to_string()));
    let kept = filter_providers(ps, &bl);
    let ids: Vec<&str> = kept.iter().map(|p| p.desktop_id.as_str()).collect();
    assert_eq!(ids, vec!["org.example.A.desktop", "org.example.C.desktop"]);
}

#[test]
fn desktop_file_name_adds_suffix_once() {
    assert_eq!(desktop_file_name("org.gnome.Nautilus"), "org.gnome.Nautilus.desktop");
    assert_eq!(desktop_file_name("org.gnome.Nautilus.desktop"), "org.gnome.Nautilus.desktop");
    assert_eq!(desktop_file_name(""), ".desktop");
}

#[test]
fn icon_from_desktop_entry_takes_first_icon_line() {
    let entry = "[Desktop Entry]\nName=Files\n  Icon= org.gnome.Nautilus  \nIcon=other\n";
    assert_eq!(icon_from_desktop_entry(entry), Some("org.gnome.Nautilus".to_string()));
    assert_eq!(icon_from_desktop_entry("[Desktop Entry]\nName=x\n"), None);
}

#[test]
fn search_terms_split_on_whitespace() {
    let t = search_terms("  hello\tbig \u{3000}world \n");
    assert_eq!(t, vec!["hello".to_string(), "big".to_string(), "world".to_string()]);
    assert!(search_terms(" \t ").is_empty());
}

#[test]
fn metadata_call_gets_exactly_max_results_ids() {
    let ids: Vec<String> = (0..50).map(|i| format!("id{}", i)).collect();
    let capped = capped_ids(&ids, 20).expect("second call");
    assert_eq!(capped.len(), 20);
    assert_eq!(capped[0], "id0");
    assert_eq!(capped[19], "id19");
}

#[test]
fn no_second_call_without_ids() {
    assert!(capped_ids(&Vec::new(), 20).is_none());
    let few = vec!["a".to_string(), "b".to_string()];
    assert_eq!(capped_ids(&few, 20), Some(few.clone()));
    assert_eq!(capped_ids(&few, 0), Some(Vec::new()));
}

#[test]
fn build_result_applies_fallbacks() {
    let p = provider("A");
    let meta = vec![field("id", "r1")];
    let r = build_result(&meta, &p).expect("result");
    assert_eq!(r.id, "r1");
    assert_eq!(r.name, "r1");
    assert_eq!(r.description, "");
    assert_eq!(r.icon, None);
    assert_eq!(r.app_icon, "A-icon");
    assert_eq!(r.bus_name, "org.example.A");
    assert_eq!(r.object_path, "/org/example/A/SearchProvider");
}

#[test]
fn build_result_reads_all_fields() {
    let p = provider("A");
    let meta = vec![
        field("name", "Report"),
        field("description", "a pdf"),
        (
            "icon".to_string(),
            WireValue::Structure(vec![
                WireValue::Str("file-icon".to_string()),
                WireValue::Dict(vec![(WireValue::Str("file".to_string()), WireValue::Str("file:///tmp/r.png".to_string()))]),
            ]),
        ),
        field("id", "r2"),
    ];
    let r = build_result(&meta, &p).expect("result");
    assert_eq!(r.name, "Report");
    assert_eq!(r.description, "a pdf");
    assert_eq!(r.icon, Some(IconData::File("/tmp/r.png".to_string())));
}

#[test]
fn build_result_needs_a_string_id() {
    let p = provider("A");
    assert!(build_result(&vec![field("name", "x")], &p).is_none());
    assert!(build_result(&vec![("id".to_string(), WireValue::Other)], &p).is_none());
}

#[test]
fn build_results_drops_entries_without_id() {
    let p = provider("A");
    let metas = vec![vec![field("id", "1")], vec![field("name", "no id")], vec![field("id", "3")]];
    let rs = build_results(&metas, &p);
    let ids: Vec<&str> = rs.iter().map(|r| r.id.as_str()).collect();
    assert_eq!(ids, vec!["1", "3"]);
}

#[test]
fn only_non_empty_answers_are_delivered() {
    assert!(batch_to_deliver(BackendOutcome::Answered(Vec::new())).is_none());
    assert!(batch_to_deliver(BackendOutcome::Failed("timed out".to_string())).is_none());
    let b = batch_to_deliver(BackendOutcome::Answered(vec![result("x")])).expect("batch");
    assert_eq!(b.len(), 1);
}

#[test]
fn failing_backend_does_not_block_healthy_ones() {
    let outcomes = vec![
        BackendOutcome::Failed("connection refused".to_string()),
        BackendOutcome::Answered(vec![result("a1"), result("a2")]),
        BackendOutcome::Failed("timed out".to_string()),
        BackendOutcome::Answered(vec![result("c1")]),
    ];
    let delivered: Vec<Vec<SearchResult>> = outcomes.into_iter().filter_map(batch_to_deliver).collect();
    assert_eq!(delivered.len(), 2);
    assert_eq!(delivered[0][1].id, "a2");
    assert_eq!(delivered[1][0].id, "c1");
}
