use grunner::bookmarks::{extract_bookmarks_from_node, parse_chrome_bookmarks, Bookmark, JsonNode};

fn obj(members: Vec<(&str, JsonNode)>) -> JsonNode {
    JsonNode::Object(members.into_iter().map(|(k, v)| (k.to_string(), v)).collect())
}

fn s(x: &str) -> JsonNode {
    JsonNode::Str(x.to_string())
}

fn bm(name: &str, url: &str) -> JsonNode {
    obj(vec![("type", s("url")), ("name", s(name)), ("url", s(url))])
}

#[test]
fn folders_are_walked_in_order() {
    let folder = obj(vec![
        ("name", s("bar")),
        ("children", JsonNode::Array(vec![bm("A", "https://a"), obj(vec![("children", JsonNode::Array(vec![bm("B", "https://b")]))]), bm("C", "https://c")])),
    ]);
    let mut out: Vec<Bookmark> = Vec::new();
    extract_bookmarks_from_node(&folder, &mut out);
    let titles: Vec<&str> = out.iter().map(|b| b.title.as_str()).collect();
    assert_eq!(titles, vec!["A", "B", "C"]);
    assert_eq!(out[1].url, "https://b");
}

#[test]
fn incomplete_nodes_are_skipped() {
    let mut out: Vec<Bookmark> = Vec::new();
    extract_bookmarks_from_node(&obj(vec![("url", s("https://x"))]), &mut out);
    extract_bookmarks_from_node(&obj(vec![("name", s("n")), ("url", JsonNode::Other)]), &mut out);
    extract_bookmarks_from_node(&s("loose"), &mut out);
    assert!(out.is_empty());
}

#[test]
fn chrome_document_roots() {
    let doc = obj(vec![
        ("checksum", s("0")),
        ("roots", obj(vec![
            ("bookmark_bar", obj(vec![("children", JsonNode::Array(vec![bm("One", "https://1")]))])),
            ("other", obj(vec![("children", JsonNode::Array(vec![bm("Two", "https://2")]))])),
        ])),
    ]);
    let b = parse_chrome_bookmarks(&doc).expect("roots");
    assert_eq!(b.len(), 2);
    assert_eq!(b[0].title, "One");
    assert_eq!(b[1].url, "https://2");
    assert!(parse_chrome_bookmarks(&obj(vec![("roots", JsonNode::Array(vec![]))])).is_none());
    assert!(parse_chrome_bookmarks(&JsonNode::Other).is_none());
}
