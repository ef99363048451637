use canvas_graph::cli::parse_done_args;
use canvas_graph::import::{is_dropped_image_file, is_supported_image_path, parse_pasted_paths};
use canvas_graph::jsonpath::{jsonpath_steps, value_at_jsonpath, Json, JsonNumber, PathStep};
use canvas_graph::menu::{menu_item_highlight_segments, menu_item_matches};

fn args(items: &[&str]) -> Vec<String> {
    items.iter().map(|s| s.to_string()).collect()
}

#[test]
fn done_args_take_route_and_summary() {
    let (route, summary) = parse_done_args(args(&["--route", " fix ", "all", " good "])).unwrap();
    assert_eq!(route.as_deref(), Some("fix"));
    assert_eq!(summary, "all  good");
    let (route, _) = parse_done_args(args(&["ok", "--route", "  "])).unwrap();
    assert_eq!(route, None);
    let err = parse_done_args(args(&["--route", "fix"])).unwrap_err();
    assert_eq!(err, "usage: canvas done [--route <route_key>] \"summary\"");
}

#[test]
fn jsonpath_steps_split_on_dots() {
    assert_eq!(
        jsonpath_steps("data.nodes.0..id"),
        vec![
            PathStep::Key("data".to_owned()),
            PathStep::Key("nodes".to_owned()),
            PathStep::Index(0),
            PathStep::Key("id".to_owned()),
        ]
    );
    assert!(jsonpath_steps("").is_empty());
}

fn obj(fields: Vec<(&str, Json)>) -> Json {
    Json::Object(fields.into_iter().map(|(k, v)| (k.to_owned(), v)).collect())
}

fn num(n: u64) -> Json {
    Json::Number(JsonNumber::PosInt(n))
}

#[test]
fn jsonpath_walks_objects_and_arrays() {
    let v = obj(vec![(
        "data",
        obj(vec![
            ("fps", Json::Number(JsonNumber::FloatBits(59.5f64.to_bits()))),
            ("ids", Json::Array(vec![num(3), num(4)])),
        ]),
    )]);
    assert_eq!(
        value_at_jsonpath(&v, "data.fps"),
        Some(&Json::Number(JsonNumber::FloatBits(59.5f64.to_bits())))
    );
    assert_eq!(value_at_jsonpath(&v, "data.ids.1"), Some(&num(4)));
    assert_eq!(value_at_jsonpath(&v, "data.ids.2"), None);
    assert_eq!(value_at_jsonpath(&v, "data.missing"), None);
    assert_eq!(value_at_jsonpath(&v, "data.fps.x"), None);
    assert_eq!(value_at_jsonpath(&v, ""), Some(&v));
}

#[test]
fn jsonpath_skips_empty_parts_and_indexes_only_arrays() {
    let v = obj(vec![(
        "data",
        obj(vec![("items", Json::Array(vec![obj(vec![("id", num(7))])])), ("0", Json::Bool(true))]),
    )]);
    assert_eq!(value_at_jsonpath(&v, "data.items.0.id"), Some(&num(7)));
    let items = match &v {
        Json::Object(fields) => match &fields[0].1 {
            Json::Object(inner) => &inner[0].1,
            _ => panic!("not an object"),
        },
        _ => panic!("not an object"),
    };
    assert_eq!(value_at_jsonpath(&v, "data..items"), Some(items));
    assert_eq!(value_at_jsonpath(&v, "data.nope"), None);
    assert_eq!(value_at_jsonpath(&v, "data.0"), None);
    assert_eq!(value_at_jsonpath(&v, "."), Some(&v));
}

#[test]
fn pasted_paths_are_cleaned() {
    let paths = parse_pasted_paths("  \"/tmp/a.png\"  \r\n\n file:///tmp/b.jpg\n");
    assert_eq!(paths, vec!["/tmp/a.png".to_owned(), "/tmp/b.jpg".to_owned()]);
}

#[test]
fn image_types_are_recognised() {
    assert!(is_supported_image_path("/x/photo.JPG"));
    assert!(is_supported_image_path("a.webp"));
    assert!(!is_supported_image_path("notes.txt"));
    assert!(!is_supported_image_path("png"));
    assert!(is_dropped_image_file("image/heic", None, "x.bin"));
    assert!(is_dropped_image_file("", Some("/a/b.gif"), "x.bin"));
    assert!(!is_dropped_image_file("", Some("/a/b.doc"), "x.png"));
    assert!(is_dropped_image_file("", None, "x.bmp"));
}

#[test]
fn menu_search_matches_case_insensitively() {
    assert!(menu_item_matches("  ", "Anything"));
    assert!(menu_item_matches(" term ", "New Terminal"));
    assert!(menu_item_matches("ÄB", "xäbx"));
    assert!(!menu_item_matches("zzz", "New Terminal"));
}

#[test]
fn menu_highlight_splits_around_keyword() {
    let segs = menu_item_highlight_segments("ab", "xabyab");
    assert_eq!(
        segs,
        vec![
            ("x".to_owned(), false),
            ("ab".to_owned(), true),
            ("y".to_owned(), false),
            ("ab".to_owned(), true),
        ]
    );
    assert_eq!(menu_item_highlight_segments("", "Save"), vec![("Save".to_owned(), false)]);
}
