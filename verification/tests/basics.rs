//! Text, paths, tables of texts, JSON and plain arithmetic.

use agentfs::arith::divide;
use agentfs::clock::fresh_id;
use agentfs::json::Json;
use agentfs::paths;
use agentfs::strmap::StrMap;
use agentfs::text;
use agentfs::text::Edge;

#[test]
fn texts_are_trimmed_and_split() {
    assert_eq!(text::trim(" \t a b\u{3000}\n"), "a b");
    assert_eq!(text::trim_start("//a/", Edge::Slash), "a/");
    assert_eq!(text::trim_end("//a/", Edge::Slash), "//a");
    assert_eq!(text::trim_edges("//a/", Edge::Slash), "a");
    assert_eq!(text::split_on("a,,b", ','), vec!["a", "", "b"]);
    assert_eq!(text::split_on("", ','), vec![""]);
    assert_eq!(text::keep_nonempty(text::split_on("a,,b", ',')), vec!["a", "b"]);
    assert_eq!(text::take_first_line("a\nb\n"), "a");
    assert_eq!(text::strip_prefix("abc", "ab"), Some("c".to_string()));
    assert_eq!(text::strip_prefix("abc", "b"), None);
    assert!(text::starts_with("abc", "") && text::ends_with("abc", "bc"));
    assert_eq!(text::forward_slashes("a\\b/c"), "a/b/c");
}

#[test]
fn widths_are_those_of_utf8() {
    for t in ["", "a", "\u{7f}\u{80}", "\u{7ff}\u{800}", "\u{ffff}\u{10000}"] {
        assert_eq!(text::byte_len(t), t.len());
    }
    assert_eq!(text::width_of('\u{10ffff}'), 4);
}

#[test]
fn numbers_are_written_and_read() {
    for n in [0, 9, 10, u64::MAX] {
        assert_eq!(text::decimal_u64(n), n.to_string());
        assert_eq!(text::parse_u64(&n.to_string()), Some(n));
    }
    for n in [0, -1, i64::MIN, i64::MAX] {
        assert_eq!(text::decimal_i64(n), n.to_string());
    }
    assert_eq!(text::hex_u64(0xab), format!("{:016x}", 0xab));
    assert_eq!(text::parse_u64("18446744073709551616"), None);
    assert_eq!(text::parse_u64(""), None);
    assert_eq!(text::parse_u64("-1"), None);
}

#[test]
fn texts_are_ordered_as_their_bytes() {
    let mut list: Vec<String> =
        ["b", "a", "ab", "\u{e9}", "A", "", "\u{ffff}", "\u{10000}"].iter().map(|t| t.to_string()).collect();
    let sorted = text::sort_texts(&list);
    list.sort();
    assert_eq!(sorted, list);
    assert!(text::is_less("a", "ab") && !text::is_less("a", "a"));
}

#[test]
fn quotients_go_towards_zero() {
    for (n, d) in [(7, 2), (-7, 2), (i64::MIN, 1), (i64::MAX, 3), (0, 5)] {
        assert_eq!(divide(n, d), n / d);
    }
}

#[test]
fn paths_are_normalized() {
    assert_eq!(paths::normalize_path("/a//b/../c/./"), "/a/c");
    assert_eq!(paths::normalize_path("/.."), "/");
    assert_eq!(paths::split_path("/a/../b"), vec!["b"]);
    assert_eq!(paths::join_path("/", "a"), "/a");
    assert_eq!(paths::join_path("/a", "b"), "/a/b");
    assert_eq!(paths::parent_path("/a/b"), "/a");
    assert_eq!(paths::parent_path("/a"), "/");
    assert_eq!(paths::parent_path("/"), "/");
}

#[test]
fn links_lead_on_from_where_they_lie() {
    assert_eq!(paths::normalize_path(&paths::follow_link("/a/l", "b")), "/a/b");
    assert_eq!(paths::normalize_path(&paths::follow_link("/a/l", "/b")), "/b");
    assert_eq!(paths::normalize_path(&paths::follow_link("/a/l", "../b")), "/b");
}

#[test]
fn tables_hold_one_value_for_a_text() {
    let mut m: StrMap<u8> = StrMap::new();
    assert!(m.is_empty());
    m.insert("a".to_string(), 1);
    m.insert("b".to_string(), 2);
    m.insert("a".to_string(), 3);
    assert_eq!(m.get("a"), Some(&3));
    assert_eq!(m.keys().len(), 2);
    m.retain_keys(&vec!["a".to_string()]);
    assert!(m.contains("a") && !m.contains("b"));
    assert_eq!(m.take("a"), Some(3));
    assert_eq!(m.take("a"), None);
}

#[test]
fn members_are_found_in_objects_alone() {
    let j = Json::Object(vec![("k".to_string(), Json::Text("v".to_string()))]);
    assert_eq!(j.get("k").unwrap().as_str(), Some("v"));
    assert!(j.get("x").is_none());
    assert!(Json::Array(vec![]).get("k").is_none());
    assert_eq!(j.text_member("k"), Some("v".to_string()));
    assert!(Json::Null.is_null() && !j.is_null());
    assert!(matches!(j.clone(), Json::Object(m) if m.len() == 1));
}

#[test]
fn fresh_ids_differ() {
    let a = fresh_id("x-");
    let b = fresh_id("x-");
    assert_ne!(a, b);
    assert!(a.starts_with("x-") && a.len() == 10);
}
