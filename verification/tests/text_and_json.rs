//! Texts, maps and JSON documents.
use aionui_channel::json::{
    as_text, find_member, find_pair, get_member, get_str, list, number, object, parse_opt, text_value, write_json, Json,
    JsonNode,
};
use aionui_channel::text::{
    cat, cat3, cat4, chars_of, contains_text, find_char, i64_text, join, matches_at, parse_i64, parse_u64, parse_usize,
    read_digits, replace, split, split_once, starts_with, str_eq, string_of, trim, trim_tail, truncate_message,
    u64_text,
};
use aionui_channel::text_map::TextMap;

fn decimals_are_read_back() {
    for n in [0u64, 7, 10, 99, 1_000_000_007, u64::MAX] {
        assert_eq!(u64_text(n), n.to_string());
        assert_eq!(parse_u64(&u64_text(n)), Some(n));
    }
    for n in [0i64, -1, 42, i64::MAX, i64::MIN] {
        assert_eq!(i64_text(n), n.to_string());
        assert_eq!(parse_i64(&i64_text(n)), Some(n));
    }
}

fn numbers_are_read_like_rust_reads_them() {
    for s in ["", "+", "-", "+5", "-5", "007", "18446744073709551615", "18446744073709551616", "1a", " 1"] {
        assert_eq!(parse_u64(s), s.parse::<u64>().ok(), "{}", s);
        assert_eq!(parse_i64(s), s.parse::<i64>().ok(), "{}", s);
        assert_eq!(parse_usize(s), s.parse::<usize>().ok(), "{}", s);
    }
    assert_eq!(read_digits(&chars_of("x12y"), 1, 3), Some(12));
    assert_eq!(read_digits(&chars_of("x12y"), 0, 3), None);
}

fn texts_are_cut_and_joined() {
    assert!(str_eq("añ", "añ"));
    assert!(!str_eq("a", "b"));
    assert_eq!(chars_of("aé😀"), vec!['a', 'é', '😀']);
    assert_eq!(string_of(&chars_of("hello"), 1, 3), "el");
    assert_eq!(cat("a", "b"), "ab");
    assert_eq!(cat3("a", "b", "c"), "abc");
    assert_eq!(cat4("a", "b", "c", "d"), "abcd");
    assert!(matches_at(&chars_of("abc"), &chars_of("bc"), 1));
    assert!(!matches_at(&chars_of("abc"), &chars_of("bc"), 2));
    assert!(starts_with("abc", "ab"));
    assert!(!starts_with("abc", "b"));
    assert!(contains_text("abc", "bc"));
    assert!(!contains_text("abc", "cb"));
    assert_eq!(find_char(&chars_of("a:b"), 0, ':'), 1);
    assert_eq!(find_char(&chars_of("ab"), 0, ':'), 2);
    assert_eq!(split_once("a:b:c", ':'), Some(("a".to_string(), "b:c".to_string())));
    assert_eq!(split_once("abc", ':'), None);
    assert_eq!(split("a,,b", ','), vec!["a".to_string(), "".to_string(), "b".to_string()]);
    assert_eq!(split("", ','), vec!["".to_string()]);
    assert_eq!(join(&split("a,,b", ','), ","), "a,,b");
    assert_eq!(replace("aaa", "aa", "b"), "ba");
    assert_eq!(replace("x-y-z", "-", ""), "xyz");
}

fn trimming_follows_rust() {
    for s in ["", "  ", " a ", "\t\na b\u{3000}", "a", "\u{a0}x\u{2009}"] {
        assert_eq!(trim(s), s.trim(), "{:?}", s);
        assert_eq!(trim(&trim(s)), trim(s));
    }
    assert_eq!(trim_tail("http://x//", '/'), "http://x");
    assert_eq!(trim_tail("x", '/'), "x");
}

fn a_cut_text_fits() {
    assert_eq!(truncate_message("hello", 5), "hello");
    assert_eq!(truncate_message("hello", 10), "hello");
    assert_eq!(truncate_message("你好世", 6), "你好世");
    assert_eq!(truncate_message("你好世", 3), "你好世");
    assert_eq!(truncate_message("你好世界", 3), "...");
    assert_eq!(truncate_message("hello", 4), "h...");
    assert_eq!(truncate_message("hello", 1), "...");
    let cut = truncate_message(&"x".repeat(100), 10);
    assert_eq!(cut.chars().count(), 10);
    let wide = truncate_message(&"é".repeat(100), 10);
    assert_eq!(wide.chars().count(), 10);
}

fn maps_keep_the_last_value() {
    let mut m: TextMap<u32> = TextMap::new();
    m.insert("a", 1);
    m.insert("b", 2);
    m.insert("a", 3);
    assert_eq!(m.len(), 2);
    assert_eq!(m.get("a"), Some(&3));
    assert!(m.contains_key("b"));
    assert!(!m.contains_key("c"));
    assert_eq!(m.remove("b"), Some(2));
    assert_eq!(m.remove("b"), None);
    m.insert("d", 9);
    m.retain(|v| *v > 5);
    assert_eq!(m.len(), 1);
    assert_eq!(m.entry(0).0, "d");
}

fn written_json_is_what_serde_json_reads() {
    let doc = object()
        .text("a", "quote \" backslash \\ newline \n é")
        .with("b", list().and(number(1)).and(Json::Int(-2)).and(Json::Null).and(Json::Bool(true)))
        .opt_text("c", None)
        .opt_text("d", Some("x"));
    let text = write_json(&doc);
    let back: serde_json::Value = serde_json::from_str(&text).unwrap();
    assert_eq!(back["a"], "quote \" backslash \\ newline \n é");
    assert_eq!(back["b"][0], 1);
    assert_eq!(back["b"][1], -2);
    assert!(back["b"][2].is_null());
    assert_eq!(back["b"][3], true);
    assert!(back.get("c").is_none());
    assert_eq!(back["d"], "x");
    assert_eq!(text, serde_json::to_string(&back).unwrap());
    assert_eq!(write_json(&text_value("a\"b")), "\"a\\\"b\"");
    for c in (0u32..0x300).filter_map(char::from_u32).chain(['\u{2028}', '😀']) {
        let s = format!("a{c}b");
        assert_eq!(write_json(&text_value(&s)), serde_json::to_string(&s).unwrap());
    }
    assert_eq!(write_json(&text_value("\u{8}\t\n\u{c}\r\u{1f}\u{7f}")), "\"\\b\\t\\n\\f\\r\\u001f\u{7f}\"");
    assert_eq!(doc.get("d").and_then(|j| j.as_str()), Some("x"));
    assert_eq!(doc.get("b").and_then(|j| j.at(0)).and_then(|j| j.as_i64()), Some(1));
    assert!(doc.get("zz").is_none());
}

fn members_are_read() {
    let text = r#"{"s":"é\n","n":7,"m":-7,"f":1.5,"o":{"x":1},"l":[1,"2"],"z":null}"#;
    assert_eq!(get_str(text, "s").as_deref(), Some("é\n"));
    assert!(matches!(get_member(text, "n"), Some(JsonNode::Number)));
    assert!(matches!(get_member(text, "m"), Some(JsonNode::Number)));
    assert!(matches!(get_member(text, "f"), Some(JsonNode::Number)));
    assert_eq!(as_text(get_member(text, "s")).as_deref(), Some("é\n"));
    assert!(as_text(get_member(text, "n")).is_none());
    assert_eq!(get_str(text, "n"), None);
    assert!(matches!(get_member(text, "z"), Some(JsonNode::Null)));
    assert!(get_member(text, "missing").is_none());
    assert!(get_member("not json", "s").is_none());
    assert!(matches!(get_member(text, "l"), Some(JsonNode::List)));
    assert!(matches!(get_member(text, "o"), Some(JsonNode::Object(m)) if m == vec![("x".to_string(), "1".to_string())]));
    let node = parse_opt(&Some(text.to_string()));
    assert_eq!(find_member(&node, "o").as_deref(), Some("{\"x\":1}"));
    assert!(find_member(&None, "o").is_none());
    assert!(parse_opt(&None).is_none());
    let pairs = vec![("a".to_string(), "1".to_string()), ("b".to_string(), "2".to_string())];
    assert_eq!(find_pair(&pairs, "b"), Some("2"));
    assert_eq!(find_pair(&pairs, "c"), None);
}

#[test]
fn texts_are_exact() {
    decimals_are_read_back();
    numbers_are_read_like_rust_reads_them();
    texts_are_cut_and_joined();
    trimming_follows_rust();
    a_cut_text_fits();
}

#[test]
fn json_and_maps_are_exact() {
    maps_keep_the_last_value();
    written_json_is_what_serde_json_reads();
    members_are_read();
}
