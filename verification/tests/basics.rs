use agentssh::json::{Fields, Json};
use agentssh::number::{decimal_text, hexadecimal_text, parse_u16, parse_u64};
use agentssh::sorted::SortedMap;
use agentssh::text::{
    join, lines, replace_text, split_on, split_whitespace, strip_prefix, trim,
};

#[test]
fn texts_are_split_as_expected() {
    assert_eq!(split_whitespace("  a\tb\u{3000}c \n"), vec!["a", "b", "c"]);
    assert_eq!(lines("a\r\nb\n\nc\r"), vec!["a", "b", "", "c\r"]);
    assert_eq!(lines(""), Vec::<String>::new());
    assert_eq!(split_on("a,,b,", ','), vec!["a", "", "b", ""]);
    assert_eq!(split_on("", ','), vec![""]);
    assert_eq!(trim("\u{a0} x y \r\n"), "x y");
    assert_eq!(strip_prefix("~/x", "~/").as_deref(), Some("x"));
    assert_eq!(strip_prefix("~", "~/"), None);
    assert_eq!(join(&vec!["a".to_string(), "b".to_string()], ", "), "a, b");
    assert_eq!(replace_text("a.b.c", ".", "--"), "a--b--c");
}

#[test]
fn splitting_agrees_with_the_standard_library() {
    for s in ["", " ", "a b", "\u{85}x\u{2028}y\u{202f}", "a\r\n\r\nb", "\n", "x\n\r"] {
        let words: Vec<String> = s.split_whitespace().map(|w| w.to_string()).collect();
        assert_eq!(split_whitespace(s), words);
        let all: Vec<String> = s.lines().map(|l| l.to_string()).collect();
        assert_eq!(lines(s), all);
        assert_eq!(trim(s), s.trim());
        assert_eq!(replace_text(s, "a", "bb"), s.replace("a", "bb"));
        assert_eq!(replace_text(s, "", "-"), s.replace("", "-"));
    }
}

#[test]
fn numbers_are_written_and_read() {
    assert_eq!(decimal_text(0), "0");
    assert_eq!(decimal_text(u128::MAX), u128::MAX.to_string());
    assert_eq!(hexadecimal_text(0xbeef), "beef");
    assert_eq!(hexadecimal_text(0), "0");
    assert_eq!(parse_u16("65535"), Some(65535));
    for s in ["65536", "", "+", "-1", " 1", "1_0", "\u{661}"] {
        assert_eq!(parse_u16(s), None);
    }
    assert_eq!(parse_u16("+007"), Some(7));
    assert_eq!(parse_u64("18446744073709551615"), Some(u64::MAX));
    assert_eq!(parse_u64("18446744073709551616"), None);
}

#[test]
fn sorted_map_lists_its_keys_in_order() {
    let mut map = SortedMap::new();
    for (i, key) in ["s2", "s10", "", "s1", "\u{e9}", "s1"].iter().enumerate() {
        map.insert(key.to_string(), i);
    }
    assert_eq!(map.keys(), vec!["", "s1", "s10", "s2", "\u{e9}"]);
    assert_eq!(map.len(), 5);
    assert_eq!(map.get("s1"), Some(&5));
    assert_eq!(map.remove("s10"), Some(1));
    assert_eq!(map.remove("s10"), None);
    assert!(!map.contains_key("s10") && map.contains_key(""));
}

#[test]
fn json_fields_are_found_by_name() {
    let mut fields = Fields::new();
    fields.put_text("name", "x");
    fields.put_u64("size", u64::MAX);
    fields.put_i32("code", Some(-1));
    fields.put_i32("none", None);
    fields.put_bool("name", true);
    let value = fields.object();
    assert_eq!(value.get("name").unwrap().as_str(), Some("x"));
    assert_eq!(value.get("size").unwrap().as_u64(), Some(u64::MAX));
    assert_eq!(value.get("code").unwrap().as_u64(), None);
    assert_eq!(value.get("none"), Some(&Json::Null));
    assert_eq!(value.get("other"), None);
    assert_eq!(Json::Int(5).as_u64(), Some(5));
    assert_eq!(Json::Bool(true).as_bool(), Some(true));
    assert!(Json::Null.get("x").is_none() && Json::Null.as_array().is_none());
}
