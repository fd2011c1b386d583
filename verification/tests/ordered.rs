use cargo_dirty::ordered::OrderedMap;
use cargo_dirty::raw_line::{decode_line, without_line_ending};
use cargo_dirty::text;

#[test]
fn a_map_keeps_its_keys_in_order_and_once() {
    let mut map: OrderedMap<String, u32> = OrderedMap::new();
    for (key, value) in [("b", 1), ("a", 2), ("ab", 3), ("b", 4), ("", 5)] {
        map.insert(key.to_string(), value);
    }
    assert_eq!(map.len(), 4);
    let entries: Vec<(&str, u32)> =
        (0..4).map(|at| map.entry(at).map(|(key, value)| (key.as_str(), *value)).unwrap()).collect();
    assert_eq!(entries, [("", 5), ("a", 2), ("ab", 3), ("b", 4)]);
    assert!(map.contains_key(&"ab".to_string()));
    assert_eq!(map.get(&"zz".to_string()), None);
    map.remove(&"a".to_string());
    assert_eq!(map.get(&"a".to_string()), None);
    assert_eq!(map.len(), 3);
}

#[test]
fn a_carriage_return_is_dropped_only_in_front_of_a_line_feed() {
    assert_eq!(without_line_ending(b"a\r\n"), b"a");
    assert_eq!(without_line_ending(b"a\n"), b"a");
    assert_eq!(without_line_ending(b"a\r"), b"a\r");
    assert_eq!(without_line_ending(b"a\r\r\n"), b"a\r");
    assert_eq!(without_line_ending(b""), b"");
    assert_eq!(decode_line("gr\u{fc}n\n".as_bytes()), "gr\u{fc}n");
    assert_eq!(decode_line(b"\xff\n"), "\u{fffd}");
}

#[test]
fn text_is_cut_by_characters() {
    assert_eq!(text::trim(" \u{3000}x y\t\n"), "x y");
    assert_eq!(text::trim_start("\u{a0} x "), "x ");
    assert_eq!(text::trim_end(" x\u{85}"), " x");
    assert_eq!(text::split_once("a==b==c", "=="), Some(("a", "b==c")));
    assert_eq!(text::split_once("abc", "=="), None);
    assert_eq!(text::strip_prefix("\u{fc}ber", "\u{fc}"), Some("ber"));
    assert_eq!(text::strip_prefix("uber", "\u{fc}"), None);
    assert!(text::contains("xaxb", "xb"));
    assert_eq!(text::split_word("  one two "), ("one", " two "));
    assert_eq!(text::leading_word_of("serde v1"), "serde");
    assert_eq!(text::leading_word_of(" serde"), "");
}
