use std::collections::BTreeMap;

use chatlog::tags::{frame_entries, tag_map_of, tags_to_map, Tag, TagMap};
use chatlog::text::{join, ron_quoted, str_equal, str_less, to_chars};

fn tag(key: &str, value: Option<&str>) -> Tag {
    Tag(key.to_string(), value.map(|v| v.to_string()))
}

fn pair(key: &str, value: &str) -> (String, String) {
    (key.to_string(), value.to_string())
}

fn btree(pairs: &[(&str, &str)]) -> BTreeMap<String, String> {
    let mut map = BTreeMap::new();
    for (k, v) in pairs {
        map.insert(k.to_string(), v.to_string());
    }
    map
}

fn tag_map(pairs: &[(&str, &str)]) -> TagMap {
    let mut map = TagMap::new();
    for (k, v) in pairs {
        map.insert(k.to_string(), v.to_string());
    }
    map
}

const SAMPLES: [&[(&str, &str)]; 7] = [
    &[],
    &[("id", "1")],
    &[("b", "2"), ("a", "1"), ("c", "3")],
    &[("display-name", "Alice"), ("color", "#FF0000"), ("emotes", ""), ("badges", "a/1,b/2")],
    &[("quote", "say \"hi\""), ("back\\slash", "a\\b"), ("apostrophe", "it's")],
    &[("line", "one\ntwo\r\n"), ("tab", "a\tb"), ("nul", "\u{0}"), ("bell", "\u{7}")],
    &[("é", "ü"), ("z", "last ascii"), ("日本", "語"), ("Z", "capital"), ("", "empty key")],
];

#[test]
fn no_tag_list_gives_empty_map() {
    let map = tags_to_map(None);
    assert_eq!(map.to_pairs(), Vec::new());
    assert_eq!(map.to_ron(), "{}");
}

#[test]
fn empty_tag_list_gives_empty_map() {
    let map = tags_to_map(Some(Vec::new()));
    assert_eq!(map.to_pairs(), Vec::new());
    assert_eq!(map, TagMap::new());
}

#[test]
fn tag_without_value_maps_to_empty_string() {
    let map = tags_to_map(Some(vec![tag("flag", None)]));
    assert_eq!(map.to_pairs(), vec![pair("flag", "")]);
    assert_eq!(map.get("flag"), Some(&String::new()));
    assert_eq!(map.to_ron(), "{\"flag\":\"\"}");
}

#[test]
fn entries_are_kept_sorted_by_key() {
    let map = tags_to_map(Some(vec![
        tag("id", Some("1")),
        tag("color", Some("red")),
        tag("mod", None),
        tag("badges", Some("x")),
    ]));
    assert_eq!(
        map.to_pairs(),
        vec![pair("badges", "x"), pair("color", "red"), pair("id", "1"), pair("mod", "")]
    );
}

#[test]
fn later_tag_replaces_earlier_tag_with_same_key() {
    let map = tags_to_map(Some(vec![
        tag("k", Some("first")),
        tag("other", Some("x")),
        tag("k", Some("second")),
    ]));
    assert_eq!(map.to_pairs(), vec![pair("k", "second"), pair("other", "x")]);
    let by_std: BTreeMap<String, String> = vec![pair("k", "first"), pair("other", "x"), pair("k", "second")]
        .into_iter()
        .collect();
    assert_eq!(map.to_pairs(), by_std.into_iter().collect::<Vec<_>>());
}

#[test]
fn borrowed_and_owned_tags_build_the_same_map() {
    let tags = Some(vec![tag("b", Some("2")), tag("a", None)]);
    assert_eq!(tag_map_of(&tags), tags_to_map(tags.clone()));
}

#[test]
fn get_finds_present_keys_only() {
    let map = tag_map(&[("b", "2"), ("a", "1"), ("c", "3")]);
    assert_eq!(map.get("a"), Some(&"1".to_string()));
    assert_eq!(map.get("b"), Some(&"2".to_string()));
    assert_eq!(map.get("c"), Some(&"3".to_string()));
    assert_eq!(map.get("d"), None);
    assert_eq!(map.get(""), None);
    assert_eq!(map.get("aa"), None);
}

#[test]
fn insert_replaces_value_of_present_key() {
    let mut map = tag_map(&[("a", "1"), ("b", "2")]);
    map.insert("a".to_string(), "9".to_string());
    assert_eq!(map.to_pairs(), vec![pair("a", "9"), pair("b", "2")]);
}

#[test]
fn clone_holds_the_same_entries() {
    let map = tag_map(&[("b", "2"), ("a", "1")]);
    let copy = map.clone();
    assert_eq!(copy, map);
    assert_eq!(copy.to_ron(), "{\"a\":\"1\",\"b\":\"2\"}");
}

#[test]
fn map_is_the_same_whatever_the_order_of_the_tags() {
    let orders: [[usize; 3]; 6] =
        [[0, 1, 2], [0, 2, 1], [1, 0, 2], [1, 2, 0], [2, 0, 1], [2, 1, 0]];
    let tags = [tag("id", Some("1")), tag("color", None), tag("badges", Some("a,b"))];
    let expected = tags_to_map(Some(tags.to_vec()));
    for order in orders {
        let shuffled: Vec<Tag> = order.iter().map(|&i| tags[i].clone()).collect();
        let map = tags_to_map(Some(shuffled));
        assert_eq!(map, expected);
        assert_eq!(map.to_ron(), "{\"badges\":\"a,b\",\"color\":\"\",\"id\":\"1\"}");
    }
}

#[test]
fn single_entry_is_written_without_separator() {
    assert_eq!(tag_map(&[("id", "1")]).to_ron(), "{\"id\":\"1\"}");
}

#[test]
fn text_is_what_ron_writes_for_the_same_map() {
    for sample in SAMPLES {
        let expected = ron::to_string(&btree(sample)).unwrap();
        assert_eq!(tag_map(sample).to_ron(), expected);
    }
}

#[test]
fn text_parses_back_to_the_same_map() {
    for sample in SAMPLES {
        let text = tag_map(sample).to_ron();
        let parsed: BTreeMap<String, String> = ron::from_str(&text).unwrap();
        assert_eq!(parsed, btree(sample));
        let again: Vec<(String, String)> = parsed.into_iter().collect();
        assert_eq!(again, tag_map(sample).to_pairs());
    }
}

#[test]
fn text_parses_back_whatever_the_order_of_entry() {
    let forward = tag_map(&[("a", "1"), ("b", "\"2\""), ("c", "3\\")]);
    let backward = tag_map(&[("c", "3\\"), ("b", "\"2\""), ("a", "1")]);
    assert_eq!(forward.to_ron(), backward.to_ron());
    let parsed: BTreeMap<String, String> = ron::from_str(&backward.to_ron()).unwrap();
    assert_eq!(parsed, btree(&[("a", "1"), ("b", "\"2\""), ("c", "3\\")]));
}

#[test]
fn debug_text_is_what_rust_writes_for_the_same_map() {
    for sample in SAMPLES {
        assert_eq!(tag_map(sample).to_debug(), format!("{:?}", btree(sample)));
    }
}

#[test]
fn entries_come_out_in_the_order_of_a_sorted_map() {
    for sample in SAMPLES {
        let expected: Vec<(String, String)> = btree(sample).into_iter().collect();
        assert_eq!(tag_map(sample).to_pairs(), expected);
    }
}

#[test]
fn quoting_escapes_quotes_and_backslashes() {
    assert_eq!(ron_quoted("hello"), "\"hello\"");
    assert_eq!(ron_quoted(""), "\"\"");
    assert_eq!(ron_quoted("say \"hi\""), "\"say \\\"hi\\\"\"");
    assert_eq!(ron_quoted("a\\b"), "\"a\\\\b\"");
    assert_eq!(ron_quoted("line\nbreak"), "\"line\\nbreak\"");
}

#[test]
fn framing_puts_separators_between_entries_only() {
    assert_eq!(frame_entries(&Vec::new(), ":", ","), "{}");
    assert_eq!(frame_entries(&vec![pair("k", "v")], ":", ","), "{k:v}");
    assert_eq!(frame_entries(&vec![pair("k", "v"), pair("x", "y")], ":", ","), "{k:v,x:y}");
    assert_eq!(frame_entries(&vec![pair("k", "v"), pair("x", "y")], ": ", ", "), "{k: v, x: y}");
}

#[test]
fn join_puts_separator_between_neighbours() {
    assert_eq!(join(&Vec::new(), ","), "");
    assert_eq!(join(&vec!["a".to_string()], ","), "a");
    assert_eq!(join(&vec!["a".to_string(), "b".to_string(), "c".to_string()], ","), "a,b,c");
    assert_eq!(join(&vec!["".to_string(), "".to_string()], " - "), " - ");
}

#[test]
fn order_of_strings_is_that_of_std() {
    let samples = ["", "a", "A", "ab", "abc", "abd", "b", "é", "z", "日本", "Z", "a\u{0}", "~"];
    for a in samples {
        for b in samples {
            assert_eq!(str_less(a, b), a < b);
            assert_eq!(str_equal(a, b), a == b);
        }
    }
}

#[test]
fn prefix_comes_before_its_extensions() {
    assert!(str_less("", "a"));
    assert!(str_less("ab", "abc"));
    assert!(!str_less("abc", "ab"));
    assert!(!str_less("abc", "abc"));
}

#[test]
fn characters_of_a_string_in_order() {
    assert_eq!(to_chars(""), Vec::<char>::new());
    assert_eq!(to_chars("aé日"), vec!['a', 'é', '日']);
}
