use webserver::chars::{
    append_chars, chars_between, chars_equal, from_chars, is_whitespace, split_chars, split_words,
    to_chars,
};
use webserver::textmap::{compare_bytes, compare_text, Order, TextMap};

fn keys_of(map: &TextMap<i32>) -> Vec<String> {
    (0..map.len()).map(|i| map.key_at(i).clone()).collect()
}

fn texts(pieces: &[Vec<char>]) -> Vec<String> {
    pieces.iter().map(|p| p.iter().collect()).collect()
}

#[test]
fn new_map_is_empty() {
    let map: TextMap<i32> = TextMap::new();
    assert_eq!(map.len(), 0);
    assert_eq!(map.get("a"), None);
    assert!(!map.contains_key(""));
}

#[test]
fn insert_keeps_keys_in_byte_order() {
    let mut map: TextMap<i32> = TextMap::new();
    for (i, key) in ["delta", "alpha", "charlie", "bravo", "Zulu", "", "alphabet"].iter().enumerate()
    {
        map.insert(key.to_string(), i as i32);
    }
    assert_eq!(keys_of(&map), vec!["", "Zulu", "alpha", "alphabet", "bravo", "charlie", "delta"]);
    assert_eq!(map.get("alpha"), Some(&1));
    assert_eq!(map.get("Zulu"), Some(&4));
    assert_eq!(map.get(""), Some(&5));
    assert_eq!(map.get("zulu"), None);
    assert_eq!(*map.value_at(2), 1);
    assert_eq!(map.position("bravo"), Some(4));
    assert_eq!(map.position("echo"), None);
}

#[test]
fn insert_replaces_the_value_of_a_key() {
    let mut map: TextMap<i32> = TextMap::new();
    map.insert("a".to_string(), 1);
    map.insert("b".to_string(), 2);
    map.insert("a".to_string(), 3);
    assert_eq!(map.len(), 2);
    assert_eq!(map.get("a"), Some(&3));
    assert_eq!(map.get("b"), Some(&2));
    assert!(map.contains_key("a"));
}

#[test]
fn map_orders_as_a_sorted_tree_does() {
    let keys = ["é", "e", "z", "ab", "a", "B", "10", "9", "€", "😀", "ä"];
    let mut map: TextMap<i32> = TextMap::new();
    let mut tree = std::collections::BTreeMap::new();
    for (i, key) in keys.iter().enumerate() {
        map.insert(key.to_string(), i as i32);
        tree.insert(key.to_string(), i as i32);
    }
    let expected: Vec<String> = tree.keys().cloned().collect();
    assert_eq!(keys_of(&map), expected);
}

#[test]
fn compare_orders_bytes_lexicographically() {
    assert_eq!(compare_bytes(b"a", b"b"), Order::Before);
    assert_eq!(compare_bytes(b"b", b"a"), Order::After);
    assert_eq!(compare_bytes(b"a", b"a"), Order::Same);
    assert_eq!(compare_bytes(b"", b""), Order::Same);
    assert_eq!(compare_bytes(b"", b"a"), Order::Before);
    assert_eq!(compare_bytes(b"ab", b"a"), Order::After);
    assert_eq!(compare_bytes(&[0xff], &[0x00, 0xff]), Order::After);
    assert_eq!(compare_text("abc", "abd"), Order::Before);
    assert_eq!(compare_text("abc", "abc"), Order::Same);
    assert_eq!(compare_text("é", "z"), Order::After);
}

#[test]
fn chars_round_trip_through_strings() {
    for s in ["", "hello", "grüß €", "a\tb\n", "😀"] {
        let chars = to_chars(s);
        assert_eq!(chars, s.chars().collect::<Vec<char>>());
        assert_eq!(from_chars(&chars), s);
    }
    let mut s = String::from("ab");
    append_chars(&mut s, &['c', 'é']);
    assert_eq!(s, "abcé");
}

#[test]
fn split_gives_the_pieces_between_separators() {
    assert_eq!(texts(&split_chars(&to_chars("a,b,c"), ',')), vec!["a", "b", "c"]);
    assert_eq!(texts(&split_chars(&to_chars(""), ',')), vec![""]);
    assert_eq!(texts(&split_chars(&to_chars(","), ',')), vec!["", ""]);
    assert_eq!(texts(&split_chars(&to_chars("a,,b,"), ',')), vec!["a", "", "b", ""]);
    assert_eq!(texts(&split_chars(&to_chars("abc"), ',')), vec!["abc"]);
}

#[test]
fn split_agrees_with_the_standard_split() {
    for s in ["", "a", "=", "a=b", "a==b", "=a=", "key=value=more", "===="] {
        let expected: Vec<String> = s.split('=').map(|p| p.to_string()).collect();
        assert_eq!(texts(&split_chars(&to_chars(s), '=')), expected);
    }
}

#[test]
fn words_are_the_runs_without_white_space() {
    assert_eq!(
        texts(&split_words(&to_chars("GET /index.html HTTP/1.1"))),
        vec!["GET", "/index.html", "HTTP/1.1"]
    );
    assert_eq!(texts(&split_words(&to_chars("  a \t b\r\n"))), vec!["a", "b"]);
    assert_eq!(texts(&split_words(&to_chars(""))), Vec::<String>::new());
    assert_eq!(texts(&split_words(&to_chars(" \t\n"))), Vec::<String>::new());
    assert_eq!(texts(&split_words(&to_chars("a\u{a0}b\u{3000}c"))), vec!["a", "b", "c"]);
}

#[test]
fn white_space_is_what_the_standard_library_takes_for_it() {
    for n in 0u32..0x3100 {
        if let Some(c) = char::from_u32(n) {
            assert_eq!(is_whitespace(c), c.is_whitespace());
        }
    }
    assert!(!is_whitespace('😀'));
}

#[test]
fn chars_are_compared_and_cut() {
    assert!(chars_equal(&['a', 'b'], &['a', 'b']));
    assert!(!chars_equal(&['a', 'b'], &['a', 'c']));
    assert!(!chars_equal(&['a'], &['a', 'b']));
    assert_eq!(chars_between(&['a', 'b', 'c', 'd'], 1, 3), vec!['b', 'c']);
    assert_eq!(chars_between(&['a', 'b'], 1, 1), Vec::<char>::new());
    assert_eq!(chars_between(&['a', 'b'], 0, 2), vec!['a', 'b']);
}
