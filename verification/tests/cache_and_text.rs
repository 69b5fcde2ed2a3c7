use chat_cats::cache::{Cache, TimeStamped};
use chat_cats::text::{chars_of, join_strs, replace_exec, string_of_range, text_eq, trim_bounds};

#[test]
fn empty_slot() {
    let e: TimeStamped<i64, String> = TimeStamped::empty();
    assert_eq!(e.timestamp, 0);
    assert_eq!(e.value.key, 0);
    assert_eq!(e.value.value, "");
}

#[test]
fn read_after_write() {
    let mut c: Cache<i64, String, 3> = Cache::new();
    assert_eq!(c.get(5), None);
    c.set(5, "five".to_string());
    assert_eq!(c.get(5), Some("five".to_string()));
    c.set(6, "six".to_string());
    assert_eq!(c.get(6), Some("six".to_string()));
    assert_eq!(c.get(5), None);
}

#[test]
fn lookup_of_default_key_finds_unused_slot() {
    let mut c: Cache<i64, String, 2> = Cache::new();
    assert_eq!(c.get(0), Some(String::new()));
}

#[test]
fn replace_takes_occurrences_left_to_right() {
    let s = chars_of("aaaa");
    let p = chars_of("aa");
    assert_eq!(replace_exec(&s, &p, "b"), "bb");
    let s = chars_of("aaa");
    assert_eq!(replace_exec(&s, &p, "b"), "ba");
    let s = chars_of("!!!!!!!");
    let p = chars_of("!!!");
    assert_eq!(replace_exec(&s, &p, ""), "!");
}

#[test]
fn trimming_uses_unicode_white_space() {
    let v = chars_of("\u{3000} \t x y \u{a0}\n");
    let (lo, hi) = trim_bounds(&v);
    assert_eq!(string_of_range(&v, lo, hi), "x y");
    let v = chars_of("   ");
    let (lo, hi) = trim_bounds(&v);
    assert_eq!(string_of_range(&v, lo, hi), "");
}

#[test]
fn join_and_compare() {
    assert_eq!(join_strs(&vec!["a", "b", "c"], ", "), "a, b, c");
    assert_eq!(join_strs(&vec![], ", "), "");
    assert!(text_eq("abc", "abc"));
    assert!(!text_eq("abc", "abd"));
    assert!(!text_eq("ab", "abc"));
}

#[test]
fn storing_a_key_again_keeps_it_once() {
    let mut c: Cache<i64, String, 3> = Cache::new();
    c.set(5, "a".to_string());
    c.set(5, "b".to_string());
    assert_eq!(c.get(5), Some("b".to_string()));
    c.set(6, "c".to_string());
    assert_eq!(c.get(5), None);
    assert_eq!(c.get(6), Some("c".to_string()));
}

#[test]
fn reading_and_writing_with_a_given_clock_reading() {
    let mut c: Cache<i64, String, 2> = Cache::new();
    c.set_at(5, "five".to_string(), Some(100));
    assert_eq!(c.get_at(5, None), Some("five".to_string()));
    c.set_at(6, "six".to_string(), None);
    assert_eq!(c.get_at(6, Some(200)), Some("six".to_string()));
    assert_eq!(c.get_at(5, Some(300)), None);
}
