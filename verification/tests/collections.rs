use kovaaks_rpc::table::NameMap;
use kovaaks_rpc::text::{
    blank, chars_of, decimal_string, find_chars, has_infix, has_prefix, has_suffix, matches_at, rfind_chars, same_text,
    slice_of, string_of, stripped_len,
};

fn chars(s: &str) -> Vec<char> {
    s.chars().collect()
}

#[test]
fn name_map_keeps_the_order_of_first_insertion() {
    let mut m: NameMap<i64> = NameMap::new();
    assert!(m.is_empty());
    m.insert("b", 1);
    m.insert("a", 2);
    m.insert("b", 3);
    assert_eq!(m.len(), 2);
    assert_eq!(m.name_at(0), "b");
    assert_eq!(*m.value_at(0), 3);
    assert_eq!(m.name_at(1), "a");
    assert_eq!(m.position("a"), Some(1));
    assert_eq!(m.position("c"), None);
    assert_eq!(m.get("b"), Some(&3));
    assert_eq!(m.get("B"), None);
    assert!(m.contains_key("a"));
    assert!(!m.contains_key(""));
    let copy = m.duplicate();
    m.insert("c", 9);
    assert_eq!(copy.len(), 2);
    assert_eq!(copy.name_at(0), "b");
    assert_eq!(copy.get("b"), Some(&3));
    assert_eq!(copy.get("a"), Some(&2));
}

#[test]
fn text_search_finds_first_and_last_places() {
    let hay = chars("abcabcab");
    assert_eq!(find_chars(&hay, &chars("bc")), Some(1));
    assert_eq!(rfind_chars(&hay, &chars("bc")), Some(4));
    assert_eq!(find_chars(&hay, &chars("ab")), Some(0));
    assert_eq!(rfind_chars(&hay, &chars("ab")), Some(6));
    assert_eq!(find_chars(&hay, &chars("")), Some(0));
    assert_eq!(rfind_chars(&hay, &chars("")), Some(8));
    assert_eq!(find_chars(&hay, &chars("x")), None);
    assert_eq!(rfind_chars(&hay, &chars("abcabcabc")), None);
    assert!(matches_at(&hay, &chars("cab"), 2));
    assert!(!matches_at(&hay, &chars("cab"), 3));
    assert!(!matches_at(&hay, &chars("ab"), 7));
    assert!(has_prefix(&hay, &chars("abc")) && !has_prefix(&hay, &chars("bc")));
    assert!(has_suffix(&hay, &chars("cab")) && !has_suffix(&hay, &chars("abc")));
    assert!(has_infix(&hay, &chars("ca")) && !has_infix(&hay, &chars("cc")));
}

#[test]
fn text_slices_and_strips() {
    let v = chars("héllo wörld");
    assert_eq!(chars_of("héllo wörld"), v);
    assert_eq!(string_of(&v, 1, 5), "éllo");
    assert_eq!(slice_of(&v, 6, 11), chars("wörld"));
    assert_eq!(stripped_len(&chars("a.csv.csv"), &chars(".csv")), 1);
    assert_eq!(stripped_len(&chars(".csv"), &chars(".csv")), 0);
    assert_eq!(stripped_len(&chars("a.csvx"), &chars(".csv")), 6);
    assert!(same_text("abc", "abc") && !same_text("abc", "abd"));
    assert!(blank("") && blank(" \t\r\n") && blank("\u{a0}\u{3000}") && !blank(" x "));
    assert_eq!(decimal_string(0), "0");
    assert_eq!(decimal_string(9), "9");
    assert_eq!(decimal_string(10), "10");
    assert_eq!(decimal_string(u64::MAX), "18446744073709551615");
}
