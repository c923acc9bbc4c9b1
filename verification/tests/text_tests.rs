use nasty::scan::{
    contains_chars, lines_of, parse_u32, parse_u64, rsplit_once_chars, split_once_chars, tokens_of, trim_chars,
    ws_tokens_of,
};
use nasty::sorting::{chars_less, insert_key, key_less, sorted_indices, sorted_indices_by_number};
use nasty::text::{
    chars_of, decimal_chars, eq_ignore_ascii_case, lower_chars, push_decimal, string_of, utf8_len_exceeds,
};

fn c(s: &str) -> Vec<char> {
    s.chars().collect()
}

fn strs(v: Vec<Vec<char>>) -> Vec<String> {
    v.into_iter().map(|x| x.into_iter().collect()).collect()
}

#[test]
fn scanning_matches_std_str_behaviour() {
    assert_eq!(trim_chars(&c("  a b \t\n")), c("a b"));
    assert_eq!(split_once_chars(&c("k=v=w"), '='), Some((c("k"), c("v=w"))));
    assert_eq!(split_once_chars(&c("kv"), '='), None);
    assert_eq!(rsplit_once_chars(&c("a/b/c"), '/'), Some((c("a/b"), c("c"))));
    assert_eq!(strs(tokens_of(&c(",a,,b,"), ',')), vec!["a", "b"]);
    assert_eq!(strs(ws_tokens_of(&c("  10 \t 20\n30 "))), vec!["10", "20", "30"]);
    assert_eq!(strs(lines_of(&c("one\r\ntwo\n\nthree"))), vec!["one", "two", "", "three"]);
    assert_eq!(strs(lines_of(&c("x\n"))), vec!["x"]);
    assert!(contains_chars(&c("hello world"), &c("o w")));
    assert!(!contains_chars(&c("hello"), &c("world")));
}

#[test]
fn number_parsing_is_strict_and_bounded() {
    assert_eq!(parse_u32(&c("3000")), Some(3000));
    assert_eq!(parse_u32(&c("4294967295")), Some(u32::MAX));
    assert_eq!(parse_u32(&c("4294967296")), None);
    assert_eq!(parse_u32(&c("")), None);
    assert_eq!(parse_u32(&c("12a")), None);
    assert_eq!(parse_u32(&c("+7")), "+7".parse::<u32>().ok());
    assert_eq!(parse_u64(&c("18446744073709551615")), Some(u64::MAX));
    assert_eq!(parse_u64(&c("18446744073709551616")), None);
}

#[test]
fn text_helpers() {
    assert_eq!(chars_of("héllo"), c("héllo"));
    assert_eq!(string_of(&c("abc")), "abc");
    assert_eq!(lower_chars(&c("AbC-Ä")), c("abc-Ä"));
    assert!(eq_ignore_ascii_case(&c("CORP\\Alice"), &c("corp\\alice")));
    assert!(!eq_ignore_ascii_case(&c("Ä"), &c("ä")));
    assert!(utf8_len_exceeds(&c("ééé"), 5));
    assert!(!utf8_len_exceeds(&c("ééé"), 6));
    assert_eq!(decimal_chars(0), c("0"));
    assert_eq!(decimal_chars(1234567), c("1234567"));
    let mut s = String::from("n=");
    push_decimal(&mut s, u64::MAX);
    assert_eq!(s, format!("n={}", u64::MAX));
}

#[test]
fn ordering_and_stable_sorting() {
    assert!(chars_less(&c("abc"), &c("abd")));
    assert!(chars_less(&c("ab"), &c("abc")));
    assert!(!chars_less(&c("b"), &c("abc")));
    assert!(!chars_less(&c("x"), &c("x")));
    assert!(key_less(&vec![c("a"), c("z")], &vec![c("b")]));
    assert!(key_less(&vec![c("a")], &vec![c("a"), c("b")]));
    let keys = vec![vec![c("b")], vec![c("a")], vec![c("b")], vec![c("a")]];
    assert_eq!(sorted_indices(&keys), vec![1, 3, 0, 2]);
    assert_eq!(sorted_indices_by_number(&vec![5, 3, 5, 1]), vec![3, 1, 0, 2]);
    let mut set: Vec<Vec<Vec<char>>> = Vec::new();
    insert_key(&mut set, vec![c("m")]);
    insert_key(&mut set, vec![c("a")]);
    insert_key(&mut set, vec![c("m")]);
    insert_key(&mut set, vec![c("z")]);
    assert_eq!(set, vec![vec![c("a")], vec![c("m")], vec![c("z")]]);
}
