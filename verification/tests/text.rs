use lean2md::text::{
    char_is_space, find, from_chars, has_prefix, has_suffix, matches_at, push_all, push_line,
    push_str, rfind, same_chars, to_chars, trim_end_len, trim_range, trim_start_len,
};

fn chars(s: &str) -> Vec<char> {
    s.chars().collect()
}

#[test]
fn white_space_is_what_std_calls_white_space() {
    let mut c: u32 = 0;
    while c <= 0x10FFFF {
        if let Some(ch) = char::from_u32(c) {
            assert_eq!(char_is_space(ch), ch.is_whitespace(), "U+{:04X}", c);
        }
        c += 1;
    }
}

#[test]
fn to_chars_and_back() {
    let s = "a\u{e9}\u{3bb}\u{1f600} z";
    let v = to_chars(s);
    assert_eq!(v, chars(s));
    assert_eq!(from_chars(&v), s);
    assert_eq!(to_chars(""), Vec::<char>::new());
    assert_eq!(from_chars(&[]), "");
}

#[test]
fn pushing_appends() {
    let mut v = chars("ab");
    push_all(&mut v, &chars("cd"));
    assert_eq!(v, chars("abcd"));
    push_str(&mut v, "\u{e9}f");
    assert_eq!(v, chars("abcd\u{e9}f"));
    push_line(&mut v, &chars("g"));
    assert_eq!(v, chars("abcd\u{e9}fg\n"));
}

#[test]
fn trimming_matches_std() {
    let cases = ["", " ", "a", "  a b \t\r\n", "\u{3000}x\u{a0}", "\n\n", "x  ", "  x"];
    for s in cases {
        let v = chars(s);
        let n = trim_end_len(&v);
        assert_eq!(from_chars(&v[..n]), s.trim_end(), "{:?}", s);
        let k = trim_start_len(&v);
        assert_eq!(from_chars(&v[k..]), s.trim_start(), "{:?}", s);
        let (a, b) = trim_range(&v);
        assert_eq!(from_chars(&v[a..b]), s.trim(), "{:?}", s);
    }
}

#[test]
fn trim_end_len_exact() {
    assert_eq!(trim_end_len(&chars("ab  ")), 2);
    assert_eq!(trim_start_len(&chars("  ab")), 2);
    assert_eq!(trim_range(&chars(" ab ")), (1, 3));
    assert_eq!(trim_range(&chars("   ")), (0, 0));
}

#[test]
fn prefixes_and_suffixes() {
    let s = chars("/-- doc -/");
    assert!(has_prefix(&s, &chars("/-")));
    assert!(has_prefix(&s, &chars("/--")));
    assert!(!has_prefix(&s, &chars("-/")));
    assert!(has_suffix(&s, &chars("-/")));
    assert!(!has_suffix(&s, &chars("--+")));
    assert!(has_prefix(&s, &[]));
    assert!(has_suffix(&s, &[]));
    assert!(!has_prefix(&chars("/"), &chars("/-")));
    assert!(!has_suffix(&chars("/"), &chars("-/")));
}

#[test]
fn matching_at_an_index() {
    let s = chars("abcabc");
    assert!(matches_at(&s, &chars("bc"), 1));
    assert!(matches_at(&s, &chars("bc"), 4));
    assert!(!matches_at(&s, &chars("bc"), 0));
    assert!(!matches_at(&s, &chars("bc"), 5));
    assert!(!matches_at(&s, &chars("bc"), usize::MAX));
    assert!(matches_at(&s, &[], 6));
    assert!(!matches_at(&s, &[], 7));
}

#[test]
fn finding_matches_std() {
    let cases = [
        ("/- a -/ b -/ c", "-/"),
        ("/-/", "-/"),
        ("no close", "-/"),
        ("", "-/"),
        ("-/", "-/"),
        ("``` x ```", "```"),
        ("aaaa", "aa"),
        ("a", "abc"),
    ];
    for (s, p) in cases {
        let (sv, pv) = (chars(s), chars(p));
        assert_eq!(find(&sv, &pv), s.find(p), "{:?} {:?}", s, p);
        assert_eq!(rfind(&sv, &pv), s.rfind(p), "{:?} {:?}", s, p);
    }
}

#[test]
fn find_exact() {
    assert_eq!(find(&chars("a -/ b -/"), &chars("-/")), Some(2));
    assert_eq!(rfind(&chars("a -/ b -/"), &chars("-/")), Some(7));
    assert_eq!(find(&chars("abc"), &chars("-/")), None);
    assert_eq!(rfind(&chars("abc"), &chars("-/")), None);
}

#[test]
fn same_chars_compares() {
    assert!(same_chars(&chars("--#--"), &chars("--#--")));
    assert!(!same_chars(&chars("--#--"), &chars("--#-")));
    assert!(!same_chars(&chars("--#--"), &chars("--#-+")));
    assert!(same_chars(&[], &[]));
}
