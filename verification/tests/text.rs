use controller_music::text::{parse_i32, str_eq};

#[test]
fn parse_i32_like_std() {
    for s in ["0", "5", "+5", "-5", "007", "-0", "2147483647", "-2147483648", "", "-", "+", "2147483648",
        "-2147483649", "99999999999999", "12a", " 1", "1 ", "--1", "+-1", "٣"] {
        assert_eq!(parse_i32(s), s.parse::<i32>().ok(), "{s:?}");
    }
}

#[test]
fn str_eq_compares_characters() {
    assert!(str_eq("C#", "C#"));
    assert!(!str_eq("C#", "C"));
    assert!(!str_eq("C#", "Db"));
    assert!(str_eq("", ""));
}
