use omnomon::text::{
    ascii_lower_is, chars_of, contains_chars, eq_ignore_ascii_case, find_chars, push_decimal,
    push_decimal2, str_eq, to_ascii_lower_char,
};

#[test]
fn decimals() {
    let mut s = String::from("n=");
    push_decimal(&mut s, 0);
    push_decimal(&mut s, 1234);
    assert_eq!(s, "n=01234");
    let mut t = String::new();
    push_decimal2(&mut t, 7);
    push_decimal2(&mut t, 42);
    push_decimal2(&mut t, 123);
    assert_eq!(t, "0742123");
    let mut u = String::new();
    push_decimal(&mut u, u128::MAX);
    assert_eq!(u, u128::MAX.to_string());
}

#[test]
fn comparisons() {
    assert!(str_eq("abc", "abc"));
    assert!(!str_eq("abc", "abd"));
    assert!(!str_eq("abc", "ab"));
    assert!(eq_ignore_ascii_case("FahrenHEIT", "fahrenheit"));
    assert!(!eq_ignore_ascii_case("fahrenheit", "fahrenhei"));
    assert!(!eq_ignore_ascii_case("Ä", "ä"));
    assert!(ascii_lower_is("NoRd", "nord"));
    assert!(!ascii_lower_is("nords", "nord"));
    assert_eq!(to_ascii_lower_char('Q'), 'q');
    assert_eq!(to_ascii_lower_char('é'), 'é');
}

#[test]
fn searching() {
    let hay = chars_of("coretemp core 1");
    assert_eq!(hay.len(), 15);
    assert_eq!(find_chars(&hay, &chars_of("core ")), Some(9));
    assert_eq!(find_chars(&hay, &chars_of("")), Some(0));
    assert_eq!(find_chars(&hay, &chars_of("cpu")), None);
    assert!(contains_chars(&hay, &chars_of("temp")));
    assert!(!contains_chars(&chars_of("ab"), &chars_of("abc")));
}
