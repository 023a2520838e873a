use api_proxy::text::{bytes_of, chars_of, contains_name, matches_name, starts_with, str_eq};

fn chars(s: &str) -> Vec<char> {
    s.chars().collect()
}

#[test]
fn chars_of_lists_every_character() {
    assert_eq!(chars_of("a/é"), vec!['a', '/', 'é']);
    assert_eq!(chars_of(""), Vec::<char>::new());
}

#[test]
fn bytes_of_gives_the_utf8_bytes() {
    assert_eq!(bytes_of("1.2.3.4"), b"1.2.3.4".to_vec());
    assert_eq!(bytes_of("é"), vec![0xc3, 0xa9]);
    assert_eq!(bytes_of(""), Vec::<u8>::new());
}

#[test]
fn starts_with_is_a_literal_prefix_test() {
    assert!(starts_with(&chars("/v1/users"), "/v1"));
    assert!(starts_with(&chars("/v1"), "/v1"));
    assert!(starts_with(&chars("/v1"), ""));
    assert!(starts_with(&chars(""), ""));
    assert!(!starts_with(&chars("/v"), "/v1"));
    assert!(!starts_with(&chars("/V1"), "/v1"));
    assert!(!starts_with(&chars("x/v1"), "/v1"));
    assert!(!starts_with(&chars(""), "/"));
}

#[test]
fn str_eq_compares_whole_strings() {
    assert!(str_eq("/", "/"));
    assert!(str_eq("", ""));
    assert!(!str_eq("/", "//"));
    assert!(!str_eq("//", "/"));
    assert!(!str_eq("GET", "get"));
    assert!(!str_eq("", "/"));
}

#[test]
fn matches_name_ignores_the_case_of_ascii_letters() {
    assert!(matches_name(&chars("Host"), "host"));
    assert!(matches_name(&chars("host"), "HOST"));
    assert!(matches_name(&chars("X-Forwarded-For"), "x-forwarded-for"));
    assert!(matches_name(&chars(""), ""));
    assert!(!matches_name(&chars("host"), "hosts"));
    assert!(!matches_name(&chars("hosts"), "host"));
    assert!(!matches_name(&chars("host"), "hos_"));
}

#[test]
fn matches_name_folds_letters_only() {
    // '@' is 64 and '`' is 96, '[' is 91 and '{' is 123: neighbours of the letters
    assert!(!matches_name(&chars("@"), "`"));
    assert!(!matches_name(&chars("["), "{"));
    assert!(!matches_name(&chars("É"), "é"));
    assert!(matches_name(&chars("aZ"), "Az"));
}

#[test]
fn contains_name_looks_through_the_list() {
    let names = vec!["Authorization".to_string(), "cookie".to_string()];
    assert!(contains_name(&names, &chars("authorization")));
    assert!(contains_name(&names, &chars("COOKIE")));
    assert!(!contains_name(&names, &chars("cookies")));
    assert!(!contains_name(&Vec::new(), &chars("cookie")));
}
