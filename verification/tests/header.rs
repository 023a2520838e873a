use api_proxy::header::{get, pick_headers, set_each, set_field, Header};

fn header(name: &str, value: &str) -> Header {
    Header { name: name.to_string(), value: value.as_bytes().to_vec() }
}

fn names(list: &[&str]) -> Vec<String> {
    list.iter().map(|s| s.to_string()).collect()
}

#[test]
fn get_returns_the_first_value_of_a_name() {
    let headers = vec![header("accept", "a"), header("cookie", "1"), header("cookie", "2")];
    assert_eq!(get(&headers, "cookie"), Some(&b"1".to_vec()));
    assert_eq!(get(&headers, "accept"), Some(&b"a".to_vec()));
    assert_eq!(get(&headers, "host"), None);
    assert_eq!(get(&Vec::new(), "host"), None);
}

#[test]
fn get_ignores_case() {
    let headers = vec![header("Content-Type", "text/plain")];
    assert_eq!(get(&headers, "content-type"), Some(&b"text/plain".to_vec()));
    assert_eq!(get(&headers, "CONTENT-TYPE"), Some(&b"text/plain".to_vec()));
    assert_eq!(get(&headers, "content_type"), None);
}

#[test]
fn set_replaces_every_field_of_the_name() {
    let mut headers = vec![
        header("a", "1"),
        header("Token", "old"),
        header("b", "2"),
        header("token", "older"),
    ];
    set_field(&mut headers, header("TOKEN", "new"));
    assert_eq!(headers, vec![header("a", "1"), header("b", "2"), header("TOKEN", "new")]);
}

#[test]
fn set_adds_a_new_name_at_the_end() {
    let mut headers = vec![header("a", "1")];
    set_field(&mut headers, header("b", "2"));
    assert_eq!(headers, vec![header("a", "1"), header("b", "2")]);
    let mut empty = Vec::new();
    set_field(&mut empty, header("b", "2"));
    assert_eq!(empty, vec![header("b", "2")]);
}

#[test]
fn set_each_sets_in_turn() {
    let mut headers = vec![header("a", "1"), header("b", "2")];
    set_each(&mut headers, vec![header("b", "3"), header("c", "4"), header("B", "5")]);
    assert_eq!(headers, vec![header("a", "1"), header("c", "4"), header("B", "5")]);
}

#[test]
fn set_each_with_nothing_changes_nothing() {
    let mut headers = vec![header("a", "1"), header("a", "2")];
    set_each(&mut headers, Vec::new());
    assert_eq!(headers, vec![header("a", "1"), header("a", "2")]);
}

#[test]
fn pick_headers_follows_the_order_of_the_names() {
    let headers = vec![header("cookie", "c"), header("authorization", "a"), header("accept", "x")];
    let picked = pick_headers(&names(&["Authorization", "missing", "cookie"]), &headers);
    assert_eq!(picked, vec![header("Authorization", "a"), header("cookie", "c")]);
}

#[test]
fn pick_headers_takes_the_first_value_and_repeats_names() {
    let headers = vec![header("cookie", "1"), header("cookie", "2")];
    let picked = pick_headers(&names(&["cookie", "cookie"]), &headers);
    assert_eq!(picked, vec![header("cookie", "1"), header("cookie", "1")]);
    assert_eq!(pick_headers(&names(&[]), &headers), Vec::<Header>::new());
    assert_eq!(pick_headers(&names(&["cookie"]), &Vec::new()), Vec::<Header>::new());
}

#[test]
fn header_clone_is_equal() {
    let h = header("a", "1");
    assert_eq!(h.clone(), h);
}
