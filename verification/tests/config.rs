use api_proxy::config::{Args, Config, ProxyAuth, ProxyTarget};

fn good_target() -> ProxyTarget {
    ProxyTarget {
        host: "api.internal".to_string(),
        secure: false,
        source_path: "/v1".to_string(),
        dest_path: "/internal/v1".to_string(),
        use_auth: false,
        ignore_errors: false,
    }
}

fn good_auth() -> ProxyAuth {
    ProxyAuth {
        host: "auth.internal".to_string(),
        secure: true,
        path: "/check".to_string(),
        request_headers: vec!["authorization".to_string()],
        response_headers: vec!["x-user".to_string()],
        method: "GET".to_string(),
    }
}

fn config_of(targets: Vec<ProxyTarget>, auth: Option<ProxyAuth>) -> Config {
    Config { targets, auth, cors: true, port: 3000 }
}

fn error_of(config: Config) -> &'static str {
    match Config::build(config) {
        Ok(_) => panic!("the configuration was accepted"),
        Err(message) => message,
    }
}

#[test]
fn build_accepts_a_valid_configuration_unchanged() {
    let built = Config::build(config_of(vec![good_target()], Some(good_auth()))).unwrap();
    assert_eq!(built, config_of(vec![good_target()], Some(good_auth())));
}

#[test]
fn build_accepts_a_configuration_without_rules_or_auth() {
    let built = Config::build(config_of(vec![], None)).unwrap();
    assert_eq!(built.targets.len(), 0);
    assert!(built.auth.is_none());
    assert!(built.cors);
    assert_eq!(built.port, 3000);
}

#[test]
fn build_rejects_a_target_without_host() {
    let mut t = good_target();
    t.host = String::new();
    assert_eq!(error_of(config_of(vec![t], None)), "Proxy target host is required.");
}

#[test]
fn build_rejects_a_target_without_source_path() {
    let mut t = good_target();
    t.source_path = String::new();
    assert_eq!(error_of(config_of(vec![t], None)), "Proxy target source path is required.");
}

#[test]
fn build_rejects_a_relative_source_path() {
    let mut t = good_target();
    t.source_path = "v1".to_string();
    assert_eq!(error_of(config_of(vec![t], None)), "Proxy target source path is invalid.");
}

#[test]
fn build_rejects_a_target_without_destination_path() {
    let mut t = good_target();
    t.dest_path = String::new();
    assert_eq!(
        error_of(config_of(vec![t], None)),
        "Proxy target destination path is required."
    );
}

#[test]
fn build_rejects_a_relative_destination_path() {
    let mut t = good_target();
    t.dest_path = "internal".to_string();
    assert_eq!(
        error_of(config_of(vec![t], None)),
        "Proxy target destination path is invalid."
    );
}

#[test]
fn build_reports_the_first_complaint_of_a_target() {
    let t = ProxyTarget {
        host: String::new(),
        secure: false,
        source_path: "v1".to_string(),
        dest_path: String::new(),
        use_auth: false,
        ignore_errors: false,
    };
    assert_eq!(error_of(config_of(vec![t], None)), "Proxy target host is required.");
}

#[test]
fn build_reports_the_first_invalid_target() {
    let mut second = good_target();
    second.dest_path = "x".to_string();
    let mut third = good_target();
    third.host = String::new();
    assert_eq!(
        error_of(config_of(vec![good_target(), second, third], None)),
        "Proxy target destination path is invalid."
    );
}

#[test]
fn build_looks_at_targets_before_auth() {
    let mut t = good_target();
    t.source_path = "nope".to_string();
    let mut a = good_auth();
    a.host = String::new();
    assert_eq!(error_of(config_of(vec![t], Some(a))), "Proxy target source path is invalid.");
}

#[test]
fn build_rejects_auth_without_host() {
    let mut a = good_auth();
    a.host = String::new();
    assert_eq!(error_of(config_of(vec![good_target()], Some(a))), "Proxy auth host is required.");
}

#[test]
fn build_rejects_auth_without_path() {
    let mut a = good_auth();
    a.path = String::new();
    assert_eq!(error_of(config_of(vec![], Some(a))), "Proxy auth path is required.");
}

#[test]
fn build_rejects_a_relative_auth_path() {
    let mut a = good_auth();
    a.path = "check".to_string();
    assert_eq!(error_of(config_of(vec![], Some(a))), "Proxy auth path is invalid.");
}

#[test]
fn build_rejects_auth_without_response_headers() {
    let mut a = good_auth();
    a.response_headers = vec![];
    assert_eq!(
        error_of(config_of(vec![], Some(a))),
        "Proxy auth response headers is required."
    );
}

#[test]
fn build_accepts_auth_without_request_headers() {
    let mut a = good_auth();
    a.request_headers = vec![];
    assert!(Config::build(config_of(vec![], Some(a))).is_ok());
}

#[test]
fn build_rejects_auth_without_method() {
    let mut a = good_auth();
    a.method = String::new();
    assert_eq!(error_of(config_of(vec![], Some(a))), "Proxy auth method is required.");
}

#[test]
fn build_rejects_other_auth_methods() {
    for method in ["PATCH", "DELETE", "get", "GETS", "OPTIONS", " GET"] {
        let mut a = good_auth();
        a.method = method.to_string();
        assert_eq!(
            error_of(config_of(vec![], Some(a))),
            "Proxy auth method must be one of the following: GET, POST, HEAD, PUT"
        );
    }
}

#[test]
fn build_accepts_the_four_auth_methods() {
    for method in ["GET", "POST", "HEAD", "PUT"] {
        let mut a = good_auth();
        a.method = method.to_string();
        assert!(Config::build(config_of(vec![good_target()], Some(a))).is_ok());
    }
}

#[test]
fn build_rejects_a_rule_with_auth_when_no_endpoint_is_configured() {
    let t = ProxyTarget {
        host: "api.internal".to_string(),
        secure: false,
        source_path: "/v1".to_string(),
        dest_path: "/internal/v1".to_string(),
        use_auth: true,
        ignore_errors: false,
    };
    let config = Config { targets: vec![t], auth: None, cors: false, port: 8080 };
    assert_eq!(Config::build(config), Err("Proxy auth is required."));
}

#[test]
fn build_asks_for_the_endpoint_whichever_rule_uses_auth() {
    let mut last = good_target();
    last.use_auth = true;
    let targets = vec![good_target(), good_target(), last];
    assert_eq!(error_of(config_of(targets, None)), "Proxy auth is required.");
    let mut first = good_target();
    first.use_auth = true;
    let targets = vec![first, good_target()];
    assert_eq!(error_of(config_of(targets, None)), "Proxy auth is required.");
}

#[test]
fn build_accepts_a_rule_with_auth_when_the_endpoint_is_configured() {
    let mut t = good_target();
    t.use_auth = true;
    let built = Config::build(config_of(vec![good_target(), t], Some(good_auth()))).unwrap();
    assert!(built.targets[1].use_auth);
    assert!(built.auth.is_some());
}

#[test]
fn build_needs_no_endpoint_when_no_rule_uses_auth() {
    assert!(Config::build(config_of(vec![good_target(), good_target()], None)).is_ok());
}

#[test]
fn build_reports_an_invalid_rule_before_the_missing_endpoint() {
    let mut first = good_target();
    first.use_auth = true;
    let mut second = good_target();
    second.host = String::new();
    assert_eq!(
        error_of(config_of(vec![first, second], None)),
        "Proxy target host is required."
    );
}

#[test]
fn build_reports_the_endpoint_that_is_there_but_wrong() {
    let mut t = good_target();
    t.use_auth = true;
    let mut a = good_auth();
    a.method = "PATCH".to_string();
    assert_eq!(
        error_of(config_of(vec![t], Some(a))),
        "Proxy auth method must be one of the following: GET, POST, HEAD, PUT"
    );
}

#[test]
fn target_validate_agrees_with_build() {
    assert_eq!(good_target().validate(), Ok(()));
    let mut t = good_target();
    t.dest_path = "relative".to_string();
    assert_eq!(t.validate(), Err("Proxy target destination path is invalid."));
}

#[test]
fn auth_validate_agrees_with_build() {
    assert_eq!(good_auth().validate(), Ok(()));
    let mut a = good_auth();
    a.method = "TRACE".to_string();
    assert_eq!(
        a.validate(),
        Err("Proxy auth method must be one of the following: GET, POST, HEAD, PUT")
    );
}

#[test]
fn clones_are_equal_to_what_they_copy() {
    let cfg = config_of(vec![good_target(), good_target()], Some(good_auth()));
    assert_eq!(cfg.clone(), cfg);
    let args = Args { config: "proxy.toml".to_string() };
    assert_eq!(args.clone(), args);
}
