use artifactory_client::{
    join_strings, ArtifactoryCfg, ArtifactoryClient, ArtifactoryError, HttpStatus,
    X_JFROG_ART_API,
};

#[test]
fn new_rejects_api_key_with_control_characters() {
    // A newline in an HTTP header value is invalid (potential header injection).
    // `new` must return Err rather than panic.
    let cfg = ArtifactoryCfg {
        api_key: "valid-prefix\ninvalid".to_string(),
        ..Default::default()
    };
    let result = ArtifactoryClient::new(cfg);
    assert!(
        result.is_err(),
        "expected Err for api_key containing a newline, got Ok"
    );
    // Confirm the error message is descriptive.
    let msg = result.err().unwrap().message();
    assert!(
        msg.contains("api_key"),
        "error message should mention api_key, got: {}",
        msg
    );
}

#[test]
fn new_rejection_message_is_exact() {
    let cfg = ArtifactoryCfg {
        api_key: "a\u{7f}b".to_string(),
        ..Default::default()
    };
    match ArtifactoryClient::new(cfg) {
        Err(ArtifactoryError::InvalidConfig(m)) => assert_eq!(
            m,
            "api_key contains characters that are invalid in an HTTP header value"
        ),
        _ => panic!("expected InvalidConfig"),
    }
}

#[test]
fn new_accepts_tab_and_non_ascii_in_api_key() {
    let cfg = ArtifactoryCfg {
        api_key: "key\twith tab and é".to_string(),
        ..Default::default()
    };
    assert!(ArtifactoryClient::new(cfg).is_ok());
}

#[test]
fn new_rejects_other_control_characters() {
    for key in ["a\rb", "\u{0}", "x\u{1b}y", "\u{1f}"] {
        let cfg = ArtifactoryCfg {
            api_key: key.to_string(),
            ..Default::default()
        };
        assert!(ArtifactoryClient::new(cfg).is_err(), "key {:?}", key);
    }
}

#[test]
fn new_sets_api_key_header() {
    let cfg = ArtifactoryCfg {
        api_key: "secret-key".to_string(),
        repo: "my-repo".to_string(),
        ..Default::default()
    };
    let client = ArtifactoryClient::new(cfg).unwrap();
    assert_eq!(client.api_url, "http://localhost:8081");
    assert_eq!(client.api_key, "secret-key");
    assert_eq!(client.repo, "my-repo");
    assert_eq!(client.headers.len(), 1);
    assert_eq!(
        client.headers.get(X_JFROG_ART_API).unwrap().as_bytes(),
        b"secret-key"
    );
}

#[test]
fn require_https_off_accepts_http() {
    let cfg = ArtifactoryCfg {
        api_url: "http://artifactory.example.com".to_string(),
        require_https: false,
        ..Default::default()
    };
    assert!(ArtifactoryClient::new(cfg).is_ok());
}

#[test]
fn require_https_on_rejects_http() {
    let cfg = ArtifactoryCfg {
        api_url: "http://artifactory.example.com".to_string(),
        require_https: true,
        ..Default::default()
    };
    let err = ArtifactoryClient::new(cfg).err().unwrap();
    match &err {
        ArtifactoryError::InvalidConfig(m) => assert_eq!(
            m,
            "api_url must start with https:// when require_https is enabled"
        ),
        other => panic!("expected InvalidConfig, got {:?}", other),
    }
    assert!(err.message().contains("api_url"));
}

#[test]
fn require_https_on_accepts_https() {
    let cfg = ArtifactoryCfg {
        api_url: "https://artifactory.example.com".to_string(),
        require_https: true,
        ..Default::default()
    };
    assert!(ArtifactoryClient::new(cfg).is_ok());
}

#[test]
fn require_https_on_rejects_short_and_uppercase_urls() {
    for url in ["https:/", "", "HTTPS://x", "https:\\\\x"] {
        let cfg = ArtifactoryCfg {
            api_url: url.to_string(),
            require_https: true,
            ..Default::default()
        };
        assert!(ArtifactoryClient::new(cfg).is_err(), "url {:?}", url);
    }
}

#[test]
fn require_https_is_checked_before_api_key() {
    let cfg = ArtifactoryCfg {
        api_url: "http://x".to_string(),
        api_key: "bad\nkey".to_string(),
        require_https: true,
        ..Default::default()
    };
    match ArtifactoryClient::new(cfg) {
        Err(ArtifactoryError::InvalidConfig(m)) => assert!(m.starts_with("api_url")),
        _ => panic!("expected InvalidConfig"),
    }
}

fn strings(parts: &[&str]) -> Vec<String> {
    parts.iter().map(|p| p.to_string()).collect()
}

#[test]
fn url_path_for_produces_expected_shape() {
    let client = ArtifactoryClient::new(ArtifactoryCfg::default()).unwrap();
    let url = client.url_path_for(
        &strings(&["core", "redis", "4.0.14", "20190319155852"]),
        &strings(&["x86_64", "linux"]),
        "core-redis-4.0.14-20190319155852-x86_64-linux.hart",
    );
    assert_eq!(
        url,
        "http://localhost:8081/artifactory/habitat-artifact-store/core/redis/4.0.14/20190319155852/x86_64/linux/core-redis-4.0.14-20190319155852-x86_64-linux.hart"
    );
}

#[test]
fn url_path_for_uses_configured_url_and_repo() {
    let cfg = ArtifactoryCfg {
        api_url: "https://art.example.com".to_string(),
        repo: "pkgs".to_string(),
        ..Default::default()
    };
    let client = ArtifactoryClient::new(cfg).unwrap();
    let url = client.url_path_for(&strings(&["o", "n"]), &strings(&["t"]), "f.hart");
    assert_eq!(url, "https://art.example.com/artifactory/pkgs/o/n/t/f.hart");
}

#[test]
fn join_strings_joins_with_separator() {
    assert_eq!(join_strings(&strings(&[]), "/"), "");
    assert_eq!(join_strings(&strings(&["a"]), "/"), "a");
    assert_eq!(join_strings(&strings(&["a", "b", "c"]), "/"), "a/b/c");
    assert_eq!(join_strings(&strings(&["a", "", "c"]), ", "), "a, , c");
}

fn status(code: u16) -> HttpStatus {
    HttpStatus::from_u16(code).unwrap()
}

#[test]
fn upload_and_download_accept_only_success() {
    for code in [200, 201, 204, 299] {
        assert!(ArtifactoryClient::upload_outcome(status(code)).is_ok());
        assert!(ArtifactoryClient::download_outcome(status(code)).is_ok());
    }
    for code in [100, 199, 300, 301, 400, 404, 410, 500, 999] {
        match ArtifactoryClient::upload_outcome(status(code)) {
            Err(ArtifactoryError::ApiError(s, response)) => {
                assert_eq!(s.as_u16(), code);
                assert_eq!(response.len(), 0);
            }
            other => panic!("code {}: {:?}", code, other),
        }
        assert!(matches!(
            ArtifactoryClient::download_outcome(status(code)),
            Err(ArtifactoryError::ApiError(_, _))
        ));
    }
}

#[test]
fn delete_treats_not_found_and_gone_as_success() {
    for code in [200, 202, 204, 404, 410] {
        assert!(ArtifactoryClient::delete_outcome(status(code)).is_ok(), "code {}", code);
    }
    for code in [199, 300, 400, 401, 403, 405, 409, 411, 500, 503] {
        match ArtifactoryClient::delete_outcome(status(code)) {
            Err(ArtifactoryError::ApiError(s, response)) => {
                assert_eq!(s.as_u16(), code);
                assert_eq!(response.len(), 0);
            }
            other => panic!("code {}: {:?}", code, other),
        }
    }
}

#[test]
fn delete_twice_is_idempotent() {
    // First delete removes the artifact, the second finds it gone.
    assert!(ArtifactoryClient::delete_outcome(status(204)).is_ok());
    assert!(ArtifactoryClient::delete_outcome(status(404)).is_ok());
}

#[test]
fn distinct_artifacts_get_distinct_urls() {
    let client = ArtifactoryClient::new(ArtifactoryCfg::default()).unwrap();
    let target = strings(&["x86_64", "linux"]);
    let a = client.url_path_for(
        &strings(&["core", "redis", "4.0.14", "20190319155852"]),
        &target,
        "core-redis-4.0.14-20190319155852-x86_64-linux.hart",
    );
    let b = client.url_path_for(
        &strings(&["core", "redis", "4.0.14", "20190319155853"]),
        &target,
        "core-redis-4.0.14-20190319155853-x86_64-linux.hart",
    );
    let c = client.url_path_for(
        &strings(&["core", "redis", "4.0.14", "20190319155852"]),
        &strings(&["x86_64", "windows"]),
        "core-redis-4.0.14-20190319155852-x86_64-linux.hart",
    );
    assert_ne!(a, b);
    assert_ne!(a, c);
    assert_ne!(b, c);
}
