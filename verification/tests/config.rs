use artifactory_client::{ArtifactoryCfg, DEFAULT_ARTIFACTORY_API_URL, DEFAULT_ARTIFACTORY_REPO};

#[test]
fn default_cfg_uses_expected_constants() {
    let cfg = ArtifactoryCfg::default();
    assert_eq!(cfg.api_url, DEFAULT_ARTIFACTORY_API_URL);
    assert_eq!(cfg.repo, DEFAULT_ARTIFACTORY_REPO);
    assert!(
        cfg.api_key.is_empty(),
        "api_key should be empty string by default"
    );
}

#[test]
fn default_api_url_is_localhost() {
    // Ensures the constant itself stays a local dev URL and is never
    // accidentally changed to a production endpoint.
    assert!(
        DEFAULT_ARTIFACTORY_API_URL.starts_with("http://localhost"),
        "DEFAULT_ARTIFACTORY_API_URL must be a localhost URL, got: {}",
        DEFAULT_ARTIFACTORY_API_URL
    );
}

#[test]
fn default_cfg_does_not_require_https() {
    let cfg = ArtifactoryCfg::default();
    assert!(!cfg.require_https);
    assert_eq!(cfg.api_url, "http://localhost:8081");
    assert_eq!(cfg.repo, "habitat-artifact-store");
}
