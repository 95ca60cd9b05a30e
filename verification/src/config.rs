use vstd::prelude::*;

verus! {

/// Base URL for the Artifactory API.
///
/// Used as the default when no `api_url` is present in the configuration.
/// Override this for production deployments.
pub const DEFAULT_ARTIFACTORY_API_URL: &'static str = "http://localhost:8081";

/// Default Artifactory repository that stores `.hart` packages.
///
/// Override via `ArtifactoryCfg::repo` for custom repository layouts.
pub const DEFAULT_ARTIFACTORY_REPO: &'static str = "habitat-artifact-store";

/// Runtime configuration for the Artifactory client.
///
/// All fields fall back to the `DEFAULT_*` constants (or to an empty key and
/// `require_https == false`) when absent.
#[derive(Clone, Debug)]
pub struct ArtifactoryCfg {
    /// Full base URL of the Artifactory instance, e.g. `https://artifactory.example.com`.
    pub api_url: String,
    /// Artifactory API key used for authentication via the `x-jfrog-art-api` header.
    /// Leave empty to disable authenticated requests (local dev only).
    pub api_key: String,
    /// Repository name within Artifactory that holds `.hart` artifacts.
    pub repo: String,
    /// When `true`, a client can only be built for an `api_url` that starts
    /// with `https://`. Off by default, so that plain HTTP works for local
    /// development.
    pub require_https: bool,
}

impl Default for ArtifactoryCfg {
    /// Returns a configuration pointing at a local Artifactory instance with no
    /// authentication. Suitable for development; always override for production.
    fn default() -> (cfg: Self)
        ensures
            cfg.api_url@ == DEFAULT_ARTIFACTORY_API_URL@,
            cfg.api_key@ == Seq::<char>::empty(),
            cfg.repo@ == DEFAULT_ARTIFACTORY_REPO@,
            !cfg.require_https,
    {
        ArtifactoryCfg {
            api_url: String::from_str(DEFAULT_ARTIFACTORY_API_URL),
            api_key: String::new(),
            repo: String::from_str(DEFAULT_ARTIFACTORY_REPO),
            require_https: false,
        }
    }
}

} // verus!
