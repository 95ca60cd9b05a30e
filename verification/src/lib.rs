//! Verified core of a client for the Artifactory REST API that stores
//! Habitat `.hart` packages: configuration, validation of that
//! configuration, the request headers and URLs derived from it, the
//! interpretation of HTTP status codes, and the error type with its
//! rendered messages.

mod client;
mod config;
mod error;
mod headers;
mod status;
mod text;
mod url;

pub use client::{ArtifactoryClient, X_JFROG_ART_API};
pub use config::{ArtifactoryCfg, DEFAULT_ARTIFACTORY_API_URL, DEFAULT_ARTIFACTORY_REPO};
pub use error::{ArtifactoryError, ArtifactoryResult, ResponseDetails};
pub use status::HttpStatus;
pub use text::join_strings;
