use vstd::prelude::*;

use reqwest::header::HeaderMap;
use vstd::string::StrSliceExecFns;
use vstd::utf8::encode_utf8;

use crate::config::ArtifactoryCfg;
use crate::error::{invalid_config_prefix, ArtifactoryError, ArtifactoryResult, ResponseDetails};
use crate::headers::{
    header_entries, header_map_insert, header_map_new, header_value_from_str,
    header_value_char_ok, header_value_text_ok, lemma_header_value_chars,
};
use crate::status::HttpStatus;
use crate::text::{join_strings, mentions, string_views};
use crate::url::artifact_url;

verus! {

/// HTTP header name required by Artifactory for API key authentication.
pub const X_JFROG_ART_API: &'static str = "x-jfrog-art-api";

/// The scheme prefix that `require_https` demands of `api_url`.
pub open spec fn https_prefix() -> Seq<char> {
    seq!['h', 't', 't', 'p', 's', ':', '/', '/']
}

/// Whether `url` starts with `https://`.
pub open spec fn uses_https(url: Seq<char>) -> bool {
    url.len() >= 8 && url.subrange(0, 8) == https_prefix()
}

/// Why `new` rejects an `api_url` that is not HTTPS while `require_https` is set.
pub open spec fn https_rejection() -> Seq<char> {
    "api_url must start with https:// when require_https is enabled"@
}

/// Why `new` rejects an `api_key` that cannot be sent as a header value.
pub open spec fn api_key_rejection() -> Seq<char> {
    "api_key contains characters that are invalid in an HTTP header value"@
}

/// Whether `new` accepts `config`: the URL scheme satisfies `require_https`
/// and every character of the API key may stand in an HTTP header value.
pub open spec fn config_accepted(config: ArtifactoryCfg) -> bool {
    &&& !config.require_https || uses_https(config.api_url@)
    &&& header_value_text_ok(config.api_key@)
}

/// Why `new` rejects `config`: the URL check comes first.
pub open spec fn rejection_reason(config: ArtifactoryCfg) -> Seq<char> {
    if config.require_https && !uses_https(config.api_url@) {
        https_rejection()
    } else {
        api_key_rejection()
    }
}

/// Whether a delete is done on a response with status `code`: on success,
/// and also on `404 Not Found` and `410 Gone`, since the artifact is then
/// already gone.
pub open spec fn delete_done(code: u16) -> bool {
    (200 <= code < 300) || code == 404 || code == 410
}

/// The error for a response whose status an operation does not accept.
pub open spec fn is_api_error_for(e: ArtifactoryError, status: HttpStatus) -> bool {
    e matches ArtifactoryError::ApiError(s, response) && s == status && response@.len() == 0
}

/// Client for the Artifactory REST API: the validated configuration and the
/// headers that every request carries.
#[derive(Debug)]
pub struct ArtifactoryClient {
    pub api_url: String,
    pub api_key: String,
    pub repo: String,
    /// The headers sent with every request (the API key under
    /// `x-jfrog-art-api`).
    pub headers: HeaderMap,
}

/// Every configuration that `new` rejects is answered with a message that
/// names the setting at fault: `api_url` where `require_https` is set and the
/// URL is not HTTPS, else `api_key`.
pub proof fn lemma_rejection_names_setting(config: ArtifactoryCfg)
    requires
        !config_accepted(config),
    ensures
        config.require_https && !uses_https(config.api_url@) ==> mentions(
            invalid_config_prefix() + rejection_reason(config),
            "api_url"@,
        ),
        !(config.require_https && !uses_https(config.api_url@)) ==> mentions(
            invalid_config_prefix() + rejection_reason(config),
            "api_key"@,
        ),
{
    reveal_strlit("Invalid configuration: ");
    reveal_strlit("api_url must start with https:// when require_https is enabled");
    reveal_strlit("api_key contains characters that are invalid in an HTTP header value");
    reveal_strlit("api_url");
    reveal_strlit("api_key");
    let text = invalid_config_prefix() + rejection_reason(config);
    let start = invalid_config_prefix().len() as int;
    if config.require_https && !uses_https(config.api_url@) {
        assert(text.subrange(start, start + 7) =~= "api_url"@);
    } else {
        assert(text.subrange(start, start + 7) =~= "api_key"@);
    }
}

/// The default configuration is accepted by `new`: its key is empty and
/// it does not demand HTTPS.
pub proof fn lemma_default_config_accepted(config: ArtifactoryCfg)
    requires
        config.api_key@ == Seq::<char>::empty(),
        !config.require_https,
    ensures
        config_accepted(config),
{
}

/// `uses_https` says, character by character, that the URL starts with
/// `https://`: at least eight characters, the first eight being
/// `h`, `t`, `t`, `p`, `s`, `:`, `/`, `/`.
pub proof fn lemma_uses_https_chars(url: Seq<char>)
    ensures
        uses_https(url) <==> (url.len() >= 8 && url[0] == 'h' && url[1] == 't' && url[2] == 't' && url[3] == 'p'
                && url[4] == 's' && url[5] == ':' && url[6] == '/' && url[7] == '/'),
{
    if uses_https(url) {
        assert forall|j: int| 0 <= j < 8 implies url[j] == https_prefix()[j] by {
            assert(url.subrange(0, 8)[j] == url[j]);
        }
    }
    if (url.len() >= 8 && url[0] == 'h' && url[1] == 't' && url[2] == 't' && url[3] == 'p'
                && url[4] == 's' && url[5] == ':' && url[6] == '/' && url[7] == '/') {
        assert(url.subrange(0, 8) =~= https_prefix());
    }
}

/// `new` accepts a configuration exactly when, if `require_https` is set,
/// its URL starts with `https://`, and every character of its API key,
/// whatever the key's length, is a tab (U+0009) or lies at or above the
/// space (U+0020) and is not DEL (U+007F).
pub proof fn lemma_config_accepted_chars(config: ArtifactoryCfg)
    ensures
        config_accepted(config) <==> (!config.require_https || (config.api_url@.len() >= 8 && config.api_url@[0] == 'h' && config.api_url@[1] == 't' && config.api_url@[2] == 't' && config.api_url@[3] == 'p'
                && config.api_url@[4] == 's' && config.api_url@[5] == ':' && config.api_url@[6] == '/' && config.api_url@[7] == '/')) && (forall|i: int|
                0 <= i < config.api_key@.len() ==> (config.api_key@[i] as u32 == 9 || (config.api_key@[i] as u32 >= 32
                    && config.api_key@[i] as u32 != 127))),
{
    lemma_uses_https_chars(config.api_url@);
    if (forall|i: int|
                0 <= i < config.api_key@.len() ==> (config.api_key@[i] as u32 == 9 || (config.api_key@[i] as u32 >= 32
                    && config.api_key@[i] as u32 != 127))) {
        assert forall|i: int| 0 <= i < config.api_key@.len() implies #[trigger] header_value_char_ok(
            config.api_key@[i],
        ) by {}
    }
    if header_value_text_ok(config.api_key@) {
        assert forall|i: int| 0 <= i < config.api_key@.len() implies (config.api_key@[i] as u32 == 9
            || (config.api_key@[i] as u32 >= 32 && config.api_key@[i] as u32 != 127)) by {
            assert(header_value_char_ok(config.api_key@[i]));
        }
    }
}

/// A delete is done exactly on a 2xx status, on `404 Not Found` and on
/// `410 Gone`; every other status, a server error such as
/// `502 Bad Gateway` among them, leaves the artifact in place.
pub proof fn lemma_delete_done_codes(code: u16)
    ensures
        delete_done(code) <==> (200 <= code < 300 || code == 404 || code == 410),
        500 <= code <= 599 ==> !delete_done(code),
        300 <= code <= 399 ==> !delete_done(code),
{
}

/// Whether `url` starts with `https://`.
fn has_https_scheme(url: &str) -> (b: bool)
    ensures
        b == uses_https(url@),
        b <==> (url@.len() >= 8 && url@[0] == 'h' && url@[1] == 't' && url@[2] == 't' && url@[3] == 'p'
                && url@[4] == 's' && url@[5] == ':' && url@[6] == '/' && url@[7] == '/'),
{
    let prefix = "https://";
    proof {
        reveal_strlit("https://");
    }
    assert(prefix@ == https_prefix());
    let n = url.unicode_len();
    if n < 8 {
        proof {
            lemma_uses_https_chars(url@);
        }
        return false;
    }
    let mut i: usize = 0;
    while i < 8
        invariant
            i <= 8,
            n == url@.len(),
            n >= 8,
            prefix@ == https_prefix(),
            forall|j: int| 0 <= j < i ==> url@[j] == https_prefix()[j],
        decreases 8 - i,
    {
        if url.get_char(i) != prefix.get_char(i) {
            assert(url@.subrange(0, 8)[i as int] != https_prefix()[i as int]);
            proof {
                lemma_uses_https_chars(url@);
            }
            return false;
        }
        i = i + 1;
    }
    assert(url@.subrange(0, 8) =~= https_prefix());
    proof {
        lemma_uses_https_chars(url@);
    }
    true
}

impl ArtifactoryClient {
    /// Construct a new client from the given configuration.
    ///
    /// Sets the `x-jfrog-art-api` header to the API key. Returns
    /// `InvalidConfig` if `require_https` is set and `api_url` does not start
    /// with `https://`, or if `api_key` contains characters that are not
    /// valid in an HTTP header value (e.g. ASCII control characters).
    pub fn new(config: ArtifactoryCfg) -> (res: ArtifactoryResult<ArtifactoryClient>)
        ensures
            res is Ok <==> config_accepted(config),
            res is Ok <==> (!config.require_https || (config.api_url@.len() >= 8 && config.api_url@[0] == 'h' && config.api_url@[1] == 't' && config.api_url@[2] == 't' && config.api_url@[3] == 'p'
                && config.api_url@[4] == 's' && config.api_url@[5] == ':' && config.api_url@[6] == '/' && config.api_url@[7] == '/')) && (forall|i: int|
                0 <= i < config.api_key@.len() ==> (config.api_key@[i] as u32 == 9 || (config.api_key@[i] as u32 >= 32
                    && config.api_key@[i] as u32 != 127))),
            config.require_https && res is Ok ==> (config.api_url@.len() >= 8 && config.api_url@[0] == 'h' && config.api_url@[1] == 't' && config.api_url@[2] == 't' && config.api_url@[3] == 'p'
                && config.api_url@[4] == 's' && config.api_url@[5] == ':' && config.api_url@[6] == '/' && config.api_url@[7] == '/'),
            config.require_https && !(config.api_url@.len() >= 8 && config.api_url@[0] == 'h' && config.api_url@[1] == 't' && config.api_url@[2] == 't' && config.api_url@[3] == 'p'
                && config.api_url@[4] == 's' && config.api_url@[5] == ':' && config.api_url@[6] == '/' && config.api_url@[7] == '/') ==> (res matches Err(
                ArtifactoryError::InvalidConfig(m),
            ) && m@ == https_rejection()),
            res matches Err(e) ==> (e matches ArtifactoryError::InvalidConfig(m) && m@
                == rejection_reason(config)),
            res matches Ok(client) ==> {
                &&& client.api_url@ == config.api_url@
                &&& client.api_key@ == config.api_key@
                &&& client.repo@ == config.repo@
                &&& header_entries(client.headers) == map![X_JFROG_ART_API@ => seq![encode_utf8(config.api_key@)]]
            },
    {
        proof {
            lemma_config_accepted_chars(config);
        }
        if config.require_https && !has_https_scheme(config.api_url.as_str()) {
            return Err(
                ArtifactoryError::InvalidConfig(
                    String::from_str("api_url must start with https:// when require_https is enabled"),
                ),
            );
        }
        let mut headers = header_map_new();
        proof {
            lemma_header_value_chars(config.api_key@);
            lemma_config_accepted_chars(config);
        }
        let api_key_header = match header_value_from_str(config.api_key.as_str()) {
            Ok(value) => value,
            Err(_) => {
                return Err(
                    ArtifactoryError::InvalidConfig(
                        String::from_str(
                            "api_key contains characters that are invalid in an HTTP header value",
                        ),
                    ),
                );
            },
        };
        proof {
            reveal_strlit("x-jfrog-art-api");
        }
        let _ = header_map_insert(&mut headers, X_JFROG_ART_API, api_key_header);
        assert(header_entries(headers) =~= map![X_JFROG_ART_API@ => seq![encode_utf8(config.api_key@)]]);
        Ok(
            ArtifactoryClient {
                api_url: config.api_url,
                api_key: config.api_key,
                repo: config.repo,
                headers,
            },
        )
    }

    /// Build the full Artifactory URL for a package, given the parts of its
    /// identity (origin, name, version, release), the parts of its target
    /// (architecture, platform) and the file name of its `.hart` archive.
    ///
    /// Pattern: `<api_url>/artifactory/<repo>/<origin>/<name>/<version>/<release>/<target>/<hart>`
    pub fn url_path_for(
        &self,
        ident_parts: &Vec<String>,
        target_parts: &Vec<String>,
        hart_name: &str,
    ) -> (url: String)
        ensures
            url@ == artifact_url(
                self.api_url@,
                self.repo@,
                string_views(ident_parts@),
                string_views(target_parts@),
                hart_name@,
            ),
    {
        let mut url = self.api_url.clone();
        url.append("/artifactory/");
        url.append(self.repo.as_str());
        url.append("/");
        url.append(join_strings(ident_parts, "/").as_str());
        url.append("/");
        url.append(join_strings(target_parts, "/").as_str());
        url.append("/");
        url.append(hart_name);
        url
    }

    /// The result of an upload whose PUT was answered with `status`: success
    /// for a 2xx status, else an `ApiError` with that status.
    pub fn upload_outcome(status: HttpStatus) -> (res: ArtifactoryResult<()>)
        ensures
            res is Ok <==> 200 <= status@ < 300,
            res matches Err(e) ==> is_api_error_for(e, status),
            res matches Err(e) ==> (e matches ArtifactoryError::ApiError(s, details) && s == status
                && details@.len() == 0),
    {
        success_or_api_error(status)
    }

    /// The result of a download whose GET was answered with `status`: the
    /// body is to be written out for a 2xx status, else an `ApiError` with
    /// that status.
    pub fn download_outcome(status: HttpStatus) -> (res: ArtifactoryResult<()>)
        ensures
            res is Ok <==> 200 <= status@ < 300,
            res matches Err(e) ==> is_api_error_for(e, status),
            res matches Err(e) ==> (e matches ArtifactoryError::ApiError(s, details) && s == status
                && details@.len() == 0),
    {
        success_or_api_error(status)
    }

    /// The result of a delete whose DELETE was answered with `status`.
    ///
    /// Treats `404 Not Found` and `410 Gone` as success so that delete is
    /// idempotent: safe to call even if the artifact was already removed.
    pub fn delete_outcome(status: HttpStatus) -> (res: ArtifactoryResult<()>)
        ensures
            res is Ok <==> delete_done(status@),
            res is Ok <==> (200 <= status@ < 300 || status@ == 404 || status@ == 410),
            res matches Err(e) ==> is_api_error_for(e, status),
            res matches Err(e) ==> (e matches ArtifactoryError::ApiError(s, details) && s == status
                && details@.len() == 0),
    {
        let code = status.as_u16();
        if status.is_success() || code == 404 || code == 410 {
            Ok(())
        } else {
            Err(ArtifactoryError::ApiError(status, ResponseDetails::new()))
        }
    }
}

/// Success for a 2xx status, else an `ApiError` with the status and no
/// response details.
fn success_or_api_error(status: HttpStatus) -> (res: ArtifactoryResult<()>)
    ensures
        res is Ok <==> 200 <= status@ < 300,
        res matches Err(e) ==> is_api_error_for(e, status),
{
    if status.is_success() {
        Ok(())
    } else {
        Err(ArtifactoryError::ApiError(status, ResponseDetails::new()))
    }
}

} // verus!
