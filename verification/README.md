# artifactory_client

A client for the Artifactory REST API that stores Habitat `.hart` packages,
with its logic verified by Verus.

- `src/` is the verified library:
  - `config.rs`: the configuration (`ArtifactoryCfg`) and its defaults;
  - `client.rs`: `ArtifactoryClient::new` (checks `require_https` and the API
    key, builds the `x-jfrog-art-api` header), the artifact URL
    (`url_path_for`), and how upload, download and delete judge a response
    status;
  - `status.rs`: `HttpStatus`, a status code in `100..=999`, and its text;
  - `error.rs`: `ArtifactoryError`, the response details of an API error,
    and the message of each error;
  - `headers.rs`: the calls into `reqwest`'s header types, and the proof
    that the byte rule for header values reads, on characters, as "no
    control character other than tab";
  - `url.rs`: the shape of an artifact URL, that it holds each of its
    parts, and that distinct artifacts never share one;
  - `text.rs`: joining strings, decimal notation, and lemmas on substrings.
- `app/` holds the I/O: the HTTP client of `builder_core`, file reads and
  writes, the async upload/download/delete, and the serde copy of the
  configuration.
- `tests/` runs the library on concrete values.
