use artifactory_client::{ArtifactoryError, HttpStatus, ResponseDetails};
use std::time::Instant;

#[test]
fn bench_invalid_config_display() {
    const ITERS: u32 = 100_000;
    let err = ArtifactoryError::InvalidConfig(
        "api_key contains characters that are invalid in an HTTP header value".to_string(),
    );
    let start = Instant::now();
    for _ in 0..ITERS {
        let _ = std::hint::black_box(err.message());
    }
    let elapsed = start.elapsed();
    let ns_per_iter = elapsed.as_nanos() / u64::from(ITERS) as u128;
    println!(
        "ArtifactoryError::InvalidConfig Display  \
         {ITERS} iters  total={elapsed:?}  per_iter={ns_per_iter} ns"
    );
    // Sanity guard: must format in under 10 µs each on any CI machine.
    assert!(
        ns_per_iter < 10_000,
        "InvalidConfig Display took {} ns – unexpectedly slow",
        ns_per_iter
    );
}

#[test]
fn invalid_config_message() {
    let err = ArtifactoryError::InvalidConfig("bad value".to_string());
    assert_eq!(err.message(), "Invalid configuration: bad value");
}

#[test]
fn api_error_message_without_details() {
    let err = ArtifactoryError::ApiError(HttpStatus::from_u16(404).unwrap(), ResponseDetails::new());
    assert_eq!(
        err.message(),
        "Received a non-200 response, status=404 Not Found, response={}"
    );
    let err = ArtifactoryError::ApiError(HttpStatus::from_u16(503).unwrap(), ResponseDetails::new());
    assert_eq!(
        err.message(),
        "Received a non-200 response, status=503 Service Unavailable, response={}"
    );
}

#[test]
fn api_error_message_for_code_without_reason() {
    let err = ArtifactoryError::ApiError(HttpStatus::from_u16(799).unwrap(), ResponseDetails::new());
    assert_eq!(
        err.message(),
        "Received a non-200 response, status=799 <unknown status code>, response={}"
    );
}

#[test]
fn api_error_message_with_details() {
    let mut details = ResponseDetails::new();
    assert!(details.insert("error".to_string(), "bad \"path\"".to_string()).is_none());
    assert!(details.insert("line".to_string(), "a\nb".to_string()).is_none());
    let err = ArtifactoryError::ApiError(HttpStatus::from_u16(400).unwrap(), details);
    assert_eq!(
        err.message(),
        "Received a non-200 response, status=400 Bad Request, response={\"error\": \"bad \\\"path\\\"\", \"line\": \"a\\nb\"}"
    );
}

#[test]
fn wrapped_errors_render_their_text() {
    assert_eq!(ArtifactoryError::HttpClient("timeout".to_string()).message(), "timeout");
    assert_eq!(ArtifactoryError::BuilderCore("no url".to_string()).message(), "no url");
    assert_eq!(ArtifactoryError::IO("denied".to_string()).message(), "denied");
    assert_eq!(ArtifactoryError::HabitatCore("corrupt".to_string()).message(), "corrupt");
}

#[test]
fn status_range_and_success() {
    assert!(HttpStatus::from_u16(99).is_none());
    assert!(HttpStatus::from_u16(1000).is_none());
    assert!(HttpStatus::from_u16(0).is_none());
    assert_eq!(HttpStatus::from_u16(100).unwrap().as_u16(), 100);
    assert_eq!(HttpStatus::from_u16(999).unwrap().as_u16(), 999);
    assert!(HttpStatus::from_u16(200).unwrap().is_success());
    assert!(HttpStatus::from_u16(299).unwrap().is_success());
    assert!(!HttpStatus::from_u16(300).unwrap().is_success());
    assert!(!HttpStatus::from_u16(199).unwrap().is_success());
    assert_eq!(HttpStatus::from_u16(410).unwrap().text(), "410 Gone");
    assert_eq!(HttpStatus::from_u16(200).unwrap().text(), "200 OK");
}

#[test]
fn response_details_insert_replaces_in_place() {
    let mut details = ResponseDetails::new();
    assert_eq!(details.len(), 0);
    assert_eq!(details.insert("a".to_string(), "1".to_string()), None);
    assert_eq!(details.insert("b".to_string(), "2".to_string()), None);
    assert_eq!(details.insert("a".to_string(), "3".to_string()), Some("1".to_string()));
    assert_eq!(details.len(), 2);
    let err = ArtifactoryError::ApiError(HttpStatus::from_u16(409).unwrap(), details);
    assert_eq!(
        err.message(),
        "Received a non-200 response, status=409 Conflict, response={\"a\": \"3\", \"b\": \"2\"}"
    );
}
