use jellyfish::engine::fallback_decision;
use jellyfish::engine::fallback_target;
use jellyfish::engine::forbidden_message;
use jellyfish::engine::route_request;
use jellyfish::engine::ApiParams;
use jellyfish::engine::ResponseOutcome;
use jellyfish::engine::RoutePlan;
use jellyfish::metadata_api::file_info;
use jellyfish::path_sanitize::sanitize;
use jellyfish::resource::ResourceDescriptor;
use jellyfish::resource::Timestamp;
use jellyfish::static_responder::serve_static;

fn no_params() -> ApiParams {
    ApiParams { info: false, list: false }
}

#[test]
fn forbidden_wins_over_everything() {
    let plan = route_request(false, &ApiParams { info: true, list: true }, false);
    assert!(matches!(plan, RoutePlan::RespondForbidden));
}

#[test]
fn info_wins_over_list() {
    let plan = route_request(false, &ApiParams { info: true, list: true }, true);
    assert!(matches!(plan, RoutePlan::ApiFileInfo));
    let plan = route_request(false, &ApiParams { info: false, list: true }, true);
    assert!(matches!(plan, RoutePlan::ApiListDirectory));
}

#[test]
fn spa_mode_ignores_api_flags() {
    let plan = route_request(true, &ApiParams { info: true, list: true }, true);
    assert!(matches!(plan, RoutePlan::TryStatic));
}

#[test]
fn plain_request_tries_static() {
    let plan = route_request(false, &no_params(), true);
    assert!(matches!(plan, RoutePlan::TryStatic));
}

#[test]
fn static_hit_carries_bytes_and_guessed_type() {
    let lookup = ResourceDescriptor::File { size: 2, modified: Timestamp { secs: 0, nanos: 0 } };
    let hit = serve_static("index.html", &lookup, Some(b"hi".to_vec())).unwrap();
    assert_eq!(hit.bytes, b"hi".to_vec());
    assert_eq!(hit.content_type, "text/html");
}

#[test]
fn unknown_extension_defaults_to_octet_stream() {
    let lookup = ResourceDescriptor::File { size: 1, modified: Timestamp { secs: 0, nanos: 0 } };
    let hit = serve_static("data.qqqzzz", &lookup, Some(b"x".to_vec())).unwrap();
    assert_eq!(hit.content_type, "application/octet-stream");
}

#[test]
fn missing_resource_is_a_miss() {
    assert!(serve_static("x.txt", &ResourceDescriptor::Missing, None).is_none());
}

#[test]
fn unreadable_file_is_a_miss_not_an_error() {
    let lookup = ResourceDescriptor::File { size: 9, modified: Timestamp { secs: 0, nanos: 0 } };
    assert!(serve_static("x.txt", &lookup, None).is_none());
}

#[test]
fn fallback_target_depends_on_mode() {
    assert_eq!(fallback_target(true), "index.html");
    assert_eq!(fallback_target(false), "404.html");
}

#[test]
fn scenario_static_miss_without_custom_page_uses_builtin_404() {
    // SPA mode off; /missing.js exists nowhere and the root has no 404.html
    let sp = sanitize("/missing.js").unwrap();
    assert_eq!(sp.render(), "missing.js");
    let plan = route_request(false, &no_params(), true);
    assert!(matches!(plan, RoutePlan::TryStatic));
    let miss = serve_static("missing.js", &ResourceDescriptor::Missing, None);
    assert!(miss.is_none());
    let outcome = fallback_decision(false, None);
    match &outcome {
        ResponseOutcome::NotFoundBuiltin { content } => {
            assert!(content.contains("404"));
        }
        other => panic!("unexpected outcome: status {}", other.status()),
    }
    assert_eq!(outcome.status(), 404);
}

#[test]
fn scenario_custom_404_page_is_served_when_present() {
    let outcome = fallback_decision(false, Some(String::from("<h1>custom</h1>")));
    match &outcome {
        ResponseOutcome::NotFoundCustom { content } => assert_eq!(content, "<h1>custom</h1>"),
        other => panic!("unexpected outcome: status {}", other.status()),
    }
    assert_eq!(outcome.status(), 404);
}

#[test]
fn scenario_spa_miss_serves_index_content() {
    // SPA mode on; /app/settings matches no file, index.html is readable
    let sp = sanitize("/app/settings").unwrap();
    let plan = route_request(true, &ApiParams { info: false, list: false }, true);
    assert!(matches!(plan, RoutePlan::TryStatic));
    let miss = serve_static(&sp.render(), &ResourceDescriptor::Missing, None);
    assert!(miss.is_none());
    let outcome = fallback_decision(true, Some(String::from("<html>spa</html>")));
    match &outcome {
        ResponseOutcome::SpaIndex { content } => assert_eq!(content, "<html>spa</html>"),
        other => panic!("unexpected outcome: status {}", other.status()),
    }
    assert_eq!(outcome.status(), 200);
}

#[test]
fn scenario_spa_with_missing_index_is_a_server_error() {
    // SPA mode on, index.html deleted after startup
    let outcome = fallback_decision(true, None);
    match &outcome {
        ResponseOutcome::InternalError { message } => {
            assert_eq!(message, "SPA mode is on, but index.html could not be found.");
        }
        other => panic!("unexpected outcome: status {}", other.status()),
    }
    assert_eq!(outcome.status(), 500);
}

#[test]
fn scenario_info_query_returns_metadata_json() {
    // GET /docs/report.pdf?info, SPA off, the file exists with 1024 bytes
    let sp = sanitize("/docs/report.pdf").unwrap();
    let plan = route_request(false, &ApiParams { info: true, list: false }, true);
    assert!(matches!(plan, RoutePlan::ApiFileInfo));
    let lookup = Ok(ResourceDescriptor::File {
        size: 1024,
        modified: Timestamp { secs: 1_700_000_000, nanos: 0 },
    });
    let payload = file_info(&sp.render(), &lookup, &Ok(vec![0u8; 1024]));
    assert_eq!(payload.status, 200);
    assert!(payload.body.contains("\"size_bytes\":1024"));
    assert!(payload.body.contains("\"modified_time\":\"2023-11-14T22:13:20+00:00\""));
    assert!(payload.body.contains("\"path\":\"docs/report.pdf\""));
    let marker = "\"hash_xxh64\":\"";
    let at = payload.body.find(marker).unwrap() + marker.len();
    assert_eq!(payload.body.as_bytes()[at + 16], b'"');
}

#[test]
fn scenario_encoded_traversal_is_forbidden_before_any_lookup() {
    // GET /..%2f..%2fetc%2fpasswd is rejected by path inspection alone
    let sanitized = sanitize("/..%2f..%2fetc%2fpasswd");
    assert!(sanitized.is_err());
    let plan = route_request(false, &no_params(), sanitized.is_ok());
    assert!(matches!(plan, RoutePlan::RespondForbidden));
    let outcome = ResponseOutcome::Forbidden;
    assert_eq!(outcome.status(), 403);
    assert_eq!(forbidden_message(), "Path traversal is not allowed.");
}
