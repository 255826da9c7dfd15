use jenkinsfile_ls::jenkins::{
    classify_crumb_response, classify_validate_response, outcome_of_body, resolve_crumb,
    validation_failure_message, CrumbFailure,
};
use jenkinsfile_ls::types::{LspError, ValidationResult};

#[test]
fn test_crumb_success_decodes_json() {
    let body = "{\"crumb\": \"abc123\", \"crumbRequestField\": \"Jenkins-Crumb\"}";
    let crumb = classify_crumb_response(200, body).unwrap();
    assert_eq!(crumb.crumb, "abc123");
    assert_eq!(crumb.crumb_request_field, "Jenkins-Crumb");
}

#[test]
fn test_crumb_success_with_extra_fields() {
    let body = "{\"_class\": \"hudson.security.csrf.DefaultCrumbIssuer\", \"crumb\": \"x\", \"crumbRequestField\": \"Other-Field\"}";
    let crumb = classify_crumb_response(201, body).unwrap();
    assert_eq!(crumb.crumb, "x");
    assert_eq!(crumb.crumb_request_field, "Other-Field");
}

#[test]
fn test_crumb_undecodable_body_is_network_error() {
    match classify_crumb_response(200, "not json at all") {
        Err(CrumbFailure::Other(LspError::Network(_))) => {}
        other => panic!("unexpected result: {:?}", other),
    }
}

#[test]
fn test_crumb_unauthorized() {
    match classify_crumb_response(401, "") {
        Err(CrumbFailure::Other(LspError::Auth(m))) => {
            assert_eq!(m, "Authentication failed. Check your credentials.")
        }
        other => panic!("unexpected result: {:?}", other),
    }
}

#[test]
fn test_crumb_endpoint_missing_falls_back() {
    let failed = classify_crumb_response(404, "");
    assert!(matches!(failed, Err(CrumbFailure::EndpointMissing)));
    let crumb = resolve_crumb(failed).unwrap();
    assert_eq!(crumb.crumb, "");
    assert_eq!(crumb.crumb_request_field, "Jenkins-Crumb");
}

#[test]
fn test_crumb_other_status_is_api_error() {
    match classify_crumb_response(500, "boom") {
        Err(CrumbFailure::Other(LspError::JenkinsApi(m))) => {
            assert_eq!(m, "Failed to get crumb: 500 - boom")
        }
        other => panic!("unexpected result: {:?}", other),
    }
}

#[test]
fn test_resolve_crumb_passes_other_errors_through() {
    let failed: Result<_, _> =
        Err(CrumbFailure::Other(LspError::Auth("denied".to_string())));
    match resolve_crumb(failed) {
        Err(LspError::Auth(m)) => assert_eq!(m, "denied"),
        other => panic!("unexpected result: {:?}", other),
    }
}

#[test]
fn test_crumb_failure_into_error() {
    match CrumbFailure::EndpointMissing.into_error() {
        LspError::JenkinsApi(m) => {
            assert_eq!(m, "Crumb issuer endpoint not found. CSRF protection may be disabled.")
        }
        other => panic!("unexpected result: {:?}", other),
    }
}

#[test]
fn test_validate_response_success_returns_body() {
    let body = classify_validate_response(200, "Jenkinsfile successfully validated.".to_string())
        .unwrap();
    assert_eq!(body, "Jenkinsfile successfully validated.");
}

#[test]
fn test_validate_response_unauthorized() {
    match classify_validate_response(401, "".to_string()) {
        Err(LspError::Auth(m)) => assert_eq!(m, "Authentication failed during validation."),
        other => panic!("unexpected result: {:?}", other),
    }
}

#[test]
fn test_validate_response_plugin_missing() {
    match classify_validate_response(404, "".to_string()) {
        Err(LspError::JenkinsApi(m)) => assert_eq!(
            m,
            "Validation endpoint not found. Ensure pipeline-model-definition plugin is installed."
        ),
        other => panic!("unexpected result: {:?}", other),
    }
}

#[test]
fn test_validate_response_other_status() {
    match classify_validate_response(503, "down".to_string()) {
        Err(LspError::JenkinsApi(m)) => {
            assert_eq!(m, "Validation request failed: 503 - down")
        }
        other => panic!("unexpected result: {:?}", other),
    }
}

#[test]
fn test_validate_response_other_2xx_is_success() {
    let body = classify_validate_response(250, "whatever".to_string()).unwrap();
    assert_eq!(body, "whatever");
}

#[test]
fn test_validate_response_formats_any_status_number() {
    match classify_validate_response(1000, "x".to_string()) {
        Err(LspError::JenkinsApi(m)) => {
            assert_eq!(m, "Validation request failed: 1000 - x")
        }
        other => panic!("unexpected result: {:?}", other),
    }
}

#[test]
fn test_outcome_success_marker() {
    let r = outcome_of_body("Jenkinsfile successfully validated.".to_string());
    assert!(matches!(r, ValidationResult::Success));
}

#[test]
fn test_outcome_error_keeps_body() {
    let body = "WorkflowScript: 1: nope @ line 1, column 1.";
    match outcome_of_body(body.to_string()) {
        ValidationResult::Error(b) => assert_eq!(b, body),
        other => panic!("unexpected result: {:?}", other),
    }
}

#[test]
fn test_error_message_rendering() {
    assert_eq!(
        LspError::Auth("denied".to_string()).message(),
        "Authentication failed: denied"
    );
    assert_eq!(
        LspError::Network("timeout".to_string()).message(),
        "Network error: timeout"
    );
    assert_eq!(
        LspError::Config("bad".to_string()).message(),
        "Configuration error: bad"
    );
}

#[test]
fn test_validation_failure_message_names_credentials_for_auth() {
    let msg = validation_failure_message(&LspError::Auth("denied".to_string()));
    assert_eq!(msg, "Jenkins authentication failed: denied");
}

#[test]
fn test_validation_failure_message_other_errors() {
    let msg = validation_failure_message(&LspError::Network("reset".to_string()));
    assert_eq!(msg, "Validation failed: Network error: reset");
}
