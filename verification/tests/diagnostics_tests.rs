use jenkinsfile_ls::diagnostics::{parse_jenkins_response, DiagnosticSeverity};

#[test]
fn test_parse_success_message() {
    let response = "Jenkinsfile successfully validated.";
    let diagnostics = parse_jenkins_response(response);
    assert!(diagnostics.is_empty());
}

#[test]
fn test_parse_single_error() {
    let response = "WorkflowScript: 46: unexpected token: } @ line 46, column 1.";
    let diagnostics = parse_jenkins_response(response);

    assert_eq!(diagnostics.len(), 1);
    assert_eq!(diagnostics[0].message, "unexpected token: }");
    assert_eq!(diagnostics[0].range.start.line, 45); // 0-indexed
    assert_eq!(diagnostics[0].range.start.character, 0); // 0-indexed
    assert_eq!(diagnostics[0].severity, Some(DiagnosticSeverity::Error));
    assert_eq!(diagnostics[0].source, Some("jenkinsfile-ls".to_string()));
}

#[test]
fn test_parse_multiple_errors() {
    let response = r#"
WorkflowScript: 10: Unexpected input @ line 10, column 5.
Some other output line
WorkflowScript: 20: Missing closing brace @ line 20, column 3.
        "#;

    let diagnostics = parse_jenkins_response(response);

    assert_eq!(diagnostics.len(), 2);

    // First error
    assert_eq!(diagnostics[0].message, "Unexpected input");
    assert_eq!(diagnostics[0].range.start.line, 9);
    assert_eq!(diagnostics[0].range.start.character, 4);

    // Second error
    assert_eq!(diagnostics[1].message, "Missing closing brace");
    assert_eq!(diagnostics[1].range.start.line, 19);
    assert_eq!(diagnostics[1].range.start.character, 2);
}

#[test]
fn test_parse_no_errors() {
    let response = "Some random output\nwithout any errors";
    let diagnostics = parse_jenkins_response(response);
    assert!(diagnostics.is_empty());
}

#[test]
fn test_parse_complex_message() {
    let response = "WorkflowScript: 15: expecting '}', found 'stage' @ line 15, column 10.";
    let diagnostics = parse_jenkins_response(response);

    assert_eq!(diagnostics.len(), 1);
    assert_eq!(diagnostics[0].message, "expecting '}', found 'stage'");
    assert_eq!(diagnostics[0].range.start.line, 14);
    assert_eq!(diagnostics[0].range.start.character, 9);
}

#[test]
fn test_parse_empty_response() {
    assert!(parse_jenkins_response("").is_empty());
}

#[test]
fn test_parse_success_with_extra_text() {
    let response = "some preamble\nJenkinsfile successfully validated.\nand a trailing note";
    assert!(parse_jenkins_response(response).is_empty());
}

#[test]
fn test_parse_success_overrides_matching_line() {
    // The success check runs before parsing, so a matching error line in the
    // same body yields nothing.
    let response =
        "WorkflowScript: 3: oops @ line 3, column 1.\nJenkinsfile successfully validated.";
    assert!(parse_jenkins_response(response).is_empty());
}

#[test]
fn test_parse_point_range_and_tags() {
    let response = "WorkflowScript: 7: bad step @ line 7, column 9.";
    let diagnostics = parse_jenkins_response(response);
    assert_eq!(diagnostics.len(), 1);
    let d = &diagnostics[0];
    assert_eq!(d.range.start, d.range.end);
    assert_eq!(d.severity, Some(DiagnosticSeverity::Error));
    assert_eq!(d.source, Some("jenkinsfile-ls".to_string()));
}

#[test]
fn test_parse_reported_zero_and_one_map_to_zero() {
    let zero = parse_jenkins_response("WorkflowScript: 1: at origin @ line 0, column 0.");
    assert_eq!(zero.len(), 1);
    assert_eq!(zero[0].range.start.line, 0);
    assert_eq!(zero[0].range.start.character, 0);

    let one = parse_jenkins_response("WorkflowScript: 1: at origin @ line 1, column 1.");
    assert_eq!(one.len(), 1);
    assert_eq!(one[0].range.start.line, 0);
    assert_eq!(one[0].range.start.character, 0);
}

#[test]
fn test_parse_is_deterministic() {
    let response = "WorkflowScript: 10: Unexpected input @ line 10, column 5.\nnoise\nWorkflowScript: 20: Missing closing brace @ line 20, column 3.";
    let first = parse_jenkins_response(response);
    let second = parse_jenkins_response(response);
    assert_eq!(first, second);
}

#[test]
fn test_parse_output_length_matches_lines() {
    let response = "WorkflowScript: 1: a @ line 1, column 1.\nnot an error\nWorkflowScript: 2: b @ line 2, column 2.\nWorkflowScript: broken line\nWorkflowScript: 3: c @ line 3, column 3.";
    let diagnostics = parse_jenkins_response(response);
    assert_eq!(diagnostics.len(), 3);
    assert_eq!(diagnostics[0].message, "a");
    assert_eq!(diagnostics[1].message, "b");
    assert_eq!(diagnostics[2].message, "c");
}

#[test]
fn test_parse_number_too_large_skips_line() {
    // 4294967296 does not fit in 32 bits, so the line is skipped.
    let response = "WorkflowScript: 1: huge @ line 4294967296, column 1.\nWorkflowScript: 2: fine @ line 4294967295, column 2.";
    let diagnostics = parse_jenkins_response(response);
    assert_eq!(diagnostics.len(), 1);
    assert_eq!(diagnostics[0].message, "fine");
    assert_eq!(diagnostics[0].range.start.line, 4294967294);
    assert_eq!(diagnostics[0].range.start.character, 1);
}

#[test]
fn test_parse_crlf_lines() {
    let response =
        "WorkflowScript: 4: first @ line 4, column 2.\r\nWorkflowScript: 6: second @ line 6, column 8.\r\n";
    let diagnostics = parse_jenkins_response(response);
    assert_eq!(diagnostics.len(), 2);
    assert_eq!(diagnostics[0].message, "first");
    assert_eq!(diagnostics[0].range.start.line, 3);
    assert_eq!(diagnostics[1].message, "second");
    assert_eq!(diagnostics[1].range.start.character, 7);
}

#[test]
fn test_parse_flexible_whitespace() {
    let response = "WorkflowScript:\t12:\tmessage here @ line  12,  column  7.";
    let diagnostics = parse_jenkins_response(response);
    assert_eq!(diagnostics.len(), 1);
    assert_eq!(diagnostics[0].message, "message here");
    assert_eq!(diagnostics[0].range.start.line, 11);
    assert_eq!(diagnostics[0].range.start.character, 6);
}

#[test]
fn test_parse_message_keeps_inner_at_sign() {
    // The message is extended just far enough that the rest of the pattern
    // still matches: the first `@` here belongs to the message.
    let response = "WorkflowScript: 9: bad char '@' in step @ line 9, column 4.";
    let diagnostics = parse_jenkins_response(response);
    assert_eq!(diagnostics.len(), 1);
    assert_eq!(diagnostics[0].message, "bad char '@' in step");
    assert_eq!(diagnostics[0].range.start.line, 8);
    assert_eq!(diagnostics[0].range.start.character, 3);
}
