//! Classification of the Jenkins HTTP exchange.
//!
//! Validating a document is a two-step handshake: fetch a CSRF crumb from
//! `{base}/crumbIssuer/api/json`, then POST the document text to
//! `{base}/pipeline-model-converter/validate` with the crumb attached. The
//! functions here hold the decisions of that handshake — how a response
//! status and body are sorted into a crumb, an outcome, or an error, and
//! how a missing crumb endpoint falls back to an empty crumb — as verified
//! logic over plain values. Performing the requests is the caller's job.

use vstd::prelude::*;
use vstd::string::StringExecFns;

use crate::diagnostics::success_lit;
use crate::text::{chars_of, contains_exec, contains_seq, dec_str, decimal_of_u16};
use crate::types::{Crumb, LspError, ValidationResult};

verus! {

/// Failure of the crumb request. The missing-endpoint case is kept apart
/// so the caller can recognize it and fall back; every other failure
/// carries the error to surface.
#[derive(Debug)]
pub enum CrumbFailure {
    /// The crumb issuer endpoint answered 404: CSRF protection is likely
    /// disabled on the controller.
    EndpointMissing,
    Other(LspError),
}

impl CrumbFailure {
    /// The error to surface when the failure is not recovered from.
    pub fn into_error(self) -> (e: LspError)
        ensures
            self matches CrumbFailure::Other(inner) ==> e == inner,
            self is EndpointMissing ==> (e matches LspError::JenkinsApi(m) && m@
                == "Crumb issuer endpoint not found. CSRF protection may be disabled."@),
    {
        match self {
            CrumbFailure::EndpointMissing => LspError::JenkinsApi(
                "Crumb issuer endpoint not found. CSRF protection may be disabled.".to_owned(),
            ),
            CrumbFailure::Other(e) => e,
        }
    }
}

/// What the crumb endpoint's JSON decodes to: the values of the string
/// fields `crumb` and `crumbRequestField` of the response object, if both
/// are present.
pub uninterp spec fn crumb_json_of(s: Seq<char>) -> Option<(Seq<char>, Seq<char>)>;

/// Relies on serde_json::from_str: whether a string is a JSON object with
/// string fields `crumb` and `crumbRequestField`, and what they hold, is a
/// function of the string alone.
#[verifier::external_body]
fn decode_crumb_json(body: &str) -> (r: Option<Crumb>)
    ensures
        match r {
            Some(c) => crumb_json_of(body@) == Some((c.crumb@, c.crumb_request_field@)),
            None => crumb_json_of(body@) is None,
        },
{
    let value: serde_json::Value = serde_json::from_str(body).ok()?;
    let crumb = value.get("crumb")?.as_str()?.to_string();
    let crumb_request_field = value.get("crumbRequestField")?.as_str()?.to_string();
    Some(Crumb { crumb, crumb_request_field })
}

/// A status in the 2xx range.
pub open spec fn status_success(status: u16) -> bool {
    200 <= status < 300
}

/// Sort the crumb endpoint's answer: a 2xx response decodes the crumb
/// JSON (an undecodable body is a network-level fault, as a failed decode
/// of the transport's payload), 401 is an authentication failure, 404
/// marks the endpoint missing, and any other status is a Jenkins API error
/// naming status and body.
pub fn classify_crumb_response(status: u16, body: &str) -> (r: Result<Crumb, CrumbFailure>)
    ensures
        status_success(status) ==> match crumb_json_of(body@) {
            Some(p) => (r matches Ok(c) && c.crumb@ == p.0 && c.crumb_request_field@ == p.1),
            None => (r matches Err(CrumbFailure::Other(LspError::Network(m))) && m@
                == "could not decode the crumb response"@),
        },
        status == 401 ==> (r matches Err(CrumbFailure::Other(LspError::Auth(m))) && m@
            == "Authentication failed. Check your credentials."@),
        status == 404 ==> r is Err && (r matches Err(f) ==> f is EndpointMissing),
        !status_success(status) && status != 401 && status != 404 ==> (r matches Err(
            CrumbFailure::Other(LspError::JenkinsApi(m)),
        ) && m@ == "Failed to get crumb: "@ + dec_str(status as nat) + " - "@ + body@),
{
    if 200 <= status && status < 300 {
        match decode_crumb_json(body) {
            Some(c) => Ok(c),
            None => Err(
                CrumbFailure::Other(
                    LspError::Network("could not decode the crumb response".to_owned()),
                ),
            ),
        }
    } else if status == 401 {
        Err(
            CrumbFailure::Other(
                LspError::Auth("Authentication failed. Check your credentials.".to_owned()),
            ),
        )
    } else if status == 404 {
        Err(CrumbFailure::EndpointMissing)
    } else {
        let mut m = "Failed to get crumb: ".to_owned();
        m.append(decimal_of_u16(status).as_str());
        m.append(" - ");
        m.append(body);
        Err(CrumbFailure::Other(LspError::JenkinsApi(m)))
    }
}

/// Resolve the crumb step: a missing crumb endpoint falls back to an empty
/// crumb under the default header name, so validation proceeds without
/// CSRF protection; a crumb and every other failure pass through.
pub fn resolve_crumb(r: Result<Crumb, CrumbFailure>) -> (out: Result<Crumb, LspError>)
    ensures
        r matches Ok(c) ==> (out matches Ok(c2) && c2 == c),
        (r matches Err(f) && f is EndpointMissing) ==> (out matches Ok(c) && c.crumb@
            == Seq::<char>::empty() && c.crumb_request_field@ == "Jenkins-Crumb"@),
        r matches Err(CrumbFailure::Other(e)) ==> (out matches Err(e2) && e2 == e),
{
    match r {
        Ok(c) => Ok(c),
        Err(CrumbFailure::EndpointMissing) => Ok(
            Crumb { crumb: String::new(), crumb_request_field: "Jenkins-Crumb".to_owned() },
        ),
        Err(CrumbFailure::Other(e)) => Err(e),
    }
}

/// Sort the validation endpoint's answer: a 2xx response hands back the
/// body for parsing, 401 is an authentication failure, 404 means the
/// validator plugin is missing, and any other status is a Jenkins API
/// error naming status and body.
pub fn classify_validate_response(status: u16, body: String) -> (r: Result<String, LspError>)
    ensures
        status_success(status) ==> (r matches Ok(b) && b@ == body@),
        status == 401 ==> (r matches Err(LspError::Auth(m)) && m@
            == "Authentication failed during validation."@),
        status == 404 ==> (r matches Err(LspError::JenkinsApi(m)) && m@
            == "Validation endpoint not found. Ensure pipeline-model-definition plugin is installed."@),
        !status_success(status) && status != 401 && status != 404 ==> (r matches Err(
            LspError::JenkinsApi(m),
        ) && m@ == "Validation request failed: "@ + dec_str(status as nat) + " - "@ + body@),
{
    if 200 <= status && status < 300 {
        Ok(body)
    } else if status == 401 {
        Err(LspError::Auth("Authentication failed during validation.".to_owned()))
    } else if status == 404 {
        Err(
            LspError::JenkinsApi(
                "Validation endpoint not found. Ensure pipeline-model-definition plugin is installed.".to_owned(),
            ),
        )
    } else {
        let mut m = "Validation request failed: ".to_owned();
        m.append(decimal_of_u16(status).as_str());
        m.append(" - ");
        m.append(body.as_str());
        Err(LspError::JenkinsApi(m))
    }
}

/// Classify a validation body: a body containing the success marker means
/// the Jenkinsfile passed; any other body is an error outcome carrying the
/// body verbatim.
pub fn outcome_of_body(body: String) -> (r: ValidationResult)
    ensures
        contains_seq(body@, success_lit()) ==> r is Success,
        !contains_seq(body@, success_lit()) ==> (r matches ValidationResult::Error(b) && b@
            == body@),
{
    let chars = chars_of(body.as_str());
    let needle = chars_of("Jenkinsfile successfully validated.");
    if contains_exec(&chars, &needle) {
        ValidationResult::Success
    } else {
        ValidationResult::Error(body)
    }
}

/// The message a failed validation surfaces to the user: authentication
/// failures name the credentials; any other failure reports a failed
/// validation. Neither kind publishes diagnostics.
pub fn validation_failure_message(e: &LspError) -> (r: String)
    ensures
        e matches LspError::Auth(m) ==> r@ == "Jenkins authentication failed: "@ + m@,
        !(e is Auth) ==> r@ == "Validation failed: "@ + e.spec_message(),
{
    match e {
        LspError::Auth(m) => {
            let mut s = "Jenkins authentication failed: ".to_owned();
            s.append(m.as_str());
            s
        },
        _ => {
            let mut s = "Validation failed: ".to_owned();
            s.append(e.message().as_str());
            s
        },
    }
}

} // verus!
