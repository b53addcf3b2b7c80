use vstd::prelude::*;
use crate::config::opt_view;
use crate::plan::{opt_str_view, Probe};
use crate::text::{contains_str, occurs_in, take_chars};

verus! {

/// The record of one probe.
pub struct UrlTestResult {
    pub environment_name: String,
    pub url: String,
    pub status_code: Option<u16>,
    pub response_body_preview: String,
    pub passed: bool,
    pub error_message: Option<String>,
    /// Wall-clock time of the probe, in nanoseconds.
    pub duration_nanos: u64,
    pub state_param: Option<String>,
}

/// The text that reqwest shows for an HTTP status: its code, a space and its reason phrase.
pub uninterp spec fn status_text_of(code: u16) -> Seq<char>;

/// Relies on `reqwest::StatusCode::from_u16`, which accepts every code from 100 to 999,
/// and on the `Display` of `StatusCode`, whose text depends on the code alone.
#[verifier::external_body]
fn status_text(code: u16) -> (r: String)
    requires
        100 <= code <= 999,
    ensures
        r@ == status_text_of(code),
{
    match reqwest::StatusCode::from_u16(code) {
        Ok(status) => status.to_string(),
        Err(e) => e.to_string(),
    }
}

/// An HTTP status in the success range.
pub open spec fn is_success(code: u16) -> bool {
    200 <= code <= 299
}

/// The text that marks an application-level error in a body: `"key":"code"`.
pub open spec fn app_error_needle(key: Seq<char>, code: Seq<char>) -> Seq<char> {
    "\""@ + key + "\":\""@ + code + "\""@
}

/// `"key":"code"`, the text searched for in a body.
pub fn build_app_error_needle(key: &str, code: &str) -> (r: String)
    ensures
        r@ == app_error_needle(key@, code@),
{
    let mut r = String::from_str("\"");
    r.append(key);
    r.append("\":\"");
    r.append(code);
    r.append("\"");
    r
}

/// The message of an application-level error, with the body's own message when it could
/// be read.
pub open spec fn app_error_text(key: Seq<char>, code: Seq<char>, message: Option<Seq<char>>) -> Seq<
    char,
> {
    let head = "App Error ("@ + key + ": "@ + code + "): "@;
    match message {
        Some(m) => head + m,
        None => head + "message parsing failed."@,
    }
}

/// The message of an application-level error.
pub fn app_error_message(key: &str, code: &str, message: Option<String>) -> (r: String)
    ensures
        r@ == app_error_text(key@, code@, opt_view(message)),
{
    let mut r = String::from_str("App Error (");
    r.append(key);
    r.append(": ");
    r.append(code);
    r.append("): ");
    match message {
        Some(m) => r.append(m.as_str()),
        None => r.append("message parsing failed."),
    }
    r
}

/// The first hundred characters of a body, or all of it when shorter.
pub open spec fn preview_of(body: Seq<char>) -> Seq<char> {
    body.take(if body.len() < 100 { body.len() as int } else { 100 })
}

/// The text a probe got as body: the body, or nothing when reading it failed.
pub open spec fn body_text(body: Result<String, String>) -> Seq<char> {
    match body {
        Ok(t) => t@,
        Err(_) => Seq::empty(),
    }
}

/// The body holds the configured application-level error.
pub open spec fn app_error_in(body: Seq<char>, key: Seq<char>, code: Option<Seq<char>>) -> bool {
    match code {
        Some(c) => occurs_in(body, app_error_needle(key, c)),
        None => false,
    }
}

/// The error message of a probe that got a response.
pub open spec fn response_error(
    status: u16,
    body: Result<String, String>,
    key: Seq<char>,
    code: Option<Seq<char>>,
    message: Option<Seq<char>>,
) -> Option<Seq<char>> {
    if !is_success(status) {
        Some("HTTP Status Error: "@ + status_text_of(status))
    } else if app_error_in(body_text(body), key, code) {
        Some(app_error_text(key, code->0, message))
    } else {
        match body {
            Err(e) => Some("Failed to read response body: "@ + e@),
            Ok(_) => None,
        }
    }
}

/// `prefix` opens `s`.
pub open spec fn starts_with(s: Seq<char>, prefix: Seq<char>) -> bool {
    prefix.len() <= s.len() && s.take(prefix.len() as int) == prefix
}

/// What holds of every result: only a success status passes, and a result with any other
/// status fails with an HTTP status error.
pub open spec fn well_classified(r: UrlTestResult) -> bool {
    &&& r.passed ==> (r.status_code matches Some(c) && is_success(c))
    &&& (r.status_code matches Some(c) && !is_success(c)) ==> {
        &&& !r.passed
        &&& r.error_message matches Some(m) && starts_with(m@, "HTTP Status Error: "@)
    }
}

/// The record of a probe whose request got no response; `error_text` says why.
pub fn transport_failure(probe: Probe, error_text: String, duration_nanos: u64) -> (r: UrlTestResult)
    ensures
        r.environment_name == probe.environment_name,
        r.url == probe.url,
        r.state_param == probe.state_param,
        r.status_code is None,
        r.response_body_preview@ == Seq::<char>::empty(),
        !r.passed,
        r.error_message == Some(error_text),
        r.duration_nanos == duration_nanos,
        well_classified(r),
{
    UrlTestResult {
        environment_name: probe.environment_name,
        url: probe.url,
        status_code: None,
        response_body_preview: String::new(),
        passed: false,
        error_message: Some(error_text),
        duration_nanos,
        state_param: probe.state_param,
    }
}

/// The record of a probe whose request got a response with `status`. `body` is the body
/// text, or why it could not be read; `body_message` is the `message` field of the body read
/// as a JSON object, when that reading succeeds. A success status passes unless the body
/// holds the configured application-level error or could not be read; any other status
/// fails. A body that could not be read counts as empty for the other checks, and its
/// failure is reported unless a status error or an application error takes precedence.
pub fn classify_response(
    probe: Probe,
    status: u16,
    body: Result<String, String>,
    app_error_key: &str,
    app_error_code: Option<&str>,
    body_message: Option<String>,
    duration_nanos: u64,
) -> (r: UrlTestResult)
    requires
        100 <= status <= 999,
    ensures
        r.environment_name == probe.environment_name,
        r.url == probe.url,
        r.state_param == probe.state_param,
        r.status_code == Some(status),
        r.response_body_preview@ == preview_of(body_text(body)),
        r.passed == (is_success(status) && body is Ok && !app_error_in(
            body_text(body),
            app_error_key@,
            opt_str_view(app_error_code),
        )),
        opt_view(r.error_message) == response_error(
            status,
            body,
            app_error_key@,
            opt_str_view(app_error_code),
            opt_view(body_message),
        ),
        r.duration_nanos == duration_nanos,
        well_classified(r),
{
    let (text, read_error) = match body {
        Ok(t) => (t, None),
        Err(e) => (String::new(), Some(e)),
    };
    let preview = take_chars(text.as_str(), 100);
    let mut passed = false;
    let mut error_message: Option<String> = None;
    if 200 <= status && status <= 299 {
        let mut app_error = false;
        if let Some(code) = app_error_code {
            let needle = build_app_error_needle(app_error_key, code);
            if contains_str(text.as_str(), needle.as_str()) {
                app_error = true;
                error_message = Some(app_error_message(app_error_key, code, body_message));
            }
        }
        if !app_error {
            match read_error {
                Some(e) => {
                    let mut m = String::from_str("Failed to read response body: ");
                    m.append(e.as_str());
                    error_message = Some(m);
                },
                None => {
                    passed = true;
                },
            }
        }
    } else {
        let mut m = String::from_str("HTTP Status Error: ");
        let t = status_text(status);
        m.append(t.as_str());
        assert(m@.take("HTTP Status Error: "@.len() as int) =~= "HTTP Status Error: "@);
        error_message = Some(m);
    }
    UrlTestResult {
        environment_name: probe.environment_name,
        url: probe.url,
        status_code: Some(status),
        response_body_preview: preview,
        passed,
        error_message,
        duration_nanos,
        state_param: probe.state_param,
    }
}

} // verus!
