use slack_client::client::dispatch_script;
use slack_client::client::handle_status;
use slack_client::client::parse_retry_after;
use slack_client::client::DispatchVerdict;
use slack_client::client::ResponseDirective;
use slack_client::client::ScriptedResult;
use slack_client::client::ATTEMPT_CEILING;
use slack_client::Error;
use slack_client::HttpFailure;

fn ok_response() -> ScriptedResult {
    ScriptedResult::Response { status: 200, retry_after: None }
}

fn rate_limited(retry_after: &[u8]) -> ScriptedResult {
    ScriptedResult::Response { status: 429, retry_after: Some(retry_after.to_vec()) }
}

fn padded(mut script: Vec<ScriptedResult>) -> Vec<ScriptedResult> {
    while script.len() < ATTEMPT_CEILING {
        script.push(ok_response());
    }
    script
}

#[test]
fn success_on_first_attempt_sends_once() {
    let script = padded(vec![ok_response()]);
    let (verdict, sends) = dispatch_script(true, true, &script);
    assert_eq!(verdict, DispatchVerdict::Delivered { send_index: 0 });
    assert_eq!(sends, 1);
}

#[test]
fn persistent_rate_limiting_exhausts_after_exactly_five_sends() {
    let script = vec![
        rate_limited(b"0"),
        rate_limited(b"0"),
        rate_limited(b"0"),
        rate_limited(b"0"),
        rate_limited(b"0"),
        rate_limited(b"0"),
        rate_limited(b"0"),
    ];
    let (verdict, sends) = dispatch_script(true, true, &script);
    assert_eq!(verdict, DispatchVerdict::Failed(Error::ExhaustedRateLimits));
    assert_eq!(sends, ATTEMPT_CEILING);
}

#[test]
fn recovery_after_two_rate_limits_delivers_third_send() {
    let script = padded(vec![rate_limited(b"1"), rate_limited(b"2"), ok_response()]);
    let (verdict, sends) = dispatch_script(true, true, &script);
    assert_eq!(verdict, DispatchVerdict::Delivered { send_index: 2 });
    assert_eq!(sends, 3);
}

#[test]
fn large_retry_after_counts_are_still_retried() {
    let script = padded(vec![rate_limited(b"300"), ok_response()]);
    let (verdict, sends) = dispatch_script(true, true, &script);
    assert_eq!(verdict, DispatchVerdict::Delivered { send_index: 1 });
    assert_eq!(sends, 2);
}

#[test]
fn missing_retry_after_is_not_retried() {
    let script = padded(vec![ScriptedResult::Response { status: 429, retry_after: None }]);
    let (verdict, sends) = dispatch_script(true, true, &script);
    assert_eq!(verdict, DispatchVerdict::Failed(Error::Http(HttpFailure::Status(429))));
    assert_eq!(sends, 1);
}

#[test]
fn non_numeric_retry_after_is_not_retried() {
    let script = padded(vec![rate_limited(b"soon")]);
    let (verdict, sends) = dispatch_script(true, true, &script);
    assert_eq!(verdict, DispatchVerdict::Failed(Error::Http(HttpFailure::Status(429))));
    assert_eq!(sends, 1);
}

#[test]
fn parseable_rate_limit_on_unregistered_endpoint_is_not_retried() {
    let script = padded(vec![rate_limited(b"7")]);
    let (verdict, sends) = dispatch_script(false, true, &script);
    assert_eq!(verdict, DispatchVerdict::Failed(Error::Http(HttpFailure::Status(429))));
    assert_eq!(sends, 1);
}

#[test]
fn transport_failure_surfaces_without_retry() {
    let script = padded(vec![ScriptedResult::NoResponse]);
    let (verdict, sends) = dispatch_script(true, true, &script);
    assert_eq!(verdict, DispatchVerdict::Failed(Error::Http(HttpFailure::NoResponse)));
    assert_eq!(sends, 1);
}

#[test]
fn server_error_surfaces_without_retry() {
    let script = padded(vec![ScriptedResult::Response { status: 500, retry_after: None }]);
    let (verdict, sends) = dispatch_script(true, true, &script);
    assert_eq!(verdict, DispatchVerdict::Failed(Error::Http(HttpFailure::Status(500))));
    assert_eq!(sends, 1);
}

#[test]
fn encoding_failure_never_touches_the_network() {
    let script = padded(vec![ok_response()]);
    let (verdict, sends) = dispatch_script(true, false, &script);
    assert_eq!(verdict, DispatchVerdict::Failed(Error::RequestEncoding));
    assert_eq!(sends, 0);
}

#[test]
fn redirect_status_is_handed_to_the_decoder() {
    assert_eq!(handle_status(true, 302, None), ResponseDirective::ParseBody);
}

#[test]
fn handle_status_interprets_each_case() {
    assert_eq!(
        handle_status(true, 429, Some(b"12")),
        ResponseDirective::RetryAfter { seconds: 12 }
    );
    assert_eq!(
        handle_status(true, 429, Some(b"300")),
        ResponseDirective::RetryAfter { seconds: 300 }
    );
    assert_eq!(handle_status(false, 429, Some(b"12")), ResponseDirective::Fail { status: 429 });
    assert_eq!(handle_status(true, 429, Some(b"nope")), ResponseDirective::Fail { status: 429 });
    assert_eq!(handle_status(true, 429, None), ResponseDirective::Fail { status: 429 });
    assert_eq!(handle_status(true, 404, None), ResponseDirective::Fail { status: 404 });
    assert_eq!(handle_status(true, 200, None), ResponseDirective::ParseBody);
}

#[test]
fn retry_after_parsing_matches_integer_seconds() {
    assert_eq!(parse_retry_after(b"0"), Some(0));
    assert_eq!(parse_retry_after(b"3"), Some(3));
    assert_eq!(parse_retry_after(b"007"), Some(7));
    assert_eq!(parse_retry_after(b"+12"), Some(12));
    assert_eq!(parse_retry_after(b"300"), Some(300));
    assert_eq!(parse_retry_after(b"86400"), Some(86400));
    assert_eq!(parse_retry_after(b"18446744073709551615"), Some(u64::MAX));
    // Beyond the 64-bit machine bound there is no usable count.
    assert_eq!(parse_retry_after(b"18446744073709551616"), None);
    assert_eq!(parse_retry_after(b"99999999999999999999"), None);
    assert_eq!(parse_retry_after(b""), None);
    assert_eq!(parse_retry_after(b"+"), None);
    assert_eq!(parse_retry_after(b"++1"), None);
    assert_eq!(parse_retry_after(b"-1"), None);
    assert_eq!(parse_retry_after(b" 5"), None);
    assert_eq!(parse_retry_after(b"12x"), None);
    assert_eq!(parse_retry_after(b"1.5"), None);
}
