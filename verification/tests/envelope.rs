use slack_client::newtypes::ChannelId;
use slack_client::newtypes::UserGroupId;
use slack_client::newtypes::UserId;
use slack_client::Error;
use slack_client::Response;

#[test]
fn ok_envelope_with_payload_yields_the_payload() {
    let envelope = Response { ok: true, response: Some(String::from("bar")) };
    assert_eq!(envelope.into_result(), Ok(String::from("bar")));
}

#[test]
fn ok_envelope_without_payload_is_an_error() {
    let envelope: Response<String> = Response { ok: true, response: None };
    assert_eq!(envelope.into_result(), Err(Error::OkButNoResponse));
}

#[test]
fn not_ok_envelope_is_rejected_by_server() {
    let envelope: Response<String> = Response { ok: false, response: Some(String::from("bar")) };
    assert_eq!(envelope.into_result(), Err(Error::Unknown));
    let empty: Response<String> = Response { ok: false, response: None };
    assert_eq!(empty.into_result(), Err(Error::Unknown));
}

#[test]
fn identifier_newtypes_round_trip_their_text() {
    let user = UserId::new(String::from("U123"));
    assert_eq!(user.as_str(), "U123");
    assert_eq!(user.clone().into_string(), String::from("U123"));
    assert_eq!(user, UserId::new(String::from("U123")));
    assert!(user != UserId::new(String::from("U124")));

    let channel = ChannelId::new(String::from("C9"));
    assert_eq!(channel.as_str(), "C9");
    let group = UserGroupId::new(String::from("S42"));
    assert_eq!(group.into_string(), String::from("S42"));
}
