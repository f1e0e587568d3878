use web_samples::session::{session_json, session_set_cookie, session_token_of, SessionData};

fn cookies(values: &[&str]) -> Vec<String> {
    values.iter().map(|v| v.to_string()).collect()
}

#[test]
fn token_from_first_session_cookie() {
    let c = cookies(&["theme=dark", "Session=abc; db=WzFd; other=1", "Session=x; db=QQ"]);
    assert_eq!(session_token_of(&c), Some("WzFd"));
}

#[test]
fn token_stops_at_first_non_alphanumeric() {
    let c = cookies(&["Session=abc; db=e30=; x"]);
    assert_eq!(session_token_of(&c), Some("e30"));
}

#[test]
fn no_session_cookie() {
    assert_eq!(session_token_of(&cookies(&["db=WzFd"])), None);
    assert_eq!(session_json(&cookies(&[])), SessionData::Absent);
    assert_eq!(session_json(&cookies(&["Session=abc"])), SessionData::Absent);
    assert_eq!(session_json(&cookies(&["Session=abc; db="])), SessionData::Absent);
}

#[test]
fn session_json_decodes_base64() {
    let c = cookies(&["Session=abc; db=WzFd"]);
    assert_eq!(session_json(&c), SessionData::Json("[1]".to_string()));
}

#[test]
fn session_json_rejects_bad_data() {
    // "e30" needs padding, which the standard engine insists on.
    assert_eq!(session_json(&cookies(&["Session=a; db=e30"])), SessionData::Corrupt);
    // A single character encodes no whole byte.
    assert_eq!(session_json(&cookies(&["Session=a; db=A"])), SessionData::Corrupt);
    // "gICA" decodes to three 0x80 bytes, which are no UTF-8.
    assert_eq!(session_json(&cookies(&["Session=a; db=gICA"])), SessionData::Corrupt);
}

#[test]
fn set_cookie_encodes_without_padding() {
    assert_eq!(session_set_cookie("[1]"), "db=WzFd; SameSite=Strict; Path=/");
    assert_eq!(session_set_cookie("{}"), "db=e30; SameSite=Strict; Path=/");
    assert_eq!(session_set_cookie(""), "db=; SameSite=Strict; Path=/");
}

#[test]
fn set_cookie_round_trips_through_session_json() {
    let value = session_set_cookie("[1]");
    let c = vec![format!("Session=s; {value}")];
    assert_eq!(session_json(&c), SessionData::Json("[1]".to_string()));
}
