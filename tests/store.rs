use relay_bot::store::{
    chronological, context_key, context_mode_key, parse_cap, response_cap_from, ContextMode,
    StoredMessage, DEFAULT_RESPONSE_CAP,
};

fn stored(role: &str, content: &str) -> StoredMessage {
    StoredMessage { role: role.to_string(), content: content.to_string() }
}

#[test]
fn rows_newest_first_come_back_oldest_first() {
    let rows = vec![stored("assistant", "hi there"), stored("user", "hello")];
    let msgs = chronological(rows);
    assert_eq!(msgs.len(), 2);
    assert_eq!(msgs[0].role, "user");
    assert_eq!(msgs[0].content, "hello");
    assert_eq!(msgs[1].role, "assistant");
    assert_eq!(msgs[1].content, "hi there");
}

#[test]
fn window_of_five_over_twenty_messages() {
    // the store hands back the five newest, newest first
    let rows: Vec<StoredMessage> =
        (15..20).rev().map(|i| stored("user", &format!("msg {}", i))).collect();
    let msgs = chronological(rows);
    assert_eq!(msgs.len(), 5);
    assert_eq!(msgs[0].content, "msg 15");
    assert_eq!(msgs[4].content, "msg 19");
}

#[test]
fn empty_window_stays_empty() {
    assert!(chronological(Vec::new()).is_empty());
}

#[test]
fn context_keys() {
    assert_eq!(context_mode_key("123"), "context_mode:123");
    assert_eq!(context_key("123", "42", ContextMode::Channel), "123");
    assert_eq!(context_key("123", "42", ContextMode::User), "123:42");
}

#[test]
fn context_mode_from_stored_value() {
    assert_eq!(ContextMode::from_stored(&None), ContextMode::Channel);
    assert_eq!(ContextMode::from_stored(&Some("user".to_string())), ContextMode::User);
    assert_eq!(ContextMode::from_stored(&Some("channel".to_string())), ContextMode::Channel);
    assert_eq!(ContextMode::from_stored(&Some("User".to_string())), ContextMode::Channel);
    assert_eq!(ContextMode::User.stored_name(), "user");
    assert_eq!(ContextMode::Channel.stored_name(), "channel");
}

#[test]
fn cap_bounds() {
    assert_eq!(parse_cap("0"), None);
    assert_eq!(parse_cap("501"), None);
    assert_eq!(parse_cap("500"), Some(500));
    assert_eq!(parse_cap("1"), Some(1));
    assert_eq!(parse_cap("abc"), None);
    assert_eq!(parse_cap("-5"), None);
}

#[test]
fn configured_cap_or_default() {
    assert_eq!(response_cap_from(&None), DEFAULT_RESPONSE_CAP);
    assert_eq!(response_cap_from(&None), 10);
    assert_eq!(response_cap_from(&Some("42".to_string())), 42);
    assert_eq!(response_cap_from(&Some("many".to_string())), 10);
}
