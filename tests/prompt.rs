use relay_bot::error::{RelayError, Service};
use relay_bot::prompt::{
    assemble, oneshot_messages, read_completion, reply_directive, reply_from_choices,
    stop_sequences, ChatMessage,
};
use relay_bot::store::StoredMessage;

fn stored(role: &str, content: &str) -> StoredMessage {
    StoredMessage { role: role.to_string(), content: content.to_string() }
}

fn pairs(v: &[ChatMessage]) -> Vec<(String, String)> {
    v.iter().map(|m| (m.role.clone(), m.content.clone())).collect()
}

#[test]
fn assemble_puts_system_first_and_directive_on_last_user() {
    let history = vec![stored("user", "hello"), stored("assistant", "hi there"), stored("user", "again")];
    let msgs = assemble("be brief".to_string(), &history, 10);
    assert_eq!(
        pairs(&msgs),
        vec![
            ("system".to_string(), "be brief".to_string()),
            ("user".to_string(), "hello".to_string()),
            ("assistant".to_string(), "hi there".to_string()),
            (
                "user".to_string(),
                "again\n(Reply in 10 words or less. Stay in character.)".to_string()
            ),
        ]
    );
    // the history itself is untouched
    assert_eq!(history[2].content, "again");
}

#[test]
fn assemble_omits_empty_system_prompt() {
    let history = vec![stored("user", "hey")];
    let msgs = assemble(String::new(), &history, 7);
    assert_eq!(msgs.len(), 1);
    assert_eq!(msgs[0].role, "user");
    assert_eq!(msgs[0].content, "hey\n(Reply in 7 words or less. Stay in character.)");
}

#[test]
fn no_directive_after_assistant_message() {
    let history = vec![stored("user", "hello"), stored("assistant", "go away")];
    let msgs = assemble("sys".to_string(), &history, 10);
    assert_eq!(
        pairs(&msgs),
        vec![
            ("system".to_string(), "sys".to_string()),
            ("user".to_string(), "hello".to_string()),
            ("assistant".to_string(), "go away".to_string()),
        ]
    );
}

#[test]
fn no_directive_when_only_system_prompt() {
    let msgs = assemble("sys".to_string(), &Vec::new(), 10);
    assert_eq!(pairs(&msgs), vec![("system".to_string(), "sys".to_string())]);
    assert!(assemble(String::new(), &Vec::new(), 10).is_empty());
}

#[test]
fn directive_for_largest_cap() {
    let d = reply_directive(500);
    assert_eq!(d, "\n(Reply in 500 words or less. Stay in character.)");
    assert!(d.contains("in 500 words or less."));
}

#[test]
fn oneshot_has_system_then_user() {
    let msgs = oneshot_messages("sys".to_string(), "question".to_string());
    assert_eq!(
        pairs(&msgs),
        vec![
            ("system".to_string(), "sys".to_string()),
            ("user".to_string(), "question".to_string()),
        ]
    );
}

#[test]
fn first_choice_is_the_reply() {
    let r = reply_from_choices(vec!["one".to_string(), "two".to_string()]);
    assert_eq!(r.unwrap(), "one");
    assert!(matches!(reply_from_choices(Vec::new()), Err(RelayError::EmptyCompletion)));
}

#[test]
fn completion_answers_are_read() {
    assert_eq!(read_completion(200, Ok(vec!["yes".to_string()])).unwrap(), "yes");
    assert!(matches!(
        read_completion(503, Ok(vec!["yes".to_string()])),
        Err(RelayError::Status(Service::Inference, 503))
    ));
    match read_completion(200, Err("bad json".to_string())) {
        Err(RelayError::Malformed(Service::Inference, d)) => assert_eq!(d, "bad json"),
        other => panic!("unexpected {:?}", other),
    }
    assert!(matches!(read_completion(204, Ok(Vec::new())), Err(RelayError::EmptyCompletion)));
}

#[test]
fn stop_sequences_are_fixed() {
    assert_eq!(stop_sequences(), vec!["<|im_end|>", "<|im_start|>", "</s>", "[INST]"]);
}
