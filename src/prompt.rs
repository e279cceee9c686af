use vstd::prelude::*;

use crate::error::{check_status, is_success, RelayError, Service};
use crate::store::{last_window, newest_first, StoredMessage};
use crate::text::{decimal, push_decimal, same_text};

verus! {

/// One role-tagged message of a chat-completion request.
pub struct ChatMessage {
    pub role: String,
    pub content: String,
}

/// A message as a pair of its role and its content.
pub open spec fn turn_of(m: ChatMessage) -> (Seq<char>, Seq<char>) {
    (m.role@, m.content@)
}

/// A prompt as the sequence of its (role, content) pairs.
pub open spec fn turns(v: Seq<ChatMessage>) -> Seq<(Seq<char>, Seq<char>)> {
    v.map_values(|m: ChatMessage| turn_of(m))
}

/// A stored message as a pair of its role and its content.
pub open spec fn stored_turns(v: Seq<StoredMessage>) -> Seq<(Seq<char>, Seq<char>)> {
    v.map_values(|m: StoredMessage| (m.role@, m.content@))
}

/// The instruction that asks for a reply of at most `cap` words.
pub open spec fn directive(cap: u32) -> Seq<char> {
    "\n(Reply in "@ + decimal(cap as nat) + " words or less. Stay in character.)"@
}

/// The system prompt, where it is not empty, followed by the history.
pub open spec fn base_prompt(system: Seq<char>, history: Seq<StoredMessage>) -> Seq<
    (Seq<char>, Seq<char>),
> {
    let head: Seq<(Seq<char>, Seq<char>)> = if system.len() == 0 {
        Seq::empty()
    } else {
        seq![("system"@, system)]
    };
    head + stored_turns(history)
}

/// `p` with the length directive added to the content of its last message
/// where that message has the role `user`.
pub open spec fn with_directive(p: Seq<(Seq<char>, Seq<char>)>, cap: u32) -> Seq<
    (Seq<char>, Seq<char>),
> {
    if p.len() > 0 && p.last().0 == "user"@ {
        p.update(p.len() - 1, (p.last().0, p.last().1 + directive(cap)))
    } else {
        p
    }
}

/// The prompt made from a system prompt, a history oldest first, and a cap.
pub open spec fn assembled(system: Seq<char>, history: Seq<StoredMessage>, cap: u32) -> Seq<
    (Seq<char>, Seq<char>),
> {
    with_directive(base_prompt(system, history), cap)
}

/// The instruction that asks for a reply of at most `cap` words.
pub fn reply_directive(cap: u32) -> (r: String)
    ensures
        r@ == directive(cap),
{
    let mut r = String::new();
    r.append("\n(Reply in ");
    push_decimal(&mut r, cap as u64);
    r.append(" words or less. Stay in character.)");
    r
}

/// Builds the prompt for a conversation: the system prompt unless it is empty,
/// then the history in the order given (oldest first), with the length
/// directive for `cap` added to the last message where its role is `user`.
/// The directive is added to this prompt only, not to the stored history.
pub fn assemble(system_prompt: String, history: &Vec<StoredMessage>, cap: u32) -> (r: Vec<
    ChatMessage,
>)
    ensures
        turns(r@) == assembled(system_prompt@, history@, cap),
{
    let ghost system = system_prompt@;
    let mut msgs: Vec<ChatMessage> = Vec::new();
    if !system_prompt.as_str().is_empty() {
        let mut role = String::new();
        role.append("system");
        msgs.push(ChatMessage { role, content: system_prompt });
    }
    let ghost head = turns(msgs@);
    assert(head =~= base_prompt(system, Seq::empty()));
    let mut i: usize = 0;
    while i < history.len()
        invariant
            i <= history@.len(),
            head == base_prompt(system, Seq::empty()),
            turns(msgs@) =~= head + stored_turns(history@.take(i as int)),
        decreases history.len() - i,
    {
        let ghost prev = msgs@;
        let ghost t = (history@[i as int].role@, history@[i as int].content@);
        let m = ChatMessage { role: history[i].role.clone(), content: history[i].content.clone() };
        assert(turn_of(m) == t);
        msgs.push(m);
        assert(turns(msgs@) =~= turns(prev).push(t));
        i = i + 1;
        assert(stored_turns(history@.take(i as int)) =~= stored_turns(
            history@.take(i - 1 as int),
        ).push((history@[i - 1].role@, history@[i - 1].content@)));
    }
    assert(history@.take(i as int) =~= history@);
    assert(turns(msgs@) =~= base_prompt(system, history@));
    let n = msgs.len();
    if n > 0 && same_text(msgs[n - 1].role.as_str(), "user") {
        let mut last = msgs.pop().unwrap();
        let d = reply_directive(cap);
        last.content.append(d.as_str());
        msgs.push(last);
        assert(turns(msgs@) =~= assembled(system, history@, cap));
    }
    msgs
}

/// The prompt of a one-shot request: the system prompt, then the user's text.
pub fn oneshot_messages(system_prompt: String, user_text: String) -> (r: Vec<ChatMessage>)
    ensures
        turns(r@) == seq![("system"@, system_prompt@), ("user"@, user_text@)],
{
    let mut system = String::new();
    system.append("system");
    let mut user = String::new();
    user.append("user");
    let mut r: Vec<ChatMessage> = Vec::new();
    r.push(ChatMessage { role: system, content: system_prompt });
    r.push(ChatMessage { role: user, content: user_text });
    assert(turns(r@) =~= seq![("system"@, system_prompt@), ("user"@, user_text@)]);
    r
}

/// The reply in a completion's choices: the content of the first one, or
/// `EmptyCompletion` where there are none.
pub fn reply_from_choices(choices: Vec<String>) -> (r: Result<String, RelayError>)
    ensures
        choices@.len() > 0 ==> (r matches Ok(s) && s == choices@[0]),
        choices@.len() == 0 ==> (r matches Err(RelayError::EmptyCompletion)),
{
    let mut choices = choices;
    if choices.len() == 0 {
        Err(RelayError::EmptyCompletion)
    } else {
        Ok(choices.swap_remove(0))
    }
}

/// Reads the answer of the completion endpoint: its status, and its body as the
/// contents of its choices or the fault that kept it from being read. A status
/// outside 200..=299 is an upstream error, whatever the body; then an unreadable
/// body is malformed; then the first choice is the reply.
pub fn read_completion(status: u16, body: Result<Vec<String>, String>) -> (r: Result<String, RelayError>)
    ensures
        !is_success(status) ==> r == Err::<String, RelayError>(RelayError::Status(Service::Inference, status)),
        is_success(status) ==> match body {
            Err(d) => r == Err::<String, RelayError>(RelayError::Malformed(Service::Inference, d)),
            Ok(choices) => if choices@.len() > 0 {
                r matches Ok(s) && s == choices@[0]
            } else {
                r matches Err(RelayError::EmptyCompletion)
            },
        },
{
    match check_status(Service::Inference, status, "") {
        Err(e) => Err(e),
        Ok(()) => match body {
            Err(d) => Err(RelayError::Malformed(Service::Inference, d)),
            Ok(choices) => reply_from_choices(choices),
        },
    }
}

/// The stop sequences sent with every completion request, so that the model
/// does not run on past the end of its turn.
pub fn stop_sequences() -> (r: Vec<String>)
    ensures
        r@.map_values(|s: String| s@) == seq![
            "<|im_end|>"@,
            "<|im_start|>"@,
            "</s>"@,
            "[INST]"@,
        ],
{
    let mut r: Vec<String> = Vec::new();
    let mut a = String::new();
    a.append("<|im_end|>");
    r.push(a);
    let mut b = String::new();
    b.append("<|im_start|>");
    r.push(b);
    let mut c = String::new();
    c.append("</s>");
    r.push(c);
    let mut d = String::new();
    d.append("[INST]");
    r.push(d);
    assert(r@.map_values(|s: String| s@) =~= seq![
        "<|im_end|>"@,
        "<|im_start|>"@,
        "</s>"@,
        "[INST]"@,
    ]);
    r
}


/// Where the history does not end with a `user` message, no directive is
/// added: the prompt is the system prompt and the history as they are.
/// Whenever a directive is added, the last message has the role `user`.
pub proof fn lemma_directive_only_after_user(system: Seq<char>, history: Seq<StoredMessage>, cap: u32)
    ensures
        history.len() > 0 && history.last().role@ != "user"@ ==> assembled(system, history, cap)
            == base_prompt(system, history),
        assembled(system, history, cap) != base_prompt(system, history) ==> {
            let b = base_prompt(system, history);
            b.len() > 0 && b.last().0 == "user"@
        },
{
    let b = base_prompt(system, history);
    if history.len() > 0 {
        assert(b.last() == stored_turns(history).last());
    }
}

/// A prompt built from a window that the store handed back newest first holds
/// the most recent messages of the log in the order in which they were stored,
/// oldest first, each with its role and content; only the last one's content
/// may carry the length directive.
pub proof fn lemma_history_in_stored_order(system: Seq<char>, log: Seq<StoredMessage>, n: nat, cap: u32)
    ensures
        ({
            let p = assembled(system, newest_first(log, n).reverse(), cap);
            let off: int = if system.len() == 0 {
                0
            } else {
                1
            };
            let w = last_window(log, n);
            &&& p.len() == off + w.len()
            &&& forall|i: int| 0 <= i < w.len() ==> (#[trigger] p[off + i]).0 == w[i].role@
            &&& forall|i: int| 0 <= i < w.len() - 1 ==> (#[trigger] p[off + i]).1 == w[i].content@
            &&& w.len() > 0 ==> (p[off + w.len() - 1].1 == w.last().content@ || p[off + w.len()
                - 1].1 == w.last().content@ + directive(cap))
        }),
{
    let w = last_window(log, n);
    assert(newest_first(log, n).reverse() =~= w);
}

/// A message appended to a conversation's log is the newest row that a window
/// of at least one reads back, and the last of the window in stored order,
/// with its role and content unchanged.
pub proof fn lemma_append_read_back(log: Seq<StoredMessage>, m: StoredMessage, n: nat)
    requires
        n > 0,
    ensures
        newest_first(log.push(m), n)[0] == m,
        last_window(log.push(m), n).last() == m,
{
}

} // verus!
