use vstd::prelude::*;

use crate::text::{parsed_u32, parse_u32, same_text};

verus! {

/// How many of a conversation's most recent messages go into a prompt.
pub const HISTORY_LIMIT: usize = 10;

/// The reply-length cap used when none is configured.
pub const DEFAULT_RESPONSE_CAP: u32 = 10;

/// The smallest reply-length cap that may be configured.
pub const MIN_RESPONSE_CAP: u32 = 1;

/// The largest reply-length cap that may be configured.
pub const MAX_RESPONSE_CAP: u32 = 500;

/// One message of a conversation as the store keeps it.
pub struct StoredMessage {
    pub role: String,
    pub content: String,
}

/// The last `n` messages of `log` (all of it where it is shorter), in the order
/// in which they were stored.
pub open spec fn last_window(log: Seq<StoredMessage>, n: nat) -> Seq<StoredMessage> {
    if log.len() <= n {
        log
    } else {
        log.subrange(log.len() - n, log.len() as int)
    }
}

/// What the store hands back for a window of `n` on `log`: the last `n`
/// messages, newest first, so that the limit keeps the most recent ones.
pub open spec fn newest_first(log: Seq<StoredMessage>, n: nat) -> Seq<StoredMessage> {
    last_window(log, n).reverse()
}

/// Puts rows that the store handed back newest first into the order in which
/// they were stored, oldest first.
pub fn chronological(rows: Vec<StoredMessage>) -> (r: Vec<StoredMessage>)
    ensures
        r@ == rows@.reverse(),
{
    let ghost all = rows@;
    let mut rest = rows;
    let mut r: Vec<StoredMessage> = Vec::new();
    while rest.len() > 0
        invariant
            rest@ == all.take(all.len() - r@.len()),
            r@.len() <= all.len(),
            forall|i: int| 0 <= i < r@.len() ==> r@[i] == all[all.len() - 1 - i],
        decreases rest.len(),
    {
        let m = rest.pop().unwrap();
        r.push(m);
        assert(rest@ =~= all.take(all.len() - r@.len()));
    }
    assert(r@ =~= all.reverse());
    r
}

/// Reading back a window of messages gives the last `n` stored, oldest first;
/// where more than `n` were stored, the first of them is the message at index
/// `log.len() - n`.
pub proof fn lemma_window_is_most_recent(log: Seq<StoredMessage>, n: nat)
    ensures
        newest_first(log, n).reverse() == last_window(log, n),
        log.len() > n ==> last_window(log, n).len() == n,
        log.len() > n && n > 0 ==> last_window(log, n)[0] == log[log.len() - n],
{
    let w = last_window(log, n);
    assert(w.reverse().reverse() =~= w);
}

/// The configuration key under which a channel's context mode is stored.
pub open spec fn context_mode_key_of(channel_id: Seq<char>) -> Seq<char> {
    "context_mode:"@ + channel_id
}

/// The configuration key under which the context mode of `channel_id` is stored.
pub fn context_mode_key(channel_id: &str) -> (r: String)
    ensures
        r@ == context_mode_key_of(channel_id@),
{
    let mut r = String::new();
    r.append("context_mode:");
    r.append(channel_id);
    r
}

/// Whether a channel's conversation history is shared or kept per participant.
#[derive(Clone, Copy, Debug, PartialEq, Eq, Structural)]
pub enum ContextMode {
    /// Everyone in the channel shares one history.
    Channel,
    /// Each participant has a history of their own.
    User,
}

/// The mode that a stored value names: `"user"` is per participant; anything
/// else, or nothing stored, is shared.
pub open spec fn mode_of(stored: Option<String>) -> ContextMode {
    match stored {
        Some(s) => if s@ == "user"@ {
            ContextMode::User
        } else {
            ContextMode::Channel
        },
        None => ContextMode::Channel,
    }
}

impl ContextMode {
    /// Reads the mode from its stored value, shared by default.
    pub fn from_stored(stored: &Option<String>) -> (r: ContextMode)
        ensures
            r == mode_of(*stored),
    {
        match stored {
            Some(s) => if same_text(s.as_str(), "user") {
                ContextMode::User
            } else {
                ContextMode::Channel
            },
            None => ContextMode::Channel,
        }
    }

    /// The value under which the mode is stored.
    pub fn stored_name(&self) -> (r: String)
        ensures
            mode_of(Some(r)) == *self,
            *self == ContextMode::Channel ==> r@ == "channel"@,
            *self == ContextMode::User ==> r@ == "user"@,
    {
        let mut r = String::new();
        match self {
            ContextMode::Channel => r.append("channel"),
            ContextMode::User => r.append("user"),
        }
        proof {
            reveal_strlit("channel");
            reveal_strlit("user");
        }
        r
    }
}

/// The key under which a participant's turns in a channel are stored.
pub open spec fn context_key_of(channel_id: Seq<char>, participant: Seq<char>, mode: ContextMode) -> Seq<
    char,
> {
    match mode {
        ContextMode::Channel => channel_id,
        ContextMode::User => channel_id + ":"@ + participant,
    }
}

/// The conversation key for a participant's turn in a channel: the channel
/// alone where history is shared, else the channel, a colon and the participant.
pub fn context_key(channel_id: &str, participant: &str, mode: ContextMode) -> (r: String)
    ensures
        r@ == context_key_of(channel_id@, participant@, mode),
{
    let mut r = String::new();
    r.append(channel_id);
    match mode {
        ContextMode::Channel => {},
        ContextMode::User => {
            r.append(":");
            r.append(participant);
        },
    }
    assert(r@ =~= context_key_of(channel_id@, participant@, mode));
    r
}

/// The reply-length cap that a stored value gives: the number it holds, or the
/// default where there is none or it is not a number.
pub open spec fn cap_of(stored: Option<String>) -> u32 {
    match stored {
        Some(s) => match parsed_u32(s@) {
            Some(n) => n,
            None => DEFAULT_RESPONSE_CAP,
        },
        None => DEFAULT_RESPONSE_CAP,
    }
}

/// Reads the configured reply-length cap.
pub fn response_cap_from(stored: &Option<String>) -> (r: u32)
    ensures
        r == cap_of(*stored),
{
    match stored {
        Some(s) => match parse_u32(s.as_str()) {
            Some(n) => n,
            None => DEFAULT_RESPONSE_CAP,
        },
        None => DEFAULT_RESPONSE_CAP,
    }
}

/// A cap that may be configured: a number from 1 to 500.
pub open spec fn accepted_cap(arg: Seq<char>) -> Option<u32> {
    match parsed_u32(arg) {
        Some(n) => if MIN_RESPONSE_CAP <= n && n <= MAX_RESPONSE_CAP {
            Some(n)
        } else {
            None
        },
        None => None,
    }
}

/// Checks a requested reply-length cap: `Some` of the number where it lies in
/// 1..=500, `None` for anything else.
pub fn parse_cap(arg: &str) -> (r: Option<u32>)
    ensures
        r == accepted_cap(arg@),
{
    match parse_u32(arg) {
        Some(n) => if MIN_RESPONSE_CAP <= n && n <= MAX_RESPONSE_CAP {
            Some(n)
        } else {
            None
        },
        None => None,
    }
}

} // verus!
