use vstd::prelude::*;

use crate::store::{accepted_cap, parse_cap};
use crate::text::{
    chars_of, has_prefix, prefix_at, push_range, skip_repeated, strip_all, trim_from, trimmed,
};

verus! {

/// What an incoming chat message asks for.
#[derive(Debug)]
pub enum Command {
    Help,
    Ping,
    Hello,
    /// Show the system prompt.
    ShowSystemPrompt,
    /// Replace the system prompt with the text.
    SetSystemPrompt(String),
    /// Show the reply-length cap.
    ShowCap,
    /// Set the reply-length cap.
    SetCap(u32),
    /// A cap outside 1..=500, or not a number.
    InvalidCap,
    /// Clear the conversation's history.
    Clear,
    /// Share history across the channel.
    ContextChannel,
    /// Keep history per participant.
    ContextUser,
    /// Track the named character.
    AddCharacter(String),
    /// `!addcharacter` without a name.
    AddCharacterUsage,
    /// Stop tracking the named character.
    RemoveCharacter(String),
    /// `!removecharacter` without a name.
    RemoveCharacterUsage,
    /// Report the levels of the tracked characters, with remarks where `true`.
    LevelCheck(bool),
    /// No command: an ordinary message.
    Chat,
}

/// The argument after a command word: the text with every repetition of the
/// word at its start removed, then trimmed.
pub open spec fn argument_of(s: Seq<char>, word: Seq<char>) -> Seq<char> {
    trimmed(strip_all(s, word))
}

/// Whether `c` is what the message `s` asks for. Command words are checked in
/// a fixed order, each as a prefix of the message.
pub open spec fn parsed_as(s: Seq<char>, c: Command) -> bool {
    if has_prefix(s, "!help"@) {
        c == Command::Help
    } else if has_prefix(s, "!ping"@) {
        c == Command::Ping
    } else if has_prefix(s, "!hello"@) {
        c == Command::Hello
    } else if has_prefix(s, "!systemprompt"@) {
        let a = argument_of(s, "!systemprompt"@);
        if a.len() == 0 {
            c == Command::ShowSystemPrompt
        } else {
            c matches Command::SetSystemPrompt(t) && t@ == a
        }
    } else if has_prefix(s, "!cap"@) {
        let a = argument_of(s, "!cap"@);
        if a.len() == 0 {
            c == Command::ShowCap
        } else {
            match accepted_cap(a) {
                Some(n) => c == Command::SetCap(n),
                None => c == Command::InvalidCap,
            }
        }
    } else if has_prefix(s, "!clear"@) {
        c == Command::Clear
    } else if has_prefix(s, "!contextchannel"@) {
        c == Command::ContextChannel
    } else if has_prefix(s, "!contextuser"@) {
        c == Command::ContextUser
    } else if has_prefix(s, "!addcharacter"@) {
        let a = argument_of(s, "!addcharacter"@);
        if a.len() == 0 {
            c == Command::AddCharacterUsage
        } else {
            c matches Command::AddCharacter(t) && t@ == a
        }
    } else if has_prefix(s, "!removecharacter"@) {
        let a = argument_of(s, "!removecharacter"@);
        if a.len() == 0 {
            c == Command::RemoveCharacterUsage
        } else {
            c matches Command::RemoveCharacter(t) && t@ == a
        }
    } else if has_prefix(s, "!levelcheck"@) {
        c == Command::LevelCheck(!has_prefix(s, "!levelcheckraw"@))
    } else {
        c == Command::Chat
    }
}

/// The trimmed argument after the command word `word` in `cs`.
fn argument(cs: &Vec<char>, word: &Vec<char>) -> (r: String)
    requires
        word@.len() > 0,
    ensures
        r@ == argument_of(cs@, word@),
{
    let at = skip_repeated(cs, 0, word);
    assert(cs@.skip(0) =~= cs@);
    trim_from(cs, at)
}

/// Whether the word stands at the start of `cs`.
fn begins(cs: &Vec<char>, word: &str) -> (r: bool)
    ensures
        r == has_prefix(cs@, word@),
{
    let w = chars_of(word);
    assert(cs@.skip(0) =~= cs@);
    prefix_at(cs, 0, &w)
}

/// Reads what a chat message asks for.
pub fn parse_command(content: &str) -> (r: Command)
    ensures
        parsed_as(content@, r),
{
    let cs = chars_of(content);
    if begins(&cs, "!help") {
        Command::Help
    } else if begins(&cs, "!ping") {
        Command::Ping
    } else if begins(&cs, "!hello") {
        Command::Hello
    } else if begins(&cs, "!systemprompt") {
        proof {
            reveal_strlit("!systemprompt");
        }
        let a = argument(&cs, &chars_of("!systemprompt"));
        if a.as_str().is_empty() {
            Command::ShowSystemPrompt
        } else {
            Command::SetSystemPrompt(a)
        }
    } else if begins(&cs, "!cap") {
        proof {
            reveal_strlit("!cap");
        }
        let a = argument(&cs, &chars_of("!cap"));
        if a.as_str().is_empty() {
            Command::ShowCap
        } else {
            match parse_cap(a.as_str()) {
                Some(n) => Command::SetCap(n),
                None => Command::InvalidCap,
            }
        }
    } else if begins(&cs, "!clear") {
        Command::Clear
    } else if begins(&cs, "!contextchannel") {
        Command::ContextChannel
    } else if begins(&cs, "!contextuser") {
        Command::ContextUser
    } else if begins(&cs, "!addcharacter") {
        proof {
            reveal_strlit("!addcharacter");
        }
        let a = argument(&cs, &chars_of("!addcharacter"));
        if a.as_str().is_empty() {
            Command::AddCharacterUsage
        } else {
            Command::AddCharacter(a)
        }
    } else if begins(&cs, "!removecharacter") {
        proof {
            reveal_strlit("!removecharacter");
        }
        let a = argument(&cs, &chars_of("!removecharacter"));
        if a.as_str().is_empty() {
            Command::RemoveCharacterUsage
        } else {
            Command::RemoveCharacter(a)
        }
    } else if begins(&cs, "!levelcheck") {
        Command::LevelCheck(!begins(&cs, "!levelcheckraw"))
    } else {
        Command::Chat
    }
}

/// The index of the first `c` in `s`, or its length where there is none.
pub open spec fn first_index(s: Seq<char>, c: char) -> nat
    decreases s.len(),
{
    if s.len() == 0 || s[0] == c {
        0
    } else {
        1 + first_index(s.drop_first(), c)
    }
}

proof fn lemma_first_index(s: Seq<char>, c: char, i: int)
    requires
        0 <= i <= s.len(),
        forall|k: int| 0 <= k < i ==> #[trigger] s[k] != c,
        i == s.len() || s[i] == c,
    ensures
        first_index(s, c) == i,
    decreases i,
{
    if i > 0 {
        lemma_first_index(s.drop_first(), c, i - 1);
    }
}

/// The text of a message that mentions the bot: what follows the first `>`
/// (the end of the mention), trimmed; the whole message where it has no `>`.
pub open spec fn mention_body(s: Seq<char>) -> Seq<char> {
    let i = first_index(s, '>');
    if i < s.len() {
        trimmed(s.skip(i + 1 as int))
    } else {
        s
    }
}

/// The text of a message that mentions the bot.
pub fn mention_text(content: &str) -> (r: String)
    ensures
        r@ == mention_body(content@),
{
    let cs = chars_of(content);
    let mut i: usize = 0;
    while i < cs.len() && cs[i] != '>'
        invariant
            i <= cs@.len(),
            forall|k: int| 0 <= k < i ==> #[trigger] cs@[k] != '>',
        decreases cs.len() - i,
    {
        i = i + 1;
    }
    proof {
        lemma_first_index(cs@, '>', i as int);
    }
    if i < cs.len() {
        trim_from(&cs, i + 1)
    } else {
        let mut r = String::new();
        push_range(&mut r, &cs, 0, cs.len());
        assert(r@ =~= content@);
        r
    }
}


/// The longest reply, in bytes of UTF-8, that is sent as it is.
pub const REPLY_BYTE_LIMIT: usize = 1990;

/// The number of bytes that `c` takes in UTF-8.
pub open spec fn utf8_width(c: char) -> nat {
    if (c as u32) < 0x80 {
        1
    } else if (c as u32) < 0x800 {
        2
    } else if (c as u32) < 0x10000 {
        3
    } else {
        4
    }
}

/// The number of bytes that `s` takes in UTF-8.
pub open spec fn utf8_len(s: Seq<char>) -> nat
    decreases s.len(),
{
    if s.len() == 0 {
        0
    } else {
        utf8_len(s.drop_last()) + utf8_width(s.last())
    }
}

proof fn lemma_prefix_len_le(s: Seq<char>, k: int)
    requires
        0 <= k <= s.len(),
    ensures
        utf8_len(s.take(k)) <= utf8_len(s),
    decreases s.len() - k,
{
    if k == s.len() {
        assert(s.take(k) =~= s);
    } else {
        lemma_prefix_len_le(s.drop_last(), k);
        assert(s.drop_last().take(k) =~= s.take(k));
    }
}

fn width_of(c: char) -> (r: usize)
    ensures
        r == utf8_width(c),
{
    let v = c as u32;
    if v < 0x80 {
        1
    } else if v < 0x800 {
        2
    } else if v < 0x10000 {
        3
    } else {
        4
    }
}

/// A reply cut to fit a chat message: where it takes more than the limit in
/// UTF-8, the longest run of whole characters from its start that fits,
/// followed by `...`; else the reply as it is.
pub fn clip_reply(reply: String) -> (r: String)
    ensures
        utf8_len(reply@) <= REPLY_BYTE_LIMIT ==> r@ == reply@,
        utf8_len(reply@) > REPLY_BYTE_LIMIT ==> exists|k: int|
            0 <= k < reply@.len() && r@ == reply@.take(k) + "..."@ && utf8_len(reply@.take(k))
                <= REPLY_BYTE_LIMIT && utf8_len(#[trigger] reply@.take(k + 1)) > REPLY_BYTE_LIMIT,
{
    let cs = chars_of(reply.as_str());
    let mut k: usize = 0;
    let mut used: usize = 0;
    while k < cs.len()
        invariant
            cs@ == reply@,
            k <= cs@.len(),
            used == utf8_len(cs@.take(k as int)),
            used <= REPLY_BYTE_LIMIT,
        decreases cs.len() - k,
    {
        let w = width_of(cs[k]);
        assert(cs@.take(k + 1).drop_last() =~= cs@.take(k as int));
        if used + w > REPLY_BYTE_LIMIT {
            let mut r = String::new();
            push_range(&mut r, &cs, 0, k);
            r.append("...");
            assert(cs@.subrange(0, k as int) =~= cs@.take(k as int));
            proof {
                lemma_prefix_len_le(cs@, k + 1);
            }
            return r;
        }
        used = used + w;
        k = k + 1;
    }
    assert(cs@.take(k as int) =~= reply@);
    reply
}

} // verus!
