//! The bot's replies to messages and its start-up notice.
use vstd::prelude::*;
use vstd::string::*;

use crate::text::{int_text, occurs, push_integer, text_contains, text_eq};

verus! {

/// The answer to `/start` and `/help`.
pub const START_POST: &'static str = "Hi! I am Urban Dictionary Bot - made using Rust!
I post word definitions from Urban Dictionary.\n
Usage: @rsurbandictionarybot &lt;word&gt;
Example: @rsurbandictionarybot hello\n
Owner: @idkwhoiam322
Source code: https://github.com/idkwhoiam322/udbot";

/// How the bot answers a private message.
#[derive(Clone, Copy, Debug, PartialEq, Eq)]
pub enum Reply {
    /// Send [`START_POST`].
    Help,
    /// Look the text up and send the top result.
    Lookup,
    /// Send nothing.
    Ignore,
}

/// The mark that begins every answer of the bot; a message that holds it is
/// one of the bot's own answers, forwarded, and is not looked up.
pub open spec fn info_sign() -> Seq<char> {
    "\u{2139}\u{fe0f}"@
}

/// How the bot answers a private message with text `text` (empty for a
/// message without text), `is_text` telling whether it is a text message.
pub open spec fn reply_for(text: Seq<char>, is_text: bool) -> Reply {
    if text == "/start"@ || text == "/help"@ {
        Reply::Help
    } else if is_text && !occurs(text, info_sign()) {
        Reply::Lookup
    } else {
        Reply::Ignore
    }
}

/// How the bot answers a private message.
pub fn reply_to_message(message_text: &str, is_text_query: bool) -> (r: Reply)
    ensures
        r == reply_for(message_text@, is_text_query),
{
    if text_eq(message_text, "/start") || text_eq(message_text, "/help") {
        Reply::Help
    } else if is_text_query && !text_contains(message_text, "\u{2139}\u{fe0f}") {
        Reply::Lookup
    } else {
        Reply::Ignore
    }
}

/// Whether an inline query is answered: an empty one is not.
pub fn answers_inline_query(query: &str) -> (r: bool)
    ensures
        r == (query@.len() > 0),
{
    !query.is_empty()
}

/// The notice the bot sends when it starts.
pub open spec fn start_notice(
    bot_name: Seq<char>,
    year: int,
    month: int,
    day: int,
    hour: int,
    minute: int,
    second: int,
) -> Seq<char> {
    "Starting @"@ + bot_name + " at <code>"@ + int_text(year) + "-"@ + int_text(month) + "-"@
        + int_text(day) + " "@ + int_text(hour) + ":"@ + int_text(minute) + ":"@ + int_text(
        second,
    ) + " UTC</code>."@
}

/// The notice the bot sends when it starts, at the given UTC time.
pub fn start_post_text(
    bot_name: &str,
    year: i32,
    month: u32,
    day: u32,
    hour: u32,
    minute: u32,
    second: u32,
) -> (r: String)
    ensures
        r@ == start_notice(
            bot_name@,
            year as int,
            month as int,
            day as int,
            hour as int,
            minute as int,
            second as int,
        ),
{
    let mut text = String::new();
    text.append("Starting @");
    text.append(bot_name);
    text.append(" at <code>");
    push_integer(&mut text, year as i64);
    text.append("-");
    push_integer(&mut text, month as i64);
    text.append("-");
    push_integer(&mut text, day as i64);
    text.append(" ");
    push_integer(&mut text, hour as i64);
    text.append(":");
    push_integer(&mut text, minute as i64);
    text.append(":");
    push_integer(&mut text, second as i64);
    text.append(" UTC</code>.");
    text
}

/// `/start` and `/help` always get the help text, whatever kind of message
/// carries them.
pub proof fn lemma_help_commands_answered(is_text: bool)
    ensures
        reply_for("/start"@, is_text) == Reply::Help,
        reply_for("/help"@, is_text) == Reply::Help,
{
}

/// The bot never looks up a message that holds its own mark, nor a message
/// without text.
pub proof fn lemma_no_lookup_of_own_answers(text: Seq<char>, is_text: bool)
    ensures
        occurs(text, info_sign()) ==> reply_for(text, is_text) != Reply::Lookup,
        !is_text ==> reply_for(text, is_text) != Reply::Lookup,
{
}

/// Every text message other than `/start` and `/help` that does not hold
/// the bot's mark is looked up, whatever else it holds.
pub proof fn lemma_text_messages_looked_up(text: Seq<char>)
    requires
        text != "/start"@,
        text != "/help"@,
        !occurs(text, "\u{2139}\u{fe0f}"@),
    ensures
        reply_for(text, true) == Reply::Lookup,
{
}

} // verus!
