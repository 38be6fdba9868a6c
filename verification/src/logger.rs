//! The bot's own runtime logs, fetched from its host and sent to its owner.
use vstd::prelude::*;
use vstd::string::*;
use vstd::utf8::{decode_utf8, valid_utf8};

use crate::text::{decode_utf8_bytes, lemma_replaced_absent, replace_all, replaced};

verus! {

/// A log session opened at the host; `logplex_url` is where its lines can
/// be read.
pub struct Logger {
    pub created_at: String,
    pub id: String,
    pub logplex_url: String,
    pub updated_at: String,
}

/// The log as it is sent: the text that was read (or a notice where it is
/// not UTF-8) with its escaped quotes and line breaks undone.
pub open spec fn log_text(output: Seq<u8>) -> Seq<char> {
    let raw = if valid_utf8(output) {
        decode_utf8(output)
    } else {
        "No log found."@
    };
    replaced(replaced(raw, "\\\""@, "\""@), "\\n"@, "\n"@)
}

/// The log to send, from the bytes that reading the log session gave.
pub fn format_log(output: &[u8]) -> (r: String)
    ensures
        r@ == log_text(output@),
{
    let formatted_log = match decode_utf8_bytes(output) {
        Some(value) => value,
        None => "No log found.".to_owned(),
    };
    proof {
        reveal_strlit("\\\"");
        reveal_strlit("\\n");
    }
    // replace all \" with "
    let formatted_log = replace_all(formatted_log.as_str(), "\\\"", "\"");
    // replace all \n with actual newlines
    replace_all(formatted_log.as_str(), "\\n", "\n")
}

/// A log read as UTF-8 that holds no backslash is sent as it was read; a
/// log that is not UTF-8 is replaced by a notice.
pub proof fn lemma_log_text(output: Seq<u8>)
    ensures
        valid_utf8(output) && !decode_utf8(output).contains('\\') ==> log_text(output)
            == decode_utf8(output),
        !valid_utf8(output) ==> log_text(output) == "No log found."@,
{
    reveal_strlit("\\\"");
    reveal_strlit("\\n");
    reveal_strlit("No log found.");
    let raw = if valid_utf8(output) {
        decode_utf8(output)
    } else {
        "No log found."@
    };
    if !raw.contains('\\') {
        lemma_replaced_absent(raw, "\\\""@, "\""@);
        lemma_replaced_absent(raw, "\\n"@, "\n"@);
    }
}

} // verus!
