use udbot::bot::{answers_inline_query, reply_to_message, start_post_text, Reply, START_POST};
use udbot::file_handling::write_to_file;
use udbot::logger::format_log;

#[test]
fn write_to_file_appends_a_line() {
    let mut file = String::from("abc");
    write_to_file(&mut file, "x");
    assert_eq!(file, "abcx\n");
    write_to_file(&mut file, "");
    assert_eq!(file, "abcx\n\n");
}

#[test]
fn log_is_unescaped() {
    assert_eq!(format_log(b"a \\\"b\\\" c\\nd"), "a \"b\" c\nd");
    assert_eq!(format_log(b""), "");
}

#[test]
fn undecodable_log_gives_notice() {
    assert_eq!(format_log(&[0xff, 0xfe]), "No log found.");
}

#[test]
fn help_commands() {
    assert_eq!(reply_to_message("/start", true), Reply::Help);
    assert_eq!(reply_to_message("/help", true), Reply::Help);
    assert_eq!(reply_to_message("/help", false), Reply::Help);
}

#[test]
fn lookups_and_ignored_messages() {
    assert_eq!(reply_to_message("hello", true), Reply::Lookup);
    assert_eq!(reply_to_message("/wotd", true), Reply::Lookup);
    assert_eq!(reply_to_message("", false), Reply::Ignore);
    assert_eq!(
        reply_to_message("\u{2139}\u{fe0f} <b>Definition of x:</b>", true),
        Reply::Ignore
    );
    // The sign alone, without its variation selector, is looked up.
    assert_eq!(reply_to_message("\u{2139} x", true), Reply::Lookup);
}

#[test]
fn empty_inline_query_not_answered() {
    assert!(!answers_inline_query(""));
    assert!(answers_inline_query("a"));
}

#[test]
fn start_notice() {
    assert_eq!(
        start_post_text("udbot", 2021, 3, 5, 7, 8, 9),
        "Starting @udbot at <code>2021-3-5 7:8:9 UTC</code>."
    );
    assert_eq!(
        start_post_text("b", -44, 12, 31, 23, 59, 60),
        "Starting @b at <code>-44-12-31 23:59:60 UTC</code>."
    );
    assert_eq!(
        start_post_text("b", i32::MIN, 0, 10, 100, 0, u32::MAX),
        "Starting @b at <code>-2147483648-0-10 100:0:4294967295 UTC</code>."
    );
}

#[test]
fn start_post_text_is_the_help() {
    assert!(START_POST.starts_with("Hi! I am Urban Dictionary Bot - made using Rust!\nI post"));
    assert!(START_POST.contains("Urban Dictionary.\n\nUsage: @rsurbandictionarybot &lt;word&gt;\n"));
    assert!(START_POST.ends_with("hello\n\nOwner: @idkwhoiam322\nSource code: https://github.com/idkwhoiam322/udbot"));
}
