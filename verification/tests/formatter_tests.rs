use udbot::formatter::{prevent_htmlisation, rem_first_and_last_char, text_cleanup};

#[test]
fn cleanup_strips_quotes_and_escapes() {
    let mut text = String::from("\"A [greeting] <b>\\\"hi\\\"</b>\\r\\nbye\"");
    text_cleanup(&mut text);
    assert_eq!(text, "A greeting &lt;b&gt;\"hi\"&lt;/b&gt;\nbye");
}

#[test]
fn cleanup_of_null_value() {
    let mut text = String::from("null");
    text_cleanup(&mut text);
    assert_eq!(text, "ul");
}

#[test]
fn cleanup_of_short_texts_is_empty() {
    for s in ["", "\"", "\"\""] {
        let mut text = String::from(s);
        text_cleanup(&mut text);
        assert_eq!(text, "");
    }
}

#[test]
fn first_and_last_char_removed() {
    assert_eq!(rem_first_and_last_char(""), "");
    assert_eq!(rem_first_and_last_char("a"), "");
    assert_eq!(rem_first_and_last_char("ab"), "");
    assert_eq!(rem_first_and_last_char("abc"), "b");
    assert_eq!(rem_first_and_last_char("\u{e9}x\u{1f4dd}"), "x");
}

#[test]
fn htmlisation_prevented_in_order() {
    assert_eq!(prevent_htmlisation(String::from("[[a]] <i>")), "a &lt;i&gt;");
    // The escaped quote is undone before anything else.
    assert_eq!(prevent_htmlisation(String::from("\\\\\"")), "\\\"");
    assert_eq!(prevent_htmlisation(String::from("x\\ny\\rz")), "x\ny\rz");
    // The escaped pair \r\n becomes one line break.
    assert_eq!(prevent_htmlisation(String::from(r"a\r\nb")), "a\nb");
    assert_eq!(prevent_htmlisation(String::from(r"a\r\r\n\n")), "a\r\n\n");
    assert_eq!(prevent_htmlisation(String::from("plain")), "plain");
}

#[test]
fn cleaned_text_has_no_markup() {
    let samples = ["\"<<a>>[b]]\"", "\"&lt;\"", "x<y>z", "\"\\\"<\\\"\""];
    for s in samples {
        let mut text = String::from(s);
        text_cleanup(&mut text);
        assert!(!text.contains('<') && !text.contains('>'));
        assert!(!text.contains('[') && !text.contains(']'));
    }
}

#[test]
fn cleanup_of_plain_json_string_gives_text_back() {
    for s in ["hello world", "", "a\"b", "caf\u{e9} & co"] {
        let mut text = format!("\"{}\"", s);
        text_cleanup(&mut text);
        assert_eq!(text, s);
    }
}

#[test]
fn cleanup_undoes_json_string_encoding() {
    let d = "he said \"hi\"\nthen <left> [x]";
    let mut text = serde_json::Value::String(d.to_string()).to_string();
    text_cleanup(&mut text);
    assert_eq!(text, "he said \"hi\"\nthen &lt;left&gt; x");
}

#[test]
fn htmlisation_of_joined_texts() {
    let pairs = [("a\\\"b", "\\r\\nc"), ("x\\r\\n", "<y>"), ("[p]", "\\\"q"), ("", "\\n")];
    for (a, b) in pairs {
        let joined = prevent_htmlisation(format!("{}{}", a, b));
        let parts = prevent_htmlisation(a.to_string()) + &prevent_htmlisation(b.to_string());
        assert_eq!(joined, parts);
    }
    // A text that ends inside an escape is not split there.
    assert_ne!(
        prevent_htmlisation(String::from("a\\r\\n")),
        prevent_htmlisation(String::from("a\\r")) + &prevent_htmlisation(String::from("\\n"))
    );
}
