use udbot::helper::{
    get_each_input, get_each_input_fallback, get_each_input_fallback_inline,
    get_each_input_inline, get_inline_results, get_searchurl, get_top_result,
    top_result_searchurl, try_get_inline_results, try_get_top_result,
};

const ONE: &str = r#"{"list":[{"definition":"A [greeting]","permalink":"http://x","thumbs_up":3,"word":"hello","defid":123,"example":"\"hello\" he said"}]}"#;

const TWO: &str = r#"{"list":[{"definition":"first <def>","word":"w1","defid":1,"example":""},{"definition":"second","word":"w2","defid":"x2","example":"ex\r\nample"}]}"#;

fn expected_hello_top() -> String {
    String::from(
        "\u{2139}\u{fe0f} <b>Definition of hello:</b>\nA greeting\n\n\u{1f4dd} <b>Examples:</b>\n<i>\"hello\" he said</i>\n\n<a href='urbanup.com/123'>Source (Urban Dictionary)</a>\n\nTo get more results, use the inline query method. See /help for more info.",
    )
}

fn fallback_text(title: &str) -> String {
    format!(
        "\u{2139}\u{fe0f} <b>Definition of {}:</b>\nThis word was not found in UD API.\n\n<a href='https://www.urbandictionary.com/define.php?term={}'>Search urbandictionary.com</a>",
        title, title
    )
}

#[test]
fn search_url_of_one_word() {
    assert_eq!(get_searchurl("hello"), "https://api.urbandictionary.com/v0/define?term=hello");
}

#[test]
fn search_url_of_several_words() {
    assert_eq!(
        get_searchurl("big  dog"),
        "https://api.urbandictionary.com/v0/define?term=\"big%20%20dog\""
    );
    assert!(!get_searchurl(" a b ").contains(' '));
}

#[test]
fn top_result_urls_of_commands() {
    let wotd = "https://api.urbandictionary.com/v0/words_of_the_day";
    assert_eq!(top_result_searchurl("/wotd"), wotd);
    assert_eq!(top_result_searchurl("/wordoftheday"), wotd);
    assert_eq!(top_result_searchurl("/random"), "https://api.urbandictionary.com/v0/random");
    assert_eq!(top_result_searchurl("/randoms"), "https://api.urbandictionary.com/v0/define?term=/randoms");
}

#[test]
fn fallback_message() {
    assert_eq!(get_each_input_fallback("xyz"), fallback_text("xyz"));
}

#[test]
fn fallback_article() {
    let a = get_each_input_fallback_inline("a b");
    assert_eq!(a.id, "-1");
    assert_eq!(a.title, "a b");
    assert_eq!(a.message_text, "\u{2139}\u{fe0f} <b>Definition of a b:</b>\nThis word was not found in UD API.");
    assert_eq!(
        a.description,
        "This word was not found in UD API.\n\nClick here for an option to search anyways."
    );
    assert!(a.message_is_html);
    assert!(!a.link_preview);
    assert_eq!(a.button_text, "Search urbandictionary.com");
    assert_eq!(a.button_url, "https://www.urbandictionary.com/define.php?term=a b");
}

#[test]
fn entry_of_a_definition_array() {
    let json = r#"[{"word":"w","definition":"d","example":"","defid":7}]"#;
    assert_eq!(
        get_each_input(json, 0, 1),
        "\u{2139}\u{fe0f} <b>Definition of w:</b>\nd\n\n<a href='urbanup.com/7'>Source (Urban Dictionary)</a>\n\nTo get more results, use the inline query method. See /help for more info."
    );
    let a = get_each_input_inline(json, 0, 1);
    assert_eq!(a.id, "7");
    assert_eq!(a.message_text, "\u{2139}\u{fe0f} <b>Definition of w:</b>\nd");
}

#[test]
fn missing_entry_reads_null() {
    let a = get_each_input_inline("[]", 3, 0);
    assert_eq!(a.id, "null");
    assert_eq!(a.title, "ul");
    assert_eq!(a.description, "ul");
    // A missing example is none.
    assert_eq!(a.message_text, "\u{2139}\u{fe0f} <b>Definition of ul:</b>\nul");
}

#[test]
fn top_result_of_a_definition() {
    assert_eq!(get_top_result("hello", ONE.as_bytes()), expected_hello_top());
    assert_eq!(try_get_top_result("hello", ONE.as_bytes()), Some(expected_hello_top()));
}

#[test]
fn top_result_takes_the_first_definition() {
    let top = get_top_result("w", TWO.as_bytes());
    assert!(top.starts_with("\u{2139}\u{fe0f} <b>Definition of w1:</b>\nfirst &lt;def&gt;\n\n<a href='urbanup.com/1'>"));
}

#[test]
fn top_result_of_an_empty_list() {
    assert_eq!(get_top_result("zzz", br#"{"list":[]}"#), fallback_text("zzz"));
    assert_eq!(get_top_result("zzz", br#"{"result":"none"}"#), fallback_text("zzz"));
    assert_eq!(get_top_result("zzz", br#"{"list":5}"#), fallback_text("zzz"));
}

#[test]
fn top_result_without_lowercase_letters() {
    assert_eq!(get_top_result("q", br#"{"list":[1,2]}"#), fallback_text("q"));
}

#[test]
fn unreadable_responses_give_none() {
    assert_eq!(try_get_top_result("a", b""), None);
    assert_eq!(try_get_top_result("a", b"not json"), None);
    assert_eq!(try_get_top_result("a", &[0xff, 0xfe]), None);
    // The list is found, but the stripped definitions are no JSON.
    assert_eq!(try_get_top_result("a", br#"{"list":[{"word":"w"}],"x":1}"#), None);
    assert!(try_get_inline_results("a", b"").is_none());
    assert!(try_get_inline_results("a", b"{").is_none());
    assert!(try_get_inline_results("a", br#"{"list":[{"word":"w"}],"x":1}"#).is_none());
}

#[test]
fn inline_results_one_per_definition() {
    let r = get_inline_results("w", TWO.as_bytes());
    assert_eq!(r.len(), 2);
    assert_eq!(r[0].id, "1");
    assert_eq!(r[0].title, "w1");
    assert_eq!(r[0].description, "first &lt;def&gt;");
    assert_eq!(r[0].message_text, "\u{2139}\u{fe0f} <b>Definition of w1:</b>\nfirst &lt;def&gt;");
    assert_eq!(r[0].button_text, "More Information (Urban Dictionary)");
    assert!(r[0].message_is_html && !r[0].link_preview);
    assert_eq!(r[0].button_url, "urbanup.com/1");
    assert_eq!(r[1].id, "\"x2\"");
    assert_eq!(r[1].title, "w2");
    assert_eq!(
        r[1].message_text,
        "\u{2139}\u{fe0f} <b>Definition of w2:</b>\nsecond\n\n\u{1f4dd} <b>Examples:</b>\n<i>ex\nample</i>"
    );
    assert_eq!(r[1].button_url, "urbanup.com/\"x2\"");
    let t = try_get_inline_results("w", TWO.as_bytes()).unwrap();
    assert_eq!(t.len(), 2);
    assert_eq!(t[1].description, "second");
}

#[test]
fn inline_results_fallback() {
    let r = get_inline_results("nothing", br#"{"list":[]}"#);
    assert_eq!(r.len(), 1);
    assert_eq!(r[0].id, "-1");
    assert_eq!(r[0].title, "nothing");
}

#[test]
fn top_result_extends_first_inline_message() {
    for (title, body) in [("hello", ONE), ("w", TWO), ("none", r#"{"list":[]}"#)] {
        let top = get_top_result(title, body.as_bytes());
        let inline = get_inline_results(title, body.as_bytes());
        assert!(top.starts_with(inline[0].message_text.as_str()));
        assert!(top.len() > inline[0].message_text.len());
    }
}

#[test]
fn inline_texts_from_the_dictionary_have_no_tags() {
    let body = r#"{"list":[{"definition":"<script>x</script>","word":"<b>w</b>","defid":9,"example":"e"}]}"#;
    let r = get_inline_results("<b>w</b>", body.as_bytes());
    assert_eq!(r.len(), 1);
    assert_eq!(r[0].title, "&lt;b&gt;w&lt;/b&gt;");
    assert_eq!(r[0].description, "&lt;script&gt;x&lt;/script&gt;");
}

#[test]
fn inline_results_count_matches_listing() {
    let body = r#"{"list":[{"word":"a"},{"word":"b"},{"word":"c"}]}"#;
    let r = get_inline_results("x", body.as_bytes());
    assert_eq!(r.len(), 3);
    assert_eq!(r[2].title, "c");
    assert_eq!(r[2].id, "null");
}

#[test]
fn entry_without_example_has_no_examples_block() {
    let json = r#"[{"word": "hi", "definition": "greeting", "defid": 1}]"#;
    assert_eq!(
        get_each_input(json, 0, 1),
        "\u{2139}\u{fe0f} <b>Definition of hi:</b>\ngreeting\n\n<a href='urbanup.com/1'>Source (Urban Dictionary)</a>\n\nTo get more results, use the inline query method. See /help for more info."
    );
    let json = r#"[{"word": "hi", "definition": "greeting", "defid": 1, "example": null}]"#;
    assert_eq!(
        get_each_input_inline(json, 0, 1).message_text,
        "\u{2139}\u{fe0f} <b>Definition of hi:</b>\ngreeting"
    );
    // The text "null" is an example like any other.
    let json = r#"[{"word": "hi", "definition": "greeting", "defid": 1, "example": "null"}]"#;
    assert_eq!(
        get_each_input_inline(json, 0, 1).message_text,
        "\u{2139}\u{fe0f} <b>Definition of hi:</b>\ngreeting\n\n\u{1f4dd} <b>Examples:</b>\n<i>null</i>"
    );
}

#[test]
fn definitions_to_answer_from_listing() {
    let text = "{\"list\":[{\"word\":\"w\"}]}\n";
    let (defs, n) = udbot::helper::definitions_to_answer(text, Some(1)).unwrap();
    assert_eq!(defs, "[{\"word\":\"w\"}]\n");
    assert_eq!(n, 1);
    // An empty list, no array, or no lower-case letter: nothing to answer from.
    assert!(udbot::helper::definitions_to_answer(text, Some(0)).is_none());
    assert!(udbot::helper::definitions_to_answer(text, None).is_none());
    assert!(udbot::helper::definitions_to_answer("{\"list\":[1]}\n", Some(1)).is_none());
}

#[test]
fn message_and_article_from_field_texts() {
    let m = udbot::helper::message_from_fields("\"hi\"", "\"a [b]\"", "null", "5");
    assert_eq!(
        m,
        "\u{2139}\u{fe0f} <b>Definition of hi:</b>\na b\n\n<a href='urbanup.com/5'>Source (Urban Dictionary)</a>\n\nTo get more results, use the inline query method. See /help for more info."
    );
    let a = udbot::helper::article_from_fields("\"hi\"", "\"d\"", "\"e <x>\"", "\"7\"");
    assert_eq!(a.id, "\"7\"");
    assert_eq!(a.title, "hi");
    assert_eq!(a.description, "d");
    assert_eq!(
        a.message_text,
        "\u{2139}\u{fe0f} <b>Definition of hi:</b>\nd\n\n\u{1f4dd} <b>Examples:</b>\n<i>e &lt;x&gt;</i>"
    );
    assert_eq!(a.button_url, "urbanup.com/\"7\"");
    assert_eq!(udbot::helper::example_from_field("null"), "");
    assert_eq!(udbot::helper::example_from_field("\"\""), "");
    assert_eq!(udbot::helper::example_from_field("\"x\\ny\""), "x\ny");
}

#[test]
fn articles_in_list_order() {
    let json = r#"[{"word":"a","defid":1},{"word":"b","defid":2}]"#;
    let r = udbot::helper::articles_from_definitions(json, 2);
    assert_eq!(r.len(), 2);
    assert_eq!((r[0].title.as_str(), r[0].id.as_str()), ("a", "1"));
    assert_eq!((r[1].title.as_str(), r[1].id.as_str()), ("b", "2"));
    assert!(udbot::helper::articles_from_definitions(json, 0).is_empty());
}
