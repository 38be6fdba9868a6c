//! Building the bot's answers from an Urban Dictionary response: the top
//! definition for a private message, and one article per definition for an
//! inline query.
//!
//! The response is the body that the Urban Dictionary API sent, as bytes.
//! It is read the way the bot reads it: decoded as UTF-8 (an undecodable
//! body counts as empty) and written out as one line, parsed as JSON for the
//! length of its `list`, then stripped of the `{"list":` wrapper so that the
//! definitions form a top-level array.
use vstd::prelude::*;
use vstd::string::*;

use crate::file_handling::{write_to_file, written_line};
use crate::formatter::{cleaned, lemma_cleaned_has_no_markup, text_cleanup};
use crate::json::{array_len, entry_text, json_array_len, json_entry_text};
use crate::text::{
    has_lowercase, lemma_replaced_removes, occurs, occurs_at, replace_all, replaced, text_contains,
    text_eq, text_has_lowercase, utf8_or_empty, utf8_text_or_empty,
};

verus! {

// ---------------------------------------------------------------------------
// Addresses
// ---------------------------------------------------------------------------
/// The API address that looks `title` up; a title of several words is
/// quoted, with its spaces written as `%20`.
pub open spec fn search_url(title: Seq<char>) -> Seq<char> {
    if occurs(title, " "@) {
        "https://api.urbandictionary.com/v0/define?term=\""@ + replaced(title, " "@, "%20"@)
            + "\""@
    } else {
        "https://api.urbandictionary.com/v0/define?term="@ + title
    }
}

/// The API address asked for a private message: the commands `/wotd` and
/// `/wordoftheday` ask for the words of the day, `/random` for random words,
/// anything else is looked up.
pub open spec fn top_result_url(title: Seq<char>) -> Seq<char> {
    if title == "/wotd"@ || title == "/wordoftheday"@ {
        "https://api.urbandictionary.com/v0/words_of_the_day"@
    } else if title == "/random"@ {
        "https://api.urbandictionary.com/v0/random"@
    } else {
        search_url(title)
    }
}

/// The address that searches the Urban Dictionary site for `title`.
pub open spec fn site_search_url(title: Seq<char>) -> Seq<char> {
    "https://www.urbandictionary.com/define.php?term="@ + title
}

/// The short address of the definition with id `id`.
pub open spec fn shortened_url(id: Seq<char>) -> Seq<char> {
    "urbanup.com/"@ + id
}

// ---------------------------------------------------------------------------
// Texts
// ---------------------------------------------------------------------------
/// The head of every answer: an information sign, the title in bold, and the
/// definition on the next line.
pub open spec fn heading(title: Seq<char>, definition: Seq<char>) -> Seq<char> {
    "\u{2139}\u{fe0f} <b>Definition of "@ + title + ":</b>\n"@ + definition
}

/// The examples of a definition in italics, or nothing where there are none.
pub open spec fn examples_part(example: Seq<char>) -> Seq<char> {
    if example.len() == 0 {
        Seq::empty()
    } else {
        "\n\n\u{1f4dd} <b>Examples:</b>\n<i>"@ + example + "</i>"@
    }
}

/// A definition with its examples.
pub open spec fn definition_text(title: Seq<char>, definition: Seq<char>, example: Seq<char>) -> Seq<
    char,
> {
    heading(title, definition) + examples_part(example)
}

/// The notice that nothing was found.
pub open spec fn not_found_heading(title: Seq<char>) -> Seq<char> {
    heading(title, "This word was not found in UD API."@)
}

/// The private answer when nothing was found: the notice and a link that
/// searches the site.
pub open spec fn fallback_message(title: Seq<char>) -> Seq<char> {
    not_found_heading(title) + "\n\n<a href='"@ + site_search_url(title)
        + "'>Search urbandictionary.com</a>"@
}

// ---------------------------------------------------------------------------
// Entries of a definition list
// ---------------------------------------------------------------------------
/// The JSON text of `key` in entry `i` of the definitions `json`, where the
/// document can be read.
pub open spec fn entry_field(json: Seq<char>, i: usize, key: Seq<char>) -> Seq<char> {
    match json_entry_text(json, i, key) {
        Some(t) => t,
        None => Seq::empty(),
    }
}

/// The fields of entry `i` can be read (the document is JSON).
pub open spec fn entry_readable(json: Seq<char>, i: usize) -> bool {
    &&& json_entry_text(json, i, "word"@) is Some
    &&& json_entry_text(json, i, "definition"@) is Some
    &&& json_entry_text(json, i, "example"@) is Some
    &&& json_entry_text(json, i, "defid"@) is Some
}

/// The example shown for the JSON text `example` of an example field: none
/// where the field is missing or `null`, the cleaned-up text otherwise.
pub open spec fn example_from(example: Seq<char>) -> Seq<char> {
    if example == "null"@ {
        Seq::empty()
    } else {
        cleaned(example)
    }
}

/// The private answer for a definition, from the JSON texts of its word,
/// definition, example and id: the definition with its examples, a link to
/// its source, and a hint at inline queries.
pub open spec fn fields_message(
    word: Seq<char>,
    definition: Seq<char>,
    example: Seq<char>,
    defid: Seq<char>,
) -> Seq<char> {
    definition_text(cleaned(word), cleaned(definition), example_from(example))
        + "\n\n<a href='"@ + shortened_url(defid) + "'>Source (Urban Dictionary)</a>"@
        + "\n\nTo get more results, use the inline query method. See /help for more info."@
}

/// The cleaned-up word, definition and example of entry `i`.
pub open spec fn entry_word(json: Seq<char>, i: usize) -> Seq<char> {
    cleaned(entry_field(json, i, "word"@))
}

pub open spec fn entry_definition(json: Seq<char>, i: usize) -> Seq<char> {
    cleaned(entry_field(json, i, "definition"@))
}

pub open spec fn entry_example(json: Seq<char>, i: usize) -> Seq<char> {
    example_from(entry_field(json, i, "example"@))
}

/// The id of entry `i`, as JSON text.
pub open spec fn entry_id(json: Seq<char>, i: usize) -> Seq<char> {
    entry_field(json, i, "defid"@)
}

/// The private answer for entry `i`.
pub open spec fn entry_message(json: Seq<char>, i: usize) -> Seq<char> {
    fields_message(
        entry_field(json, i, "word"@),
        entry_field(json, i, "definition"@),
        entry_field(json, i, "example"@),
        entry_id(json, i),
    )
}

/// An article offered as the answer to an inline query: its message is
/// parsed as HTML where `message_is_html`, links in it get a preview where
/// `link_preview`, and its button opens `button_url`.
pub struct InlineArticle {
    pub id: String,
    pub title: String,
    pub message_text: String,
    pub message_is_html: bool,
    pub link_preview: bool,
    pub description: String,
    pub button_text: String,
    pub button_url: String,
}

/// The texts of an [`InlineArticle`].
pub struct ArticleView {
    pub id: Seq<char>,
    pub title: Seq<char>,
    pub message_text: Seq<char>,
    pub message_is_html: bool,
    pub link_preview: bool,
    pub description: Seq<char>,
    pub button_text: Seq<char>,
    pub button_url: Seq<char>,
}

impl View for InlineArticle {
    type V = ArticleView;

    open spec fn view(&self) -> ArticleView {
        ArticleView {
            id: self.id@,
            title: self.title@,
            message_text: self.message_text@,
            message_is_html: self.message_is_html,
            link_preview: self.link_preview,
            description: self.description@,
            button_text: self.button_text@,
            button_url: self.button_url@,
        }
    }
}

/// The inline article for a definition, from the JSON texts of its word,
/// definition, example and id.
pub open spec fn fields_article(
    word: Seq<char>,
    definition: Seq<char>,
    example: Seq<char>,
    defid: Seq<char>,
) -> ArticleView {
    ArticleView {
        id: defid,
        title: cleaned(word),
        message_text: definition_text(cleaned(word), cleaned(definition), example_from(example)),
        message_is_html: true,
        link_preview: false,
        description: cleaned(definition),
        button_text: "More Information (Urban Dictionary)"@,
        button_url: shortened_url(defid),
    }
}

/// The inline article for entry `i`.
pub open spec fn entry_article(json: Seq<char>, i: usize) -> ArticleView {
    fields_article(
        entry_field(json, i, "word"@),
        entry_field(json, i, "definition"@),
        entry_field(json, i, "example"@),
        entry_id(json, i),
    )
}

/// The inline article when nothing was found.
pub open spec fn fallback_article(title: Seq<char>) -> ArticleView {
    ArticleView {
        id: "-1"@,
        title: title,
        message_text: not_found_heading(title),
        message_is_html: true,
        link_preview: false,
        description: "This word was not found in UD API."@
            + "\n\nClick here for an option to search anyways."@,
        button_text: "Search urbandictionary.com"@,
        button_url: site_search_url(title),
    }
}

// ---------------------------------------------------------------------------
// Responses
// ---------------------------------------------------------------------------
/// The response as the bot writes it down: its text (empty where it is not
/// UTF-8) as one line.
pub open spec fn response_text(response: Seq<u8>) -> Seq<char> {
    written_line(Seq::empty(), utf8_text_or_empty(response))
}

/// The number of definitions listed in the response (0 where there is no
/// list).
pub open spec fn listed_count(response: Seq<u8>) -> usize {
    match json_array_len(response_text(response), "list"@) {
        Some(Some(n)) => n,
        _ => 0,
    }
}

/// The response can be read at all: something was received and it is a
/// JSON document.
pub open spec fn listing_readable(response: Seq<u8>) -> bool {
    response.len() > 0 && json_array_len(response_text(response), "list"@) is Some
}

/// A written-down response with the `{"list":` wrapper taken off, so that
/// the definitions form the top-level array.
pub open spec fn stripped(text: Seq<char>) -> Seq<char> {
    replaced(replaced(text, "{\"list\":"@, ""@), "}]}"@, "}]"@)
}

/// The number of definitions, from what `serde_json` finds under `list`:
/// the length of an array, 0 for anything else.
pub open spec fn list_length(listing: Option<usize>) -> usize {
    match listing {
        Some(n) => n,
        None => 0,
    }
}

/// Whether a written-down response `text`, whose `list` is `listing`, holds
/// a definition: the list is not empty, and the stripped text has some
/// lower-case letter.
pub open spec fn holds_definition(text: Seq<char>, listing: Option<usize>) -> bool {
    list_length(listing) != 0 && has_lowercase(stripped(text))
}

/// The response text with the `{"list":` wrapper taken off.
pub open spec fn definitions_text(response: Seq<u8>) -> Seq<char> {
    stripped(response_text(response))
}

/// The response holds a definition: a non-empty list, and some lower-case
/// letter in the definitions.
pub open spec fn finds_definition(response: Seq<u8>) -> bool {
    listed_count(response) != 0 && has_lowercase(definitions_text(response))
}

/// Everything that the private answer reads can be read.
pub open spec fn top_result_readable(response: Seq<u8>) -> bool {
    &&& listing_readable(response)
    &&& finds_definition(response) ==> entry_readable(definitions_text(response), 0)
}

/// The private answer to `title`.
pub open spec fn top_result(title: Seq<char>, response: Seq<u8>) -> Seq<char> {
    if finds_definition(response) {
        entry_message(definitions_text(response), 0)
    } else {
        fallback_message(title)
    }
}

/// Everything that the inline answer reads can be read.
pub open spec fn inline_results_readable(response: Seq<u8>) -> bool {
    &&& listing_readable(response)
    &&& finds_definition(response) ==> forall|i: usize|
        i < listed_count(response) ==> entry_readable(#[trigger] definitions_text(response), i)
}

/// The inline answer to `title`: one article per listed definition, or the
/// single fallback article.
pub open spec fn inline_results(title: Seq<char>, response: Seq<u8>) -> Seq<ArticleView> {
    if finds_definition(response) {
        Seq::new(
            listed_count(response) as nat,
            |i: int| entry_article(definitions_text(response), i as usize),
        )
    } else {
        seq![fallback_article(title)]
    }
}

// ---------------------------------------------------------------------------
// Executable functions
// ---------------------------------------------------------------------------
/// The API address that looks `title` up.
pub fn get_searchurl(title: &str) -> (r: String)
    ensures
        r@ == search_url(title@),
{
    let mut searchurl = String::new();
    if text_contains(title, " ") {
        // Handle multiple words
        proof {
            reveal_strlit(" ");
        }
        let modified_search_query = replace_all(title, " ", "%20");
        searchurl.append("https://api.urbandictionary.com/v0/define?term=\"");
        searchurl.append(modified_search_query.as_str());
        searchurl.append("\"");
    } else {
        searchurl.append("https://api.urbandictionary.com/v0/define?term=");
        searchurl.append(title);
    }
    searchurl
}

/// The API address asked for a private message about `title`.
pub fn top_result_searchurl(title: &str) -> (r: String)
    ensures
        r@ == top_result_url(title@),
{
    if text_eq(title, "/wotd") || text_eq(title, "/wordoftheday") {
        "https://api.urbandictionary.com/v0/words_of_the_day".to_owned()
    } else if text_eq(title, "/random") {
        "https://api.urbandictionary.com/v0/random".to_owned()
    } else {
        get_searchurl(title)
    }
}

/// `heading(title, definition)` and the examples, as a string.
fn make_definition_text(title: &str, definition: &str, example: &str) -> (r: String)
    ensures
        r@ == definition_text(title@, definition@, example@),
{
    let mut text = String::new();
    text.append("\u{2139}\u{fe0f} <b>Definition of ");
    text.append(title);
    text.append(":</b>\n");
    text.append(definition);
    // Append examples if (and only if) there are any
    if !example.is_empty() {
        text.append("\n\n\u{1f4dd} <b>Examples:</b>\n<i>");
        text.append(example);
        text.append("</i>");
    } else {
        assert(text@ =~= text@ + examples_part(example@));
    }
    text
}

/// The field `key` of entry `i`, as JSON text.
fn field(value: &str, i: usize, key: &str) -> (r: String)
    requires
        json_entry_text(value@, i, key@) is Some,
    ensures
        r@ == entry_field(value@, i, key@),
{
    match entry_text(value, i, key) {
        Some(t) => t,
        None => String::new(),
    }
}

/// The example shown for the JSON text of an example field.
pub fn example_from_field(example: &str) -> (r: String)
    ensures
        r@ == example_from(example@),
{
    if text_eq(example, "null") {
        // A missing example is none
        String::new()
    } else {
        let mut example = example.to_owned();
        text_cleanup(&mut example);
        example
    }
}

/// The private answer for a definition, from the JSON texts of its fields.
pub fn message_from_fields(word: &str, definition: &str, example: &str, defid: &str) -> (r: String)
    ensures
        r@ == fields_message(word@, definition@, example@, defid@),
{
    let mut title = word.to_owned();
    let mut content = definition.to_owned();
    text_cleanup(&mut title);
    text_cleanup(&mut content);
    let example = example_from_field(example);

    // Set URL for getting more information
    let mut ud_shortened_url = String::new();
    ud_shortened_url.append("urbanup.com/");
    ud_shortened_url.append(defid);

    let mut text = make_definition_text(title.as_str(), content.as_str(), example.as_str());
    text.append("\n\n<a href='");
    text.append(ud_shortened_url.as_str());
    text.append("'>Source (Urban Dictionary)</a>");
    text.append("\n\nTo get more results, use the inline query method. See /help for more info.");
    text
}

/// The inline article for a definition, from the JSON texts of its fields.
pub fn article_from_fields(word: &str, definition: &str, example: &str, defid: &str) -> (r:
    InlineArticle)
    ensures
        r@ == fields_article(word@, definition@, example@, defid@),
{
    let mut title = word.to_owned();
    let mut content = definition.to_owned();
    text_cleanup(&mut title);
    text_cleanup(&mut content);
    let example = example_from_field(example);

    let mut ud_shortened_url = String::new();
    ud_shortened_url.append("urbanup.com/");
    ud_shortened_url.append(defid);

    let text = make_definition_text(title.as_str(), content.as_str(), example.as_str());

    InlineArticle {
        id: defid.to_owned(),
        title: title,
        message_text: text,
        message_is_html: true,
        link_preview: false,
        description: content,
        button_text: "More Information (Urban Dictionary)".to_owned(),
        button_url: ud_shortened_url,
    }
}

/// Whether the fields of entry `i` can be read.
fn entry_is_readable(value: &str, i: usize) -> (r: bool)
    ensures
        r == entry_readable(value@, i),
{
    entry_text(value, i, "word").is_some() && entry_text(value, i, "definition").is_some()
        && entry_text(value, i, "example").is_some() && entry_text(value, i, "defid").is_some()
}

/// The private answer for entry `i` of the definitions `value`.
pub fn get_each_input(value: &str, i: usize, _total: usize) -> (r: String)
    requires
        entry_readable(value@, i),
    ensures
        r@ == entry_message(value@, i),
{
    let word = field(value, i, "word");
    let definition = field(value, i, "definition");
    let example = field(value, i, "example");
    let defid = field(value, i, "defid");
    message_from_fields(word.as_str(), definition.as_str(), example.as_str(), defid.as_str())
}

/// The private answer when nothing was found for `title`.
pub fn get_each_input_fallback(title: &str) -> (r: String)
    ensures
        r@ == fallback_message(title@),
{
    let mut text = make_definition_text(title, "This word was not found in UD API.", "");
    proof {
        reveal_strlit("");
    }
    let mut ud_url = String::new();
    ud_url.append("https://www.urbandictionary.com/define.php?term=");
    ud_url.append(title);
    text.append("\n\n<a href='");
    text.append(ud_url.as_str());
    text.append("'>Search urbandictionary.com</a>");
    assert(text@ =~= fallback_message(title@));
    text
}

/// The inline article for entry `i` of the definitions `value`.
pub fn get_each_input_inline(value: &str, i: usize, _total: usize) -> (r: InlineArticle)
    requires
        entry_readable(value@, i),
    ensures
        r@ == entry_article(value@, i),
{
    let word = field(value, i, "word");
    let definition = field(value, i, "definition");
    let example = field(value, i, "example");
    let defid = field(value, i, "defid");
    article_from_fields(word.as_str(), definition.as_str(), example.as_str(), defid.as_str())
}

/// The inline article when nothing was found for `title`.
pub fn get_each_input_fallback_inline(title: &str) -> (r: InlineArticle)
    ensures
        r@ == fallback_article(title@),
{
    let mut content = "This word was not found in UD API.".to_owned();
    let text = make_definition_text(title, content.as_str(), "");
    proof {
        reveal_strlit("");
    }
    assert(text@ =~= not_found_heading(title@));
    content.append("\n\nClick here for an option to search anyways.");

    let mut ud_url = String::new();
    ud_url.append("https://www.urbandictionary.com/define.php?term=");
    ud_url.append(title);

    InlineArticle {
        id: "-1".to_owned(),
        title: title.to_owned(),
        message_text: text,
        message_is_html: true,
        link_preview: false,
        description: content,
        button_text: "Search urbandictionary.com".to_owned(),
        button_url: ud_url,
    }
}

/// The response written down, and what `serde_json` finds under its `list`.
fn read_listing(response: &[u8]) -> (r: (String, Option<Option<usize>>))
    ensures
        r.0@ == response_text(response@),
        r.1 == json_array_len(response_text(response@), "list"@),
{
    let api_data = utf8_or_empty(response);
    let mut file = String::new();
    write_to_file(&mut file, api_data.as_str());
    let listing = array_len(file.as_str(), "list");
    (file, listing)
}

/// The definitions of a written-down response, as a top-level array.
fn strip_list_wrapper(old_data: &str) -> (r: String)
    ensures
        r@ == replaced(replaced(old_data@, "{\"list\":"@, ""@), "}]}"@, "}]"@),
{
    proof {
        reveal_strlit("{\"list\":");
        reveal_strlit("}]}");
    }
    // Change required at start of file
    let new_data = replace_all(old_data, "{\"list\":", "");
    // Change required at end of file
    replace_all(new_data.as_str(), "}]}", "}]")
}

/// The definitions to answer from, and their number, from a written-down
/// response `old_data` whose `list` is `listing` (the length of an array,
/// `None` for anything else): the text stripped of the list wrapper, where
/// it holds a definition.
pub fn definitions_to_answer(old_data: &str, listing: Option<usize>) -> (r: Option<(String, usize)>)
    ensures
        r is Some <==> holds_definition(old_data@, listing),
        r matches Some((t, n)) ==> t@ == stripped(old_data@) && n == list_length(listing),
{
    let length = match listing {
        Some(n) => n,
        None => 0,
    };
    if length != 0 {
        let new_data = strip_list_wrapper(old_data);
        // check if this word is present in UD API
        if text_has_lowercase(new_data.as_str()) {
            return Some((new_data, length));
        }
    }
    None
}

/// The inline articles for the first `length` entries of the definitions
/// `value`, in order.
pub fn articles_from_definitions(value: &str, length: usize) -> (r: Vec<InlineArticle>)
    requires
        forall|i: usize| i < length ==> entry_readable(#[trigger] value@, i),
    ensures
        r@.len() == length,
        forall|i: int| 0 <= i < length ==> #[trigger] r@[i]@ == entry_article(value@, i as usize),
{
    let mut result: Vec<InlineArticle> = Vec::new();
    let mut i: usize = 0;
    while i < length
        invariant
            forall|i: usize| i < length ==> entry_readable(#[trigger] value@, i),
            i <= length,
            result@.len() == i,
            forall|k: int| 0 <= k < i ==> #[trigger] result@[k]@ == entry_article(value@, k as usize),
        decreases length - i,
    {
        result.push(get_each_input_inline(value, i, length));
        i = i + 1;
    }
    result
}

/// Whether the first `length` entries of the definitions `value` can be
/// read.
fn definitions_readable(value: &str, length: usize) -> (r: bool)
    ensures
        r == forall|i: usize| i < length ==> entry_readable(#[trigger] value@, i),
{
    let mut i: usize = 0;
    while i < length
        invariant
            i <= length,
            forall|k: usize| k < i ==> entry_readable(#[trigger] value@, k),
        decreases length - i,
    {
        if !entry_is_readable(value, i) {
            return false;
        }
        i = i + 1;
    }
    true
}

/// What `serde_json` finds under `list` of a response that is a JSON
/// document.
fn list_of(listing: Option<Option<usize>>) -> (r: Option<usize>)
    requires
        listing is Some,
    ensures
        listing == Some(r),
{
    match listing {
        Some(l) => l,
        None => None,
    }
}

/// The private answer to `title`, read from the API's `response`
/// (which was fetched from `top_result_url(title)`).
pub fn get_top_result(title: &str, response: &[u8]) -> (r: String)
    requires
        top_result_readable(response@),
    ensures
        r@ == top_result(title@, response@),
{
    let (old_data, listing) = read_listing(response);
    match definitions_to_answer(old_data.as_str(), list_of(listing)) {
        Some((new_data, length)) => get_each_input(new_data.as_str(), 0, length),
        None => get_each_input_fallback(title),
    }
}

/// The private answer to `title`, or `None` where the response cannot be
/// read (nothing was received, it is not JSON, or its definitions cannot be
/// read), the inputs on which the bot gives up.
pub fn try_get_top_result(title: &str, response: &[u8]) -> (r: Option<String>)
    ensures
        r is Some <==> top_result_readable(response@),
        r matches Some(s) ==> s@ == top_result(title@, response@),
{
    if response.len() == 0 {
        return None;
    }
    let (old_data, listing) = read_listing(response);
    if listing.is_none() {
        return None;
    }
    if let Some((new_data, _length)) = definitions_to_answer(old_data.as_str(), list_of(listing)) {
        if !entry_is_readable(new_data.as_str(), 0) {
            return None;
        }
    }
    Some(get_top_result(title, response))
}

/// The inline answer to `title`, read from the API's `response` (which was
/// fetched from `search_url(title)`).
pub fn get_inline_results(title: &str, response: &[u8]) -> (r: Vec<InlineArticle>)
    requires
        inline_results_readable(response@),
    ensures
        r@.len() == inline_results(title@, response@).len(),
        forall|i: int| 0 <= i < r@.len() ==> #[trigger] r@[i]@ == inline_results(title@, response@)[i],
{
    let (old_data, listing) = read_listing(response);
    match definitions_to_answer(old_data.as_str(), list_of(listing)) {
        Some((new_data, length)) => articles_from_definitions(new_data.as_str(), length),
        None => {
            let mut result: Vec<InlineArticle> = Vec::new();
            result.push(get_each_input_fallback_inline(title));
            result
        },
    }
}

/// The inline answer to `title`, or `None` where the response cannot be
/// read (nothing was received, it is not JSON, or one of its definitions
/// cannot be read), the inputs on which the bot gives up.
pub fn try_get_inline_results(title: &str, response: &[u8]) -> (r: Option<Vec<InlineArticle>>)
    ensures
        r is Some <==> inline_results_readable(response@),
        r matches Some(v) ==> v@.len() == inline_results(title@, response@).len() && forall|i: int|
            0 <= i < v@.len() ==> #[trigger] v@[i]@ == inline_results(title@, response@)[i],
{
    if response.len() == 0 {
        return None;
    }
    let (old_data, listing) = read_listing(response);
    if listing.is_none() {
        return None;
    }
    if let Some((new_data, length)) = definitions_to_answer(old_data.as_str(), list_of(listing)) {
        if !definitions_readable(new_data.as_str(), length) {
            return None;
        }
    }
    Some(get_inline_results(title, response))
}

// ---------------------------------------------------------------------------
// Laws
// ---------------------------------------------------------------------------
/// The private answer is the first inline article's message, extended: a
/// private message gets the top result of the same lookup, followed by its
/// source link (or, when nothing was found, the same notice and a search
/// link).
pub proof fn lemma_top_result_extends_first_inline(title: Seq<char>, response: Seq<u8>)
    requires
        inline_results_readable(response),
    ensures
        top_result_readable(response),
        inline_results(title, response).len() >= 1,
        inline_results(title, response)[0].message_text.is_prefix_of(top_result(title, response)),
{
    let json = definitions_text(response);
    if finds_definition(response) {
        assert(entry_readable(json, 0usize));
        let m = inline_results(title, response)[0].message_text;
        let t = top_result(title, response);
        assert(m.is_prefix_of(t)) by {
            assert(m =~= t.subrange(0, m.len() as int));
        }
    } else {
        let m = not_found_heading(title);
        let t = fallback_message(title);
        assert(m =~= t.subrange(0, m.len() as int));
    }
}

/// An inline answer holds one article per listed definition when a
/// definition was found, and exactly one article otherwise.
pub proof fn lemma_inline_results_count(title: Seq<char>, response: Seq<u8>)
    ensures
        finds_definition(response) ==> inline_results(title, response).len() == listed_count(
            response,
        ),
        !finds_definition(response) ==> inline_results(title, response).len() == 1,
{
}

/// The title and description of every article built from Urban
/// Dictionary's definitions hold no angle bracket: nothing that the
/// dictionary sends can open an HTML tag there.
pub proof fn lemma_inline_texts_have_no_tags(title: Seq<char>, response: Seq<u8>, i: int)
    requires
        finds_definition(response),
        0 <= i < inline_results(title, response).len(),
    ensures
        !inline_results(title, response)[i].title.contains('<'),
        !inline_results(title, response)[i].title.contains('>'),
        !inline_results(title, response)[i].description.contains('<'),
        !inline_results(title, response)[i].description.contains('>'),
{
    let json = definitions_text(response);
    lemma_cleaned_has_no_markup(entry_field(json, i as usize, "word"@));
    lemma_cleaned_has_no_markup(entry_field(json, i as usize, "definition"@));
}

/// The address of a lookup holds no space, whatever the title: spaces of a
/// title of several words are written as `%20`.
pub proof fn lemma_search_url_has_no_space(title: Seq<char>)
    ensures
        !search_url(title).contains(' '),
        !top_result_url(title).contains(' '),
{
    reveal_strlit(" ");
    reveal_strlit("%20");
    reveal_strlit("https://api.urbandictionary.com/v0/define?term=\"");
    reveal_strlit("https://api.urbandictionary.com/v0/define?term=");
    reveal_strlit("\"");
    reveal_strlit("https://api.urbandictionary.com/v0/words_of_the_day");
    reveal_strlit("https://api.urbandictionary.com/v0/random");
    let quoted_prefix = "https://api.urbandictionary.com/v0/define?term=\""@;
    let prefix = "https://api.urbandictionary.com/v0/define?term="@;
    assert(!quoted_prefix.contains(' '));
    assert(!prefix.contains(' '));
    assert(!"\""@.contains(' '));
    assert(!"%20"@.contains(' '));
    assert(!"https://api.urbandictionary.com/v0/words_of_the_day"@.contains(' '));
    assert(!"https://api.urbandictionary.com/v0/random"@.contains(' '));
    let url = search_url(title);
    if occurs(title, " "@) {
        assert(" "@ =~= seq![' ']);
        lemma_replaced_removes(title, ' ', "%20"@);
        let middle = replaced(title, " "@, "%20"@);
        assert(!url.contains(' ')) by {
            if url.contains(' ') {
                let k = choose|k: int| 0 <= k < url.len() && url[k] == ' ';
                if k < quoted_prefix.len() {
                    assert(quoted_prefix[k] == ' ');
                } else if k < quoted_prefix.len() + middle.len() {
                    assert(middle[k - quoted_prefix.len()] == ' ');
                } else {
                    assert("\""@[k - quoted_prefix.len() - middle.len()] == ' ');
                }
            }
        }
    } else {
        assert(!title.contains(' ')) by {
            if title.contains(' ') {
                let k = choose|k: int| 0 <= k < title.len() && title[k] == ' ';
                assert(" "@ =~= title.skip(k).subrange(0, 1));
                assert(occurs_at(title, k, " "@));
            }
        }
        assert(!url.contains(' ')) by {
            if url.contains(' ') {
                let k = choose|k: int| 0 <= k < url.len() && url[k] == ' ';
                if k < prefix.len() {
                    assert(prefix[k] == ' ');
                } else {
                    assert(title[k - prefix.len()] == ' ');
                }
            }
        }
    }
}

/// A response whose `list` is an array of `n` definitions, whose stripped
/// text holds a lower-case letter, is answered inline with exactly `n`
/// articles, the `i`-th built from the `i`-th entry: its title is that
/// entry's cleaned-up word, its id the entry's id, its description the
/// cleaned-up definition, and its message the heading with the definition,
/// followed by the examples where there are any.
pub proof fn lemma_one_article_per_listed_definition(title: Seq<char>, response: Seq<u8>, n: usize)
    requires
        json_array_len(utf8_text_or_empty(response) + "\n"@, "list"@) == Some(Some(n)),
        n > 0,
        has_lowercase(
            replaced(
                replaced(utf8_text_or_empty(response) + "\n"@, "{\"list\":"@, ""@),
                "}]}"@,
                "}]"@,
            ),
        ),
    ensures
        inline_results(title, response).len() == n,
        ({
            let s = replaced(
                replaced(utf8_text_or_empty(response) + "\n"@, "{\"list\":"@, ""@),
                "}]}"@,
                "}]"@,
            );
            forall|i: int|
                0 <= i < n && json_entry_text(s, i as usize, "word"@) is Some && json_entry_text(
                    s,
                    i as usize,
                    "definition"@,
                ) is Some && json_entry_text(s, i as usize, "example"@) is Some && json_entry_text(
                    s,
                    i as usize,
                    "defid"@,
                ) is Some ==> {
                    let w = json_entry_text(s, i as usize, "word"@)->0;
                    let d = json_entry_text(s, i as usize, "definition"@)->0;
                    let e = json_entry_text(s, i as usize, "example"@)->0;
                    let id = json_entry_text(s, i as usize, "defid"@)->0;
                    let a = #[trigger] inline_results(title, response)[i];
                    &&& a.title == cleaned(w)
                    &&& a.id == id
                    &&& a.description == cleaned(d)
                    &&& a.message_text == "\u{2139}\u{fe0f} <b>Definition of "@ + cleaned(w)
                        + ":</b>\n"@ + cleaned(d) + (if e == "null"@ || cleaned(e).len() == 0 {
                        Seq::<char>::empty()
                    } else {
                        "\n\n\u{1f4dd} <b>Examples:</b>\n<i>"@ + cleaned(e) + "</i>"@
                    })
                    &&& a.button_url == "urbanup.com/"@ + id
                }
        }),
{
    let text = utf8_text_or_empty(response) + "\n"@;
    assert(response_text(response) =~= text);
    assert(finds_definition(response));
    let s = definitions_text(response);
    assert forall|i: int|
        0 <= i < n && json_entry_text(s, i as usize, "word"@) is Some && json_entry_text(
            s,
            i as usize,
            "definition"@,
        ) is Some && json_entry_text(s, i as usize, "example"@) is Some && json_entry_text(
            s,
            i as usize,
            "defid"@,
        ) is Some implies {
            let w = json_entry_text(s, i as usize, "word"@)->0;
            let d = json_entry_text(s, i as usize, "definition"@)->0;
            let e = json_entry_text(s, i as usize, "example"@)->0;
            let id = json_entry_text(s, i as usize, "defid"@)->0;
            let a = #[trigger] inline_results(title, response)[i];
            &&& a.title == cleaned(w)
            &&& a.id == id
            &&& a.description == cleaned(d)
            &&& a.message_text == "\u{2139}\u{fe0f} <b>Definition of "@ + cleaned(w) + ":</b>\n"@
                + cleaned(d) + (if e == "null"@ || cleaned(e).len() == 0 {
                Seq::<char>::empty()
            } else {
                "\n\n\u{1f4dd} <b>Examples:</b>\n<i>"@ + cleaned(e) + "</i>"@
            })
            &&& a.button_url == "urbanup.com/"@ + id
        } by {
        let w = json_entry_text(s, i as usize, "word"@)->0;
        let d = json_entry_text(s, i as usize, "definition"@)->0;
        let e = json_entry_text(s, i as usize, "example"@)->0;
        let a = inline_results(title, response)[i];
        assert(a == entry_article(s, i as usize));
        let ex = if e == "null"@ || cleaned(e).len() == 0 {
            Seq::<char>::empty()
        } else {
            "\n\n\u{1f4dd} <b>Examples:</b>\n<i>"@ + cleaned(e) + "</i>"@
        };
        assert(examples_part(example_from(e)) == ex);
        assert(a.message_text =~= "\u{2139}\u{fe0f} <b>Definition of "@ + cleaned(w) + ":</b>\n"@
            + cleaned(d) + ex);
    }
}

/// The private answer to a response whose `list` is a non-empty array and
/// whose stripped text holds a lower-case letter is built from the first
/// entry: the heading with its cleaned-up word and definition, the examples
/// (shown whenever the example is neither missing nor empty after
/// clean-up, whatever characters it holds), the link to the entry's source
/// and the hint at inline queries.
pub proof fn lemma_top_result_of_found_definition(
    title: Seq<char>,
    response: Seq<u8>,
    n: usize,
    w: Seq<char>,
    d: Seq<char>,
    e: Seq<char>,
    id: Seq<char>,
)
    requires
        json_array_len(utf8_text_or_empty(response) + "\n"@, "list"@) == Some(Some(n)),
        n > 0,
        has_lowercase(
            replaced(
                replaced(utf8_text_or_empty(response) + "\n"@, "{\"list\":"@, ""@),
                "}]}"@,
                "}]"@,
            ),
        ),
        json_entry_text(
            replaced(
                replaced(utf8_text_or_empty(response) + "\n"@, "{\"list\":"@, ""@),
                "}]}"@,
                "}]"@,
            ),
            0,
            "word"@,
        ) == Some(w),
        json_entry_text(
            replaced(
                replaced(utf8_text_or_empty(response) + "\n"@, "{\"list\":"@, ""@),
                "}]}"@,
                "}]"@,
            ),
            0,
            "definition"@,
        ) == Some(d),
        json_entry_text(
            replaced(
                replaced(utf8_text_or_empty(response) + "\n"@, "{\"list\":"@, ""@),
                "}]}"@,
                "}]"@,
            ),
            0,
            "example"@,
        ) == Some(e),
        json_entry_text(
            replaced(
                replaced(utf8_text_or_empty(response) + "\n"@, "{\"list\":"@, ""@),
                "}]}"@,
                "}]"@,
            ),
            0,
            "defid"@,
        ) == Some(id),
    ensures
        top_result(title, response) == "\u{2139}\u{fe0f} <b>Definition of "@ + cleaned(w)
            + ":</b>\n"@ + cleaned(d) + (if e == "null"@ || cleaned(e).len() == 0 {
            Seq::<char>::empty()
        } else {
            "\n\n\u{1f4dd} <b>Examples:</b>\n<i>"@ + cleaned(e) + "</i>"@
        }) + "\n\n<a href='"@ + "urbanup.com/"@ + id + "'>Source (Urban Dictionary)</a>"@
            + "\n\nTo get more results, use the inline query method. See /help for more info."@,
{
    let text = utf8_text_or_empty(response) + "\n"@;
    assert(response_text(response) =~= text);
    assert(finds_definition(response));
    let ex = if e == "null"@ || cleaned(e).len() == 0 {
        Seq::<char>::empty()
    } else {
        "\n\n\u{1f4dd} <b>Examples:</b>\n<i>"@ + cleaned(e) + "</i>"@
    };
    assert(examples_part(example_from(e)) == ex);
    assert(top_result(title, response) =~= "\u{2139}\u{fe0f} <b>Definition of "@ + cleaned(w)
        + ":</b>\n"@ + cleaned(d) + ex + "\n\n<a href='"@ + "urbanup.com/"@ + id
        + "'>Source (Urban Dictionary)</a>"@
        + "\n\nTo get more results, use the inline query method. See /help for more info."@);
}

/// A title without spaces is looked up as it is: the address is the
/// lookup prefix followed by the whole title, which can be read back from
/// it.
pub proof fn lemma_search_url_of_one_word(title: Seq<char>)
    requires
        !title.contains(' '),
    ensures
        search_url(title) == "https://api.urbandictionary.com/v0/define?term="@ + title,
        search_url(title).skip("https://api.urbandictionary.com/v0/define?term="@.len() as int)
            == title,
        !(title == "/wotd"@ || title == "/wordoftheday"@ || title == "/random"@)
            ==> top_result_url(title) == "https://api.urbandictionary.com/v0/define?term="@
            + title,
{
    reveal_strlit(" ");
    assert(!occurs(title, " "@)) by {
        if occurs(title, " "@) {
            let k = choose|k: int| occurs_at(title, k, " "@);
            assert(title.skip(k).subrange(0, 1)[0] == " "@[0]);
            assert(title[k] == ' ');
        }
    }
    let prefix = "https://api.urbandictionary.com/v0/define?term="@;
    assert((prefix + title).skip(prefix.len() as int) =~= title);
}

/// A title with spaces is looked up quoted, each space written as `%20`.
pub proof fn lemma_search_url_of_several_words(title: Seq<char>)
    requires
        title.contains(' '),
    ensures
        search_url(title) == "https://api.urbandictionary.com/v0/define?term=\""@ + replaced(
            title,
            " "@,
            "%20"@,
        ) + "\""@,
{
    reveal_strlit(" ");
    let k = choose|k: int| 0 <= k < title.len() && title[k] == ' ';
    assert(" "@ =~= title.skip(k).subrange(0, 1));
    assert(occurs_at(title, k, " "@));
}

/// The answer when nothing was found names the title and always ends with
/// a link that searches urbandictionary.com for the whole title, whatever
/// the title holds; the inline article carries the same notice, and its
/// button opens the same search.
pub proof fn lemma_not_found_answers_link_the_search(title: Seq<char>)
    ensures
        fallback_message(title) == "\u{2139}\u{fe0f} <b>Definition of "@ + title + ":</b>\n"@
            + "This word was not found in UD API."@ + "\n\n<a href='"@
            + "https://www.urbandictionary.com/define.php?term="@ + title
            + "'>Search urbandictionary.com</a>"@,
        fallback_article(title).message_text == "\u{2139}\u{fe0f} <b>Definition of "@ + title
            + ":</b>\n"@ + "This word was not found in UD API."@,
        fallback_article(title).title == title,
        fallback_article(title).id == "-1"@,
        fallback_article(title).description == "This word was not found in UD API."@
            + "\n\nClick here for an option to search anyways."@,
        fallback_article(title).button_url == "https://www.urbandictionary.com/define.php?term="@
            + title,
{
    assert(fallback_message(title) =~= "\u{2139}\u{fe0f} <b>Definition of "@ + title
        + ":</b>\n"@ + "This word was not found in UD API."@ + "\n\n<a href='"@
        + "https://www.urbandictionary.com/define.php?term="@ + title
        + "'>Search urbandictionary.com</a>"@);
}

} // verus!
