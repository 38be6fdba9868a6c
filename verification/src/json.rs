//! Reading the Urban Dictionary answers, which are JSON documents, through
//! `serde_json`.
use vstd::prelude::*;

verus! {

/// What `serde_json` finds under `key` of the JSON document `text`: `None`
/// where `text` is not a JSON document, `Some(None)` where the value under
/// `key` is not an array (or is missing), and `Some(Some(n))` for an array of
/// `n` elements.
pub uninterp spec fn json_array_len(text: Seq<char>, key: Seq<char>) -> Option<Option<usize>>;

/// The JSON text that `serde_json` writes for `document[index][key]`, the
/// document being `text`: `None` where `text` is not a JSON document. An
/// index or key that is missing selects `null`.
pub uninterp spec fn json_entry_text(text: Seq<char>, index: usize, key: Seq<char>) -> Option<
    Seq<char>,
>;

/// Parses `text` with `serde_json::from_str` into a `serde_json::Value`,
/// indexes it with `key` (`Value`'s `Index`) and asks `Value::as_array` for
/// the length of the array there. The contract only names the result: it is
/// a function of the two texts.
#[verifier::external_body]
pub(crate) fn array_len(text: &str, key: &str) -> (r: Option<Option<usize>>)
    ensures
        r == json_array_len(text@, key@),
{
    match serde_json::from_str::<serde_json::Value>(text) {
        Ok(document) => match document[key].as_array() {
            Some(items) => Some(Some(items.len())),
            None => Some(None),
        },
        Err(_) => None,
    }
}

/// Parses `text` with `serde_json::from_str` into a `serde_json::Value`,
/// indexes it with `index` and then `key` (`Value`'s `Index`, which gives
/// `null` where nothing is found) and renders the value found with
/// `Value::to_string`. The contract only names the result: it is a function
/// of the three arguments.
#[verifier::external_body]
pub(crate) fn entry_text(text: &str, index: usize, key: &str) -> (r: Option<String>)
    ensures
        r matches Some(s) ==> json_entry_text(text@, index, key@) == Some(s@),
        r is None <==> json_entry_text(text@, index, key@) is None,
{
    match serde_json::from_str::<serde_json::Value>(text) {
        Ok(document) => Some(document[index][key].to_string()),
        Err(_) => None,
    }
}

} // verus!
