//! Cleaning up the text of a JSON string value before it is shown in a
//! Telegram message formatted as HTML.
use vstd::prelude::*;
use vstd::string::*;

use crate::text::{
    lemma_replaced_concat, lemma_replaced_last, lemma_replaced_keeps_first, lemma_replaced_match, lemma_replaced_absent, lemma_replaced_keeps_out, lemma_replaced_removes, replace_all, replaced,
};

verus! {

/// `s` without its first and last character; empty where `s` has fewer than
/// two characters.
pub open spec fn without_ends(s: Seq<char>) -> Seq<char> {
    if s.len() < 2 {
        Seq::empty()
    } else {
        s.subrange(1, s.len() - 1)
    }
}

/// The escapes of a JSON text undone, in this order: `\"` becomes a
/// quotation mark, the escaped pair `\r\n` one line break, and a remaining
/// `\r` or `\n` a carriage return or a line break.
pub open spec fn unescaped(s: Seq<char>) -> Seq<char> {
    let s1 = replaced(s, "\\\""@, "\""@);
    let s2 = replaced(s1, "\\r\\n"@, "\n"@);
    let s3 = replaced(s2, "\\r"@, "\r"@);
    replaced(s3, "\\n"@, "\n"@)
}

/// The square brackets that mark links to other definitions dropped, and
/// the angle brackets written as HTML entities, in this order.
pub open spec fn markup_handled(s: Seq<char>) -> Seq<char> {
    let s1 = replaced(s, "["@, ""@);
    let s2 = replaced(s1, "]"@, ""@);
    let s3 = replaced(s2, "<"@, "&lt;"@);
    replaced(s3, ">"@, "&gt;"@)
}

/// A JSON text made fit to show in an HTML message.
pub open spec fn html_safe(s: Seq<char>) -> Seq<char> {
    markup_handled(unescaped(s))
}

/// What `text_cleanup` makes of a JSON string value `s` (quotes included).
pub open spec fn cleaned(s: Seq<char>) -> Seq<char> {
    html_safe(without_ends(s))
}

/// Cleans up a JSON string value in place: drops the surrounding quotes and
/// makes the rest safe to show in an HTML message.
pub fn text_cleanup(text: &mut String)
    ensures
        final(text)@ == cleaned(old(text)@),
{
    let inner = rem_first_and_last_char(text.as_str()).to_owned();
    *text = prevent_htmlisation(inner);
}

/// `initial_string` without its first and last character.
pub fn rem_first_and_last_char(initial_string: &str) -> (r: &str)
    ensures
        r@ == without_ends(initial_string@),
{
    let n = initial_string.unicode_len();
    if n < 2 {
        initial_string.substring_char(0, 0)
    } else {
        initial_string.substring_char(1, n - 1)
    }
}

/// Undoes the JSON escapes of `text` and makes it safe to show as HTML.
pub fn prevent_htmlisation(text: String) -> (r: String)
    ensures
        r@ == html_safe(text@),
{
    proof {
        reveal_strlit("\\\"");
        reveal_strlit("\\r\\n");
        reveal_strlit("\\r");
        reveal_strlit("\\n");
        reveal_strlit("[");
        reveal_strlit("]");
        reveal_strlit("<");
        reveal_strlit(">");
    }
    // Replace \" with "
    let mut text = replace_all(text.as_str(), "\\\"", "\"");
    // Replace \r\n with \n
    text = replace_all(text.as_str(), "\\r\\n", "\n");
    // Replace what is left of \r and \n with real ones
    text = replace_all(text.as_str(), "\\r", "\r");
    text = replace_all(text.as_str(), "\\n", "\n");
    // We are not showcasing additional definitions
    text = replace_all(text.as_str(), "[", "");
    text = replace_all(text.as_str(), "]", "");
    // Get rid of fake html tags
    text = replace_all(text.as_str(), "<", "&lt;");
    text = replace_all(text.as_str(), ">", "&gt;");
    text
}

/// A cleaned-up text holds no angle bracket and no square bracket, so it
/// can neither open an HTML tag nor show a link marker, whatever the source.
pub proof fn lemma_cleaned_has_no_markup(s: Seq<char>)
    ensures
        !cleaned(s).contains('<'),
        !cleaned(s).contains('>'),
        !cleaned(s).contains('['),
        !cleaned(s).contains(']'),
{
    reveal_strlit("[");
    reveal_strlit("]");
    reveal_strlit("<");
    reveal_strlit(">");
    reveal_strlit("");
    reveal_strlit("&lt;");
    reveal_strlit("&gt;");
    let s0 = without_ends(s);
    let s3 = unescaped(s0);
    let s4 = replaced(s3, "["@, ""@);
    let s5 = replaced(s4, "]"@, ""@);
    let s6 = replaced(s5, "<"@, "&lt;"@);
    let s7 = replaced(s6, ">"@, "&gt;"@);
    assert("["@ =~= seq!['[']);
    assert("]"@ =~= seq![']']);
    assert("<"@ =~= seq!['<']);
    assert(">"@ =~= seq!['>']);
    assert(!""@.contains('['));
    assert(!""@.contains(']'));
    assert(!"&lt;"@.contains('['));
    assert(!"&lt;"@.contains(']'));
    assert(!"&lt;"@.contains('<'));
    assert(!"&gt;"@.contains('['));
    assert(!"&gt;"@.contains(']'));
    assert(!"&gt;"@.contains('<'));
    assert(!"&gt;"@.contains('>'));
    lemma_replaced_removes(s3, '[', ""@);
    lemma_replaced_keeps_out(s4, "]"@, ""@, '[');
    lemma_replaced_removes(s4, ']', ""@);
    lemma_replaced_keeps_out(s5, "<"@, "&lt;"@, '[');
    lemma_replaced_keeps_out(s5, "<"@, "&lt;"@, ']');
    lemma_replaced_removes(s5, '<', "&lt;"@);
    lemma_replaced_keeps_out(s6, ">"@, "&gt;"@, '[');
    lemma_replaced_keeps_out(s6, ">"@, "&gt;"@, ']');
    lemma_replaced_keeps_out(s6, ">"@, "&gt;"@, '<');
    lemma_replaced_removes(s6, '>', "&gt;"@);
}

/// Cleaning up the JSON rendering of a plain text gives the text back: the
/// quotes around it are dropped and nothing else changes, where the text
/// holds no backslash, square bracket or angle bracket.
pub proof fn lemma_cleanup_of_plain_text(s: Seq<char>)
    requires
        !s.contains('\\'),
        !s.contains('['),
        !s.contains(']'),
        !s.contains('<'),
        !s.contains('>'),
    ensures
        cleaned(seq!['"'] + s + seq!['"']) == s,
{
    reveal_strlit("\\\"");
    reveal_strlit("\\r");
    reveal_strlit("\\n");
    reveal_strlit("[");
    reveal_strlit("]");
    reveal_strlit("<");
    reveal_strlit(">");
    let quoted = seq!['"'] + s + seq!['"'];
    assert(without_ends(quoted) =~= s);
    reveal_strlit("\\r\\n");
    lemma_replaced_absent(s, "\\\""@, "\""@);
    lemma_replaced_absent(s, "\\r\\n"@, "\n"@);
    lemma_replaced_absent(s, "\\r"@, "\r"@);
    lemma_replaced_absent(s, "\\n"@, "\n"@);
    lemma_replaced_absent(s, "["@, ""@);
    lemma_replaced_absent(s, "]"@, ""@);
    lemma_replaced_absent(s, "<"@, "&lt;"@);
    lemma_replaced_absent(s, ">"@, "&gt;"@);
}

/// How a JSON string writes a character of its text, for texts without
/// backslashes or control characters other than the line break: a
/// quotation mark and a line break are escaped, anything else stands as it is.
pub open spec fn json_char(c: char) -> Seq<char> {
    if c == '"' {
        seq!['\\', '"']
    } else if c == '\n' {
        seq!['\\', 'n']
    } else {
        seq![c]
    }
}

/// The characters of `d` as a JSON string writes them.
pub open spec fn json_escaped(d: Seq<char>) -> Seq<char>
    decreases d.len(),
{
    if d.len() == 0 {
        Seq::empty()
    } else {
        json_char(d[0]) + json_escaped(d.skip(1))
    }
}

/// The JSON string of `d`, for texts without backslashes or control
/// characters other than the line break.
pub open spec fn json_string(d: Seq<char>) -> Seq<char> {
    seq!['"'] + json_escaped(d) + seq!['"']
}

/// `d` with only its line breaks escaped.
spec fn newline_escaped(d: Seq<char>) -> Seq<char>
    decreases d.len(),
{
    if d.len() == 0 {
        Seq::empty()
    } else {
        (if d[0] == '\n' {
            seq!['\\', 'n']
        } else {
            seq![d[0]]
        }) + newline_escaped(d.skip(1))
    }
}

proof fn lemma_no_backslash_in_rest(d: Seq<char>)
    requires
        d.len() > 0,
        !d.contains('\\'),
    ensures
        !d.skip(1).contains('\\'),
        d[0] != '\\',
{
    if d.skip(1).contains('\\') {
        let k = choose|k: int| 0 <= k < d.skip(1).len() && d.skip(1)[k] == '\\';
        assert(d[k + 1] == '\\');
    }
}

/// Undoing `\"` leaves the escaped line breaks.
proof fn lemma_unescape_quotes(d: Seq<char>)
    requires
        !d.contains('\\'),
    ensures
        replaced(json_escaped(d), "\\\""@, "\""@) == newline_escaped(d),
    decreases d.len(),
{
    reveal_strlit("\\\"");
    reveal_strlit("\"");
    let from = "\\\""@;
    let to = "\""@;
    assert(from =~= seq!['\\', '"']);
    assert(to =~= seq!['"']);
    if d.len() > 0 {
        lemma_no_backslash_in_rest(d);
        let rest = json_escaped(d.skip(1));
        lemma_unescape_quotes(d.skip(1));
        let c = d[0];
        if c == '"' {
            lemma_replaced_match(rest, from, to);
        } else if c == '\n' {
            let tail = seq!['n'] + rest;
            assert(json_char(c) + rest =~= seq!['\\'] + tail);
            assert(!from.is_prefix_of(seq!['\\'] + tail)) by {
                assert((seq!['\\'] + tail)[1] == 'n');
            }
            lemma_replaced_keeps_first('\\', tail, from, to);
            lemma_replaced_keeps_first('n', rest, from, to);
            assert(seq!['\\'] + (seq!['n'] + replaced(rest, from, to)) =~= seq!['\\', 'n']
                + replaced(rest, from, to));
        } else {
            lemma_replaced_keeps_first(c, rest, from, to);
        }
    }
}

/// A pattern that begins with `\` and a letter other than `n` does not
/// occur in a text whose only backslashes escape line breaks.
proof fn lemma_unescape_keeps(d: Seq<char>, from: Seq<char>, to: Seq<char>)
    requires
        !d.contains('\\'),
        from.len() >= 2,
        from[0] == '\\',
        from[1] != 'n',
    ensures
        replaced(newline_escaped(d), from, to) == newline_escaped(d),
    decreases d.len(),
{
    if d.len() > 0 {
        lemma_no_backslash_in_rest(d);
        let rest = newline_escaped(d.skip(1));
        lemma_unescape_keeps(d.skip(1), from, to);
        let c = d[0];
        if c == '\n' {
            let tail = seq!['n'] + rest;
            assert(newline_escaped(d) =~= seq!['\\'] + tail);
            assert(!from.is_prefix_of(seq!['\\'] + tail)) by {
                assert((seq!['\\'] + tail)[1] == 'n');
            }
            lemma_replaced_keeps_first('\\', tail, from, to);
            lemma_replaced_keeps_first('n', rest, from, to);
        } else {
            assert(newline_escaped(d) =~= seq![c] + rest);
            lemma_replaced_keeps_first(c, rest, from, to);
        }
    }
}

/// Undoing `\n` gives the text back.
proof fn lemma_unescape_newlines(d: Seq<char>)
    requires
        !d.contains('\\'),
    ensures
        replaced(newline_escaped(d), "\\n"@, "\n"@) == d,
    decreases d.len(),
{
    reveal_strlit("\\n");
    reveal_strlit("\n");
    let from = "\\n"@;
    let to = "\n"@;
    assert(from =~= seq!['\\', 'n']);
    assert(to =~= seq!['\n']);
    if d.len() > 0 {
        lemma_no_backslash_in_rest(d);
        let rest = newline_escaped(d.skip(1));
        lemma_unescape_newlines(d.skip(1));
        let c = d[0];
        if c == '\n' {
            lemma_replaced_match(rest, from, to);
        } else {
            lemma_replaced_keeps_first(c, rest, from, to);
        }
        assert(d =~= seq![c] + d.skip(1));
    }
}

/// Cleaning up the JSON string of a text undoes the JSON encoding: what
/// is left is the text itself with its brackets and angle brackets handled,
/// where the text holds no backslash and no control character other than
/// the line break.
pub proof fn lemma_cleanup_undoes_json_string(d: Seq<char>)
    requires
        !d.contains('\\'),
        forall|i: int| 0 <= i < d.len() && (d[i] as u32) < 0x20 ==> d[i] == '\n',
    ensures
        cleaned(json_string(d)) == replaced(
            replaced(replaced(replaced(d, "["@, ""@), "]"@, ""@), "<"@, "&lt;"@),
            ">"@,
            "&gt;"@,
        ),
{
    reveal_strlit("\\r\\n");
    reveal_strlit("\\r");
    assert(without_ends(json_string(d)) =~= json_escaped(d));
    lemma_unescape_quotes(d);
    assert("\\r\\n"@ =~= seq!['\\', 'r', '\\', 'n']);
    assert("\\r"@ =~= seq!['\\', 'r']);
    lemma_unescape_keeps(d, "\\r\\n"@, "\n"@);
    lemma_unescape_keeps(d, "\\r"@, "\r"@);
    lemma_unescape_newlines(d);
}

/// `s` does not end with a backslash, nor with the two characters `\r`.
pub open spec fn ends_without_escape(s: Seq<char>) -> bool {
    &&& s.len() > 0 ==> s.last() != '\\'
    &&& !(s.len() >= 2 && s[s.len() - 2] == '\\' && s.last() == 'r')
}

proof fn lemma_last_not_backslash(a: Seq<char>, from: Seq<char>, to: Seq<char>)
    requires
        from.len() > 0,
        to.len() > 0,
        to.last() != '\\',
        a.len() > 0 ==> a.last() != '\\',
    ensures
        replaced(a, from, to).len() > 0 ==> replaced(a, from, to).last() != '\\',
{
    if a.len() > 0 {
        lemma_replaced_last(a, from, to);
    }
}

/// A text that ends without an escape begun can be made fit for HTML in
/// two parts: no escape, bracket or angle bracket spans the join.
pub proof fn lemma_html_safe_of_joined_texts(a: Seq<char>, b: Seq<char>)
    requires
        ends_without_escape(a),
    ensures
        html_safe(a + b) == html_safe(a) + html_safe(b),
{
    reveal_strlit("\\\"");
    reveal_strlit("\"");
    reveal_strlit("\\r\\n");
    reveal_strlit("\\r");
    reveal_strlit("\\n");
    reveal_strlit("\n");
    reveal_strlit("\r");
    reveal_strlit("[");
    reveal_strlit("]");
    reveal_strlit("<");
    reveal_strlit(">");
    let f1 = "\\\""@;
    let f2 = "\\r\\n"@;
    let f3 = "\\r"@;
    let f4 = "\\n"@;
    assert(f1 =~= seq!['\\', '"']);
    assert(f2 =~= seq!['\\', 'r', '\\', 'n']);
    assert(f3 =~= seq!['\\', 'r']);
    assert(f4 =~= seq!['\\', 'n']);
    assert("\""@ =~= seq!['"']);
    assert("\n"@ =~= seq!['\n']);
    assert("\r"@ =~= seq!['\r']);
    // First pass: `\"`.
    assert forall|k: int| 0 <= k < a.len() && a.len() - k < f1.len() implies !a.skip(
        k,
    ).is_prefix_of(f1) by {
        assert(a.skip(k)[0] == a.last());
    }
    lemma_replaced_concat(a, b, f1, "\""@);
    let a1 = replaced(a, f1, "\""@);
    let b1 = replaced(b, f1, "\""@);
    lemma_last_not_backslash(a, f1, "\""@);
    // `a1` does not end with `\r` either.
    assert(!(a1.len() >= 2 && a1[a1.len() - 2] == '\\' && a1.last() == 'r')) by {
        if a1.len() >= 2 && a1[a1.len() - 2] == '\\' && a1.last() == 'r' {
            lemma_replaced_last(a, f1, "\""@);
            let p = a.drop_last();
            assert(a =~= p + seq![a.last()]);
            assert forall|k: int| 0 <= k < p.len() && p.len() - k < f1.len() implies !p.skip(
                k,
            ).is_prefix_of(f1) by {
                assert(p.skip(k)[0] == p.last());
                assert(p.last() == a[a.len() - 2]);
            }
            lemma_replaced_concat(p, seq![a.last()], f1, "\""@);
            assert(!seq![a.last()].contains('\\')) by {
                assert(seq![a.last()][0] == 'r');
            }
            lemma_replaced_absent(seq![a.last()], f1, "\""@);
            let p1 = replaced(p, f1, "\""@);
            assert(a1 =~= p1 + seq![a.last()]);
            assert(p1.len() > 0);
            assert(p1.last() == '\\');
            lemma_replaced_last(p, f1, "\""@);
            assert(p.last() == a[a.len() - 2]);
        }
    }
    // Second pass: `\r\n`.
    assert forall|k: int| 0 <= k < a1.len() && a1.len() - k < f2.len() implies !a1.skip(
        k,
    ).is_prefix_of(f2) by {
        let t = a1.skip(k);
        if t.is_prefix_of(f2) {
            assert(t[t.len() - 1] == f2[t.len() - 1]);
            assert(t[t.len() - 1] == a1.last());
            if t.len() == 2 {
                assert(t[0] == a1[a1.len() - 2]);
            }
        }
    }
    lemma_replaced_concat(a1, b1, f2, "\n"@);
    let a2 = replaced(a1, f2, "\n"@);
    let b2 = replaced(b1, f2, "\n"@);
    lemma_last_not_backslash(a1, f2, "\n"@);
    // Third pass: `\r`.
    assert forall|k: int| 0 <= k < a2.len() && a2.len() - k < f3.len() implies !a2.skip(
        k,
    ).is_prefix_of(f3) by {
        assert(a2.skip(k)[0] == a2.last());
    }
    lemma_replaced_concat(a2, b2, f3, "\r"@);
    let a3 = replaced(a2, f3, "\r"@);
    let b3 = replaced(b2, f3, "\r"@);
    lemma_last_not_backslash(a2, f3, "\r"@);
    // Fourth pass: `\n`.
    assert forall|k: int| 0 <= k < a3.len() && a3.len() - k < f4.len() implies !a3.skip(
        k,
    ).is_prefix_of(f4) by {
        assert(a3.skip(k)[0] == a3.last());
    }
    lemma_replaced_concat(a3, b3, f4, "\n"@);
    let a4 = replaced(a3, f4, "\n"@);
    let b4 = replaced(b3, f4, "\n"@);
    // Single characters cannot span the join.
    lemma_replaced_concat(a4, b4, "["@, ""@);
    let a5 = replaced(a4, "["@, ""@);
    let b5 = replaced(b4, "["@, ""@);
    lemma_replaced_concat(a5, b5, "]"@, ""@);
    let a6 = replaced(a5, "]"@, ""@);
    let b6 = replaced(b5, "]"@, ""@);
    lemma_replaced_concat(a6, b6, "<"@, "&lt;"@);
    let a7 = replaced(a6, "<"@, "&lt;"@);
    let b7 = replaced(b6, "<"@, "&lt;"@);
    lemma_replaced_concat(a7, b7, ">"@, "&gt;"@);
}

} // verus!
