//! Character-level text operations: searching, replacing and number
//! rendering, each stated over the `Seq<char>` view of a string.
use vstd::prelude::*;
use vstd::utf8::{decode_utf8, valid_utf8};

verus! {

/// `pattern` occurs in `s` starting at position `i`.
pub open spec fn occurs_at(s: Seq<char>, i: int, pattern: Seq<char>) -> bool {
    0 <= i <= s.len() && pattern.is_prefix_of(s.skip(i))
}

/// `pattern` occurs somewhere in `s` (the empty pattern occurs in every text).
pub open spec fn occurs(s: Seq<char>, pattern: Seq<char>) -> bool {
    exists|i: int| occurs_at(s, i, pattern)
}

/// `s` with every occurrence of `from` replaced by `to`, matches taken from
/// left to right without overlapping; this is what `str::replace` does for a
/// non-empty pattern.
pub open spec fn replaced(s: Seq<char>, from: Seq<char>, to: Seq<char>) -> Seq<char>
    decreases s.len(),
{
    if s.len() == 0 || from.len() == 0 {
        s
    } else if from.is_prefix_of(s) {
        to + replaced(s.skip(from.len() as int), from, to)
    } else {
        seq![s[0]] + replaced(s.skip(1), from, to)
    }
}

/// Some character of `s` is a lower-case ASCII letter.
pub open spec fn has_lowercase(s: Seq<char>) -> bool {
    exists|i: int| 0 <= i < s.len() && 'a' <= #[trigger] s[i] <= 'z'
}

/// The ASCII digit for `d < 10`.
pub open spec fn digit(d: nat) -> char {
    ((48 + d) as u8) as char
}

/// The decimal digits of `n`, without leading zeros.
pub open spec fn nat_text(n: nat) -> Seq<char>
    decreases n,
{
    if n < 10 {
        seq![digit(n)]
    } else {
        nat_text(n / 10).push(digit(n % 10))
    }
}

/// The number that the decimal digits `s` denote.
pub open spec fn decimal_value(s: Seq<char>) -> int
    decreases s.len(),
{
    if s.len() == 0 {
        0
    } else {
        decimal_value(s.drop_last()) * 10 + (s.last() as int - 48)
    }
}

/// The decimal text of `n` is made of digits, starts with a non-zero digit
/// unless `n` is 0, and reads back as `n`.
pub proof fn lemma_nat_text_reads_back(n: nat)
    ensures
        nat_text(n).len() > 0,
        forall|i: int| 0 <= i < nat_text(n).len() ==> '0' <= #[trigger] nat_text(n)[i] <= '9',
        n >= 10 ==> nat_text(n)[0] != '0',
        decimal_value(nat_text(n)) == n,
    decreases n,
{
    let d = (n % 10) as nat;
    assert(digit(d) as int == 48 + d);
    if n >= 10 {
        lemma_nat_text_reads_back(n / 10);
        let t = nat_text(n / 10);
        assert(nat_text(n) == t.push(digit(d)));
        assert(t.push(digit(d)).drop_last() =~= t);
        assert forall|i: int| 0 <= i < nat_text(n).len() implies '0' <= #[trigger] nat_text(
            n,
        )[i] <= '9' by {
            if i < t.len() {
                assert(nat_text(n)[i] == t[i]);
            }
        }
        assert(decimal_value(nat_text(n)) == decimal_value(t) * 10 + (digit(d) as int - 48));
        vstd::arithmetic::div_mod::lemma_fundamental_div_mod(n as int, 10);
        if n / 10 < 10 {
            assert(t =~= seq![digit((n / 10) as nat)]);
            assert(digit((n / 10) as nat) as int == 48 + n / 10);
        }
    } else {
        assert(nat_text(n) =~= seq![digit(n)]);
        assert(seq![digit(n)].drop_last() =~= Seq::<char>::empty());
        assert(decimal_value(nat_text(n)) == decimal_value(Seq::<char>::empty()) * 10 + (digit(n)
            as int - 48));
    }
}

/// The decimal rendering of `n`, with a minus sign for negative numbers,
/// as `{}` renders an integer.
pub open spec fn int_text(n: int) -> Seq<char> {
    if n < 0 {
        seq!['-'] + nat_text((-n) as nat)
    } else {
        nat_text(n as nat)
    }
}

/// The rendering of an integer is its decimal text, after a minus sign
/// exactly when it is negative.
pub proof fn lemma_int_text_reads_back(n: int)
    ensures
        n >= 0 ==> decimal_value(int_text(n)) == n && int_text(n)[0] != '-',
        n < 0 ==> int_text(n)[0] == '-' && decimal_value(int_text(n).skip(1)) == -n,
{
    if n >= 0 {
        lemma_nat_text_reads_back(n as nat);
        assert('0' <= nat_text(n as nat)[0] <= '9');
    } else {
        lemma_nat_text_reads_back((-n) as nat);
        assert(int_text(n).skip(1) =~= nat_text((-n) as nat));
    }
}

/// The text that `bytes` encode, or the empty text where they are not UTF-8.
pub open spec fn utf8_text_or_empty(bytes: Seq<u8>) -> Seq<char> {
    if valid_utf8(bytes) {
        decode_utf8(bytes)
    } else {
        Seq::empty()
    }
}

/// Appends one character (`String::push`).
#[verifier::external_body]
pub(crate) fn push_char(s: &mut String, c: char)
    ensures
        final(s)@ == old(s)@.push(c),
{
    s.push(c);
}

/// Decodes UTF-8 (`std::str::from_utf8`): the documentation promises success
/// exactly on valid UTF-8, and then the characters that the bytes encode.
#[verifier::external_body]
pub(crate) fn decode_utf8_bytes(bytes: &[u8]) -> (r: Option<String>)
    ensures
        r is Some <==> valid_utf8(bytes@),
        r matches Some(s) ==> s@ == decode_utf8(bytes@),
{
    match std::str::from_utf8(bytes) {
        Ok(s) => Some(s.to_string()),
        Err(_) => None,
    }
}

/// The characters of `s`, one per element.
pub fn chars_of(s: &str) -> (v: Vec<char>)
    ensures
        v@ == s@,
{
    let mut v: Vec<char> = Vec::new();
    for c in it: s.chars()
        invariant
            v@ == it.seq().take(it.index() as int),
    {
        v.push(c);
    }
    v
}

/// The text that `bytes` encode, or the empty text where they are not UTF-8.
pub fn utf8_or_empty(bytes: &[u8]) -> (r: String)
    ensures
        r@ == utf8_text_or_empty(bytes@),
{
    match decode_utf8_bytes(bytes) {
        Some(s) => s,
        None => String::new(),
    }
}

/// Whether `pattern` occurs in `t` at position `i`.
fn matches_at(t: &Vec<char>, i: usize, pattern: &Vec<char>) -> (r: bool)
    requires
        i <= t@.len(),
    ensures
        r == occurs_at(t@, i as int, pattern@),
{
    if pattern.len() > t.len() - i {
        return false;
    }
    let mut j: usize = 0;
    while j < pattern.len()
        invariant
            i <= t@.len(),
            i + pattern@.len() <= t@.len(),
            j <= pattern@.len(),
            forall|k: int| 0 <= k < j ==> t@[i + k] == pattern@[k],
        decreases pattern@.len() - j,
    {
        assert(i + j < t.len());
        if t[i + j] != pattern[j] {
            assert(t@.skip(i as int).subrange(0, pattern@.len() as int)[j as int] != pattern@[j as int]);
            return false;
        }
        j = j + 1;
    }
    assert(pattern@ =~= t@.skip(i as int).subrange(0, pattern@.len() as int));
    true
}

/// Whether `pattern` occurs anywhere in `s` (`str::contains`).
pub fn text_contains(s: &str, pattern: &str) -> (r: bool)
    ensures
        r == occurs(s@, pattern@),
{
    let t = chars_of(s);
    let p = chars_of(pattern);
    let mut i: usize = 0;
    while i < t.len()
        invariant
            t@ == s@,
            p@ == pattern@,
            i <= t@.len(),
            forall|k: int| 0 <= k < i ==> !occurs_at(s@, k, pattern@),
        decreases t@.len() - i,
    {
        if matches_at(&t, i, &p) {
            return true;
        }
        i = i + 1;
    }
    if matches_at(&t, i, &p) {
        return true;
    }
    assert forall|k: int| !occurs_at(s@, k, pattern@) by {
        if 0 <= k <= s@.len() {
            assert(k <= i);
        }
    }
    false
}

/// Whether `a` and `b` hold the same characters (`==` on strings).
pub fn text_eq(a: &str, b: &str) -> (r: bool)
    ensures
        r == (a@ == b@),
{
    let x = chars_of(a);
    let y = chars_of(b);
    if x.len() != y.len() {
        return false;
    }
    let mut i: usize = 0;
    while i < x.len()
        invariant
            x@ == a@,
            y@ == b@,
            x@.len() == y@.len(),
            i <= x@.len(),
            forall|k: int| 0 <= k < i ==> x@[k] == y@[k],
        decreases x@.len() - i,
    {
        if x[i] != y[i] {
            return false;
        }
        i = i + 1;
    }
    assert(x@ =~= y@);
    true
}

/// Whether some character of `s` is a lower-case ASCII letter.
pub fn text_has_lowercase(s: &str) -> (r: bool)
    ensures
        r == has_lowercase(s@),
{
    let t = chars_of(s);
    let mut i: usize = 0;
    while i < t.len()
        invariant
            t@ == s@,
            i <= t@.len(),
            forall|k: int| 0 <= k < i ==> !('a' <= #[trigger] t@[k] <= 'z'),
        decreases t@.len() - i,
    {
        if 'a' <= t[i] && t[i] <= 'z' {
            return true;
        }
        i = i + 1;
    }
    false
}

proof fn lemma_replaced_step(t: Seq<char>, i: int, from: Seq<char>, to: Seq<char>)
    requires
        0 <= i < t.len(),
        from.len() > 0,
    ensures
        occurs_at(t, i, from) ==> replaced(t.skip(i), from, to) == to + replaced(
            t.skip(i + from.len()),
            from,
            to,
        ),
        !occurs_at(t, i, from) ==> replaced(t.skip(i), from, to) == seq![t[i]] + replaced(
            t.skip(i + 1),
            from,
            to,
        ),
{
    let s = t.skip(i);
    if occurs_at(t, i, from) {
        assert(s.skip(from.len() as int) =~= t.skip(i + from.len()));
    } else {
        assert(s.skip(1) =~= t.skip(i + 1));
    }
}

/// `text` with every occurrence of `from` replaced by `to`
/// (`str::replace` with a non-empty pattern).
pub fn replace_all(text: &str, from: &str, to: &str) -> (r: String)
    requires
        from@.len() > 0,
    ensures
        r@ == replaced(text@, from@, to@),
{
    let t = chars_of(text);
    let f = chars_of(from);
    let mut out = String::new();
    let mut i: usize = 0;
    assert(t@.skip(0) =~= t@);
    while i < t.len()
        invariant
            t@ == text@,
            f@ == from@,
            f@.len() > 0,
            i <= t@.len(),
            out@ + replaced(t@.skip(i as int), f@, to@) == replaced(t@, f@, to@),
        decreases t@.len() - i,
    {
        proof {
            lemma_replaced_step(t@, i as int, f@, to@);
        }
        if matches_at(&t, i, &f) {
            out.append(to);
            i = i + f.len();
        } else {
            push_char(&mut out, t[i]);
            i = i + 1;
        }
    }
    assert(t@.skip(i as int) =~= Seq::<char>::empty());
    out
}

/// Every character of `replaced(s, from, to)` was a character of `s` outside
/// the matches or a character of `to`: a character that is in neither is not
/// in the result.
pub proof fn lemma_replaced_keeps_out(s: Seq<char>, from: Seq<char>, to: Seq<char>, c: char)
    requires
        !s.contains(c),
        !to.contains(c),
    ensures
        !replaced(s, from, to).contains(c),
    decreases s.len(),
{
    if s.len() == 0 || from.len() == 0 {
    } else if from.is_prefix_of(s) {
        let rest = s.skip(from.len() as int);
        assert(!rest.contains(c)) by {
            if rest.contains(c) {
                let k = choose|k: int| 0 <= k < rest.len() && rest[k] == c;
                assert(s[k + from.len()] == c);
            }
        }
        lemma_replaced_keeps_out(rest, from, to, c);
        let r = to + replaced(rest, from, to);
        assert(!r.contains(c)) by {
            if r.contains(c) {
                let k = choose|k: int| 0 <= k < r.len() && r[k] == c;
                if k < to.len() {
                    assert(to[k] == c);
                } else {
                    assert(replaced(rest, from, to)[k - to.len()] == c);
                }
            }
        }
    } else {
        let rest = s.skip(1);
        assert(!rest.contains(c)) by {
            if rest.contains(c) {
                let k = choose|k: int| 0 <= k < rest.len() && rest[k] == c;
                assert(s[k + 1] == c);
            }
        }
        lemma_replaced_keeps_out(rest, from, to, c);
        let r = seq![s[0]] + replaced(rest, from, to);
        assert(!r.contains(c)) by {
            if r.contains(c) {
                let k = choose|k: int| 0 <= k < r.len() && r[k] == c;
                if k == 0 {
                    assert(s[0] == c);
                } else {
                    assert(replaced(rest, from, to)[k - 1] == c);
                }
            }
        }
    }
}

/// A text that begins with the pattern: the match is replaced and the
/// replacement goes on after it.
pub proof fn lemma_replaced_match(rest: Seq<char>, from: Seq<char>, to: Seq<char>)
    requires
        from.len() > 0,
    ensures
        replaced(from + rest, from, to) == to + replaced(rest, from, to),
{
    let s = from + rest;
    assert(from.is_prefix_of(s)) by {
        assert(from =~= s.subrange(0, from.len() as int));
    }
    assert(s.skip(from.len() as int) =~= rest);
}

/// A text that does not begin with the pattern keeps its first character.
pub proof fn lemma_replaced_keeps_first(c: char, rest: Seq<char>, from: Seq<char>, to: Seq<char>)
    requires
        from.len() > 0,
        !from.is_prefix_of(seq![c] + rest),
    ensures
        replaced(seq![c] + rest, from, to) == seq![c] + replaced(rest, from, to),
{
    let s = seq![c] + rest;
    assert(s[0] == c);
    assert(s.skip(1) =~= rest);
}

/// Replacing in two texts one after the other is replacing in each: where
/// no end of `a` begins the pattern without completing it, no match spans
/// the join.
pub proof fn lemma_replaced_concat(a: Seq<char>, b: Seq<char>, from: Seq<char>, to: Seq<char>)
    requires
        from.len() > 0,
        forall|k: int| 0 <= k < a.len() && a.len() - k < from.len() ==> !a.skip(k).is_prefix_of(from),
    ensures
        replaced(a + b, from, to) == replaced(a, from, to) + replaced(b, from, to),
    decreases a.len(),
{
    if a.len() == 0 {
        assert(a + b =~= b);
        assert(Seq::<char>::empty() + replaced(b, from, to) =~= replaced(b, from, to));
    } else {
        let s = a + b;
        if from.is_prefix_of(s) {
            assert(a.len() >= from.len()) by {
                if a.len() < from.len() {
                    assert(a.skip(0) =~= a);
                    assert(a.is_prefix_of(from)) by {
                        assert(a =~= from.subrange(0, a.len() as int));
                    }
                }
            }
            assert(from.is_prefix_of(a)) by {
                assert(from =~= a.subrange(0, from.len() as int));
            }
            let a2 = a.skip(from.len() as int);
            assert forall|k: int| 0 <= k < a2.len() && a2.len() - k < from.len() implies !a2.skip(
                k,
            ).is_prefix_of(from) by {
                assert(a2.skip(k) =~= a.skip(k + from.len()));
            }
            lemma_replaced_concat(a2, b, from, to);
            assert(s.skip(from.len() as int) =~= a2 + b);
            assert(to + (replaced(a2, from, to) + replaced(b, from, to)) =~= (to + replaced(
                a2,
                from,
                to,
            )) + replaced(b, from, to));
        } else {
            assert(!from.is_prefix_of(a)) by {
                if from.is_prefix_of(a) {
                    assert(from =~= s.subrange(0, from.len() as int));
                }
            }
            let a2 = a.skip(1);
            assert forall|k: int| 0 <= k < a2.len() && a2.len() - k < from.len() implies !a2.skip(
                k,
            ).is_prefix_of(from) by {
                assert(a2.skip(k) =~= a.skip(k + 1));
            }
            lemma_replaced_concat(a2, b, from, to);
            assert(s.skip(1) =~= a2 + b);
            assert(s[0] == a[0]);
            assert(seq![a[0]] + (replaced(a2, from, to) + replaced(b, from, to)) =~= (seq![a[0]]
                + replaced(a2, from, to)) + replaced(b, from, to));
        }
    }
}

/// With a non-empty replacement, a non-empty text stays non-empty, and its
/// last character is the text's own last character or the replacement's.
pub proof fn lemma_replaced_last(a: Seq<char>, from: Seq<char>, to: Seq<char>)
    requires
        from.len() > 0,
        to.len() > 0,
        a.len() > 0,
    ensures
        replaced(a, from, to).len() > 0,
        replaced(a, from, to).last() == a.last() || replaced(a, from, to).last() == to.last(),
    decreases a.len(),
{
    if from.is_prefix_of(a) {
        let rest = a.skip(from.len() as int);
        let r = replaced(rest, from, to);
        if rest.len() > 0 {
            lemma_replaced_last(rest, from, to);
            assert(rest.last() == a.last());
            assert((to + r).last() == r.last());
        } else {
            assert(r =~= Seq::<char>::empty());
            assert((to + r).last() == to.last());
        }
    } else {
        let rest = a.skip(1);
        let r = replaced(rest, from, to);
        if rest.len() > 0 {
            lemma_replaced_last(rest, from, to);
            assert(rest.last() == a.last());
            assert((seq![a[0]] + r).last() == r.last());
        } else {
            assert(r =~= Seq::<char>::empty());
            assert((seq![a[0]] + r).last() == a.last());
        }
    }
}

/// A pattern whose first character does not occur in `s` is never found,
/// so replacing it changes nothing.
pub proof fn lemma_replaced_absent(s: Seq<char>, from: Seq<char>, to: Seq<char>)
    requires
        from.len() > 0,
        !s.contains(from[0]),
    ensures
        replaced(s, from, to) == s,
    decreases s.len(),
{
    if s.len() > 0 {
        assert(!from.is_prefix_of(s)) by {
            if from.is_prefix_of(s) {
                assert(s[0] == from[0]);
            }
        }
        let rest = s.skip(1);
        assert(!rest.contains(from[0])) by {
            if rest.contains(from[0]) {
                let k = choose|k: int| 0 <= k < rest.len() && rest[k] == from[0];
                assert(s[k + 1] == from[0]);
            }
        }
        lemma_replaced_absent(rest, from, to);
        assert(seq![s[0]] + rest =~= s);
    }
}

/// Replacing every occurrence of a single character `c` by a text without
/// `c` removes `c` altogether.
pub proof fn lemma_replaced_removes(s: Seq<char>, c: char, to: Seq<char>)
    requires
        !to.contains(c),
    ensures
        !replaced(s, seq![c], to).contains(c),
    decreases s.len(),
{
    let from = seq![c];
    if s.len() == 0 {
    } else {
        let rest = s.skip(1);
        lemma_replaced_removes(rest, c, to);
        if from.is_prefix_of(s) {
            let r = to + replaced(rest, from, to);
            assert(!r.contains(c)) by {
                if r.contains(c) {
                    let k = choose|k: int| 0 <= k < r.len() && r[k] == c;
                    if k < to.len() {
                        assert(to[k] == c);
                    } else {
                        assert(replaced(rest, from, to)[k - to.len()] == c);
                    }
                }
            }
        } else {
            assert(s[0] != c) by {
                if s[0] == c {
                    assert(from =~= s.subrange(0, 1));
                }
            }
            let r = seq![s[0]] + replaced(rest, from, to);
            assert(!r.contains(c)) by {
                if r.contains(c) {
                    let k = choose|k: int| 0 <= k < r.len() && r[k] == c;
                    if k > 0 {
                        assert(replaced(rest, from, to)[k - 1] == c);
                    }
                }
            }
        }
    }
}

/// The ASCII digit for `d < 10`.
fn digit_char(d: u64) -> (c: char)
    requires
        d < 10,
    ensures
        c == digit(d as nat),
{
    let b: u8 = 48 + d as u8;
    b as char
}

/// Appends the decimal digits of `n`.
fn push_decimal(out: &mut String, n: u64)
    ensures
        final(out)@ == old(out)@ + nat_text(n as nat),
    decreases n,
{
    if n >= 10 {
        push_decimal(out, n / 10);
    }
    push_char(out, digit_char(n % 10));
    proof {
        if n >= 10 {
            assert(old(out)@ + nat_text(n as nat) =~= old(out)@ + nat_text((n / 10) as nat) + seq![
                digit((n % 10) as nat),
            ]);
        } else {
            assert(old(out)@ + nat_text(n as nat) =~= old(out)@ + seq![digit((n % 10) as nat)]);
        }
    }
}

/// Appends the decimal rendering of `n`, as `{}` renders an integer.
pub fn push_integer(out: &mut String, n: i64)
    ensures
        final(out)@ == old(out)@ + int_text(n as int),
{
    if n < 0 {
        push_char(out, '-');
        let magnitude: u64 = if n == i64::MIN {
            9223372036854775808u64
        } else {
            (-n) as u64
        };
        push_decimal(out, magnitude);
        assert(out@ =~= old(out)@ + int_text(n as int));
    } else {
        push_decimal(out, n as u64);
    }
}

} // verus!
