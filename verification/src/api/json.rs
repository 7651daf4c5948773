//! The two pieces of JSON the room API handles by hand: escaping a string
//! for output, and pulling one string value out of a request body by key.

use vstd::prelude::*;

use crate::text::{
    chars_of, find_chars, find_first, is_whitespace, leading_whitespace, lemma_find_first_is,
    string_from_chars, trim_start,
};

verus! {

/// The escape of one character: quote, backslash, newline, carriage return
/// and tab get a backslash sequence; every other character stays.
pub open spec fn escape_char(c: char) -> Seq<char> {
    if c == '"' {
        seq!['\\', '"']
    } else if c == '\\' {
        seq!['\\', '\\']
    } else if c == '\n' {
        seq!['\\', 'n']
    } else if c == '\r' {
        seq!['\\', 'r']
    } else if c == '\t' {
        seq!['\\', 't']
    } else {
        seq![c]
    }
}

/// The escape of a character sequence, character by character.
pub open spec fn escaped(s: Seq<char>) -> Seq<char>
    decreases s.len(),
{
    if s.len() == 0 {
        s
    } else {
        escaped(s.drop_last()) + escape_char(s.last())
    }
}

/// Appends the escape of `s` to `out`.
pub fn push_escaped(out: &mut Vec<char>, s: &[char])
    ensures
        final(out)@ == old(out)@ + escaped(s@),
{
    let mut i: usize = 0;
    assert(s@.take(0) =~= Seq::<char>::empty());
    while i < s.len()
        invariant
            i <= s@.len(),
            out@ == old(out)@ + escaped(s@.take(i as int)),
        decreases s.len() - i,
    {
        let c = s[i];
        let ghost before = out@;
        if c == '"' {
            out.push('\\');
            out.push('"');
        } else if c == '\\' {
            out.push('\\');
            out.push('\\');
        } else if c == '\n' {
            out.push('\\');
            out.push('n');
        } else if c == '\r' {
            out.push('\\');
            out.push('r');
        } else if c == '\t' {
            out.push('\\');
            out.push('t');
        } else {
            out.push(c);
        }
        proof {
            assert(s@.take(i + 1).drop_last() =~= s@.take(i as int));
            assert(out@ =~= before + escape_char(c));
        }
        i = i + 1;
    }
    assert(s@.take(s@.len() as int) =~= s@);
}

/// Escapes `value` for use inside a JSON string literal.
pub fn json_escape(value: &str) -> (r: String)
    ensures
        r@ == escaped(value@),
{
    let chars = chars_of(value);
    let mut out: Vec<char> = Vec::new();
    push_escaped(&mut out, &chars);
    assert(out@ =~= escaped(value@));
    string_from_chars(&out)
}

/// The character a backslash sequence stands for: `\"`, `\\`, `\/`, `\n`,
/// `\r`, `\t`, and any other character for itself.
pub open spec fn unescape_char(c: char) -> char {
    if c == 'n' {
        '\n'
    } else if c == 'r' {
        '\r'
    } else if c == 't' {
        '\t'
    } else {
        c
    }
}

/// The contents of a string literal whose opening quote has been read:
/// characters up to the first unescaped quote, backslash sequences
/// resolved; `None` when the text ends first.
pub open spec fn string_contents(s: Seq<char>) -> Option<Seq<char>>
    decreases s.len(),
{
    if s.len() == 0 {
        None
    } else if s[0] == '"' {
        Some(Seq::empty())
    } else if s[0] == '\\' {
        if s.len() < 2 {
            None
        } else {
            match string_contents(s.skip(2)) {
                Some(rest) => Some(seq![unescape_char(s[1])] + rest),
                None => None,
            }
        }
    } else {
        match string_contents(s.drop_first()) {
            Some(rest) => Some(seq![s[0]] + rest),
            None => None,
        }
    }
}

/// The text right after the first `"key"` of `body` and the first colon
/// after it, with leading white space removed.
pub open spec fn value_text(body: Seq<char>, key: Seq<char>) -> Option<Seq<char>> {
    let pattern = seq!['"'] + key + seq!['"'];
    match find_first(body, pattern) {
        None => None,
        Some(pos) => {
            let after_key = body.skip(pos + pattern.len());
            match find_first(after_key, seq![':']) {
                None => None,
                Some(colon) => Some(trim_start(after_key.skip(colon + 1))),
            }
        },
    }
}

/// The string value of `key` in a flat JSON object, as the API reads it:
/// after the first `"key"` and the colon following it, a string literal
/// must start (after white space) and end; otherwise `None`.
pub open spec fn string_value(body: Seq<char>, key: Seq<char>) -> Option<Seq<char>> {
    match value_text(body, key) {
        None => None,
        Some(t) => if t.len() > 0 && t[0] == '"' {
            string_contents(t.drop_first())
        } else {
            None
        },
    }
}

/// Reads the contents of a string literal starting at `s[start]` (just
/// after its opening quote).
fn read_string_contents(s: &[char], start: usize) -> (r: Option<Vec<char>>)
    requires
        start <= s@.len(),
    ensures
        match r {
            Some(v) => string_contents(s@.skip(start as int)) == Some(v@),
            None => string_contents(s@.skip(start as int)) is None,
        },
{
    let mut out: Vec<char> = Vec::new();
    let mut i: usize = start;
    // string_contents(s[start..]) == out ++ string_contents(s[i..]), as options.
    while i < s.len()
        invariant
            start <= i <= s@.len(),
            forall|v: Seq<char>| string_contents(s@.skip(i as int)) == Some(v) ==> string_contents(
                s@.skip(start as int),
            ) == Some(out@ + v),
            string_contents(s@.skip(i as int)) is None ==> string_contents(s@.skip(start as int)) is None,
        decreases s.len() - i,
    {
        let c = s[i];
        let ghost t = s@.skip(i as int);
        if c == '"' {
            proof {
                assert(string_contents(t) == Some(Seq::<char>::empty()));
                assert(out@ + Seq::<char>::empty() =~= out@);
            }
            return Some(out);
        } else if c == '\\' {
            if i + 1 >= s.len() {
                return None;
            }
            let e = s[i + 1];
            let unescaped = if e == 'n' {
                '\n'
            } else if e == 'r' {
                '\r'
            } else if e == 't' {
                '\t'
            } else {
                e
            };
            let ghost before = out@;
            out.push(unescaped);
            proof {
                assert(t.skip(2) =~= s@.skip(i + 2));
                assert forall|v: Seq<char>| string_contents(s@.skip(i + 2)) == Some(v) implies string_contents(
                    s@.skip(start as int),
                ) == Some(out@ + v) by {
                    assert(string_contents(t) == Some(seq![unescaped] + v));
                    assert(before + (seq![unescaped] + v) =~= out@ + v);
                }
            }
            i = i + 2;
        } else {
            let ghost before = out@;
            out.push(c);
            proof {
                assert(t.drop_first() =~= s@.skip(i + 1));
                assert forall|v: Seq<char>| string_contents(s@.skip(i + 1)) == Some(v) implies string_contents(
                    s@.skip(start as int),
                ) == Some(out@ + v) by {
                    assert(string_contents(t) == Some(seq![c] + v));
                    assert(before + (seq![c] + v) =~= out@ + v);
                }
            }
            i = i + 1;
        }
    }
    None
}

/// The text after the first `"key"` and the colon following it, with
/// leading white space removed.
fn locate_value(text: &Vec<char>, key: Vec<char>) -> (r: Option<Vec<char>>)
    ensures
        match r {
            Some(t) => value_text(text@, key@) == Some(t@),
            None => value_text(text@, key@) is None,
        },
{
    let ghost key_view = key@;
    let mut pattern: Vec<char> = Vec::new();
    pattern.push('"');
    let mut k = key;
    pattern.append(&mut k);
    pattern.push('"');
    assert(pattern@ =~= seq!['"'] + key_view + seq!['"']);
    let key_pos = match find_chars(text, &pattern) {
        Some(p) => p,
        None => return None,
    };
    assert(crate::text::occurs_at(text@, pattern@, key_pos as int));
    let text_len = text.len();
    assert(key_pos + pattern@.len() <= text_len);
    let after_key = slice_from(text, key_pos + pattern.len());
    let colon: Vec<char> = vec![':'];
    assert(colon@ =~= seq![':']);
    let colon_pos = match find_chars(&after_key, &colon) {
        Some(c) => c,
        None => return None,
    };
    assert(crate::text::occurs_at(after_key@, colon@, colon_pos as int));
    let after_len = after_key.len();
    assert(colon_pos + 1 <= after_len);
    let rest = slice_from(&after_key, colon_pos + 1);
    let ws = leading_whitespace(&rest);
    Some(slice_from(&rest, ws))
}

/// The string value stored under `key` in `body`, as described by
/// [`string_value`].
pub fn json_string_value(body: &str, key: &str) -> (r: Option<String>)
    ensures
        match r {
            Some(v) => string_value(body@, key@) == Some(v@),
            None => string_value(body@, key@) is None,
        },
{
    let text = chars_of(body);
    let t = match locate_value(&text, chars_of(key)) {
        Some(t) => t,
        None => return None,
    };
    if t.len() == 0 || t[0] != '"' {
        return None;
    }
    match read_string_contents(&t, 1) {
        Some(v) => {
            proof {
                assert(t@.skip(1) =~= t@.drop_first());
            }
            Some(string_from_chars(&v))
        },
        None => {
            proof {
                assert(t@.skip(1) =~= t@.drop_first());
            }
            None
        },
    }
}

/// The characters of `s` from index `start` on.
fn slice_from(s: &Vec<char>, start: usize) -> (r: Vec<char>)
    requires
        start <= s@.len(),
    ensures
        r@ == s@.skip(start as int),
{
    let mut out: Vec<char> = Vec::new();
    let mut i = start;
    while i < s.len()
        invariant
            start <= i <= s@.len(),
            out@ == s@.subrange(start as int, i as int),
        decreases s.len() - i,
    {
        out.push(s[i]);
        i = i + 1;
        assert(out@ =~= s@.subrange(start as int, i as int));
    }
    assert(out@ =~= s@.skip(start as int));
    out
}

/// Escaping a sequence that starts with `c` starts with the escape of `c`.
proof fn lemma_escaped_cons(c: char, s: Seq<char>)
    ensures
        escaped(seq![c] + s) == escape_char(c) + escaped(s),
    decreases s.len(),
{
    if s.len() == 0 {
        assert((seq![c] + s).drop_last() =~= Seq::<char>::empty());
        assert((seq![c] + s).last() == c);
        assert(escaped(Seq::<char>::empty()) =~= Seq::<char>::empty());
        assert(escaped(seq![c] + s) =~= escape_char(c));
        assert(escape_char(c) + escaped(s) =~= escape_char(c));
    } else {
        lemma_escaped_cons(c, s.drop_last());
        assert((seq![c] + s).drop_last() =~= seq![c] + s.drop_last());
        assert((seq![c] + s).last() == s.last());
        assert(escape_char(c) + escaped(s.drop_last()) + escape_char(s.last()) =~= escape_char(c) + (
        escaped(s.drop_last()) + escape_char(s.last())));
    }
}

/// Reading a string literal undoes escaping: the escape of `v`, closed by
/// a quote, reads back as `v`, whatever follows the quote.
pub proof fn lemma_escape_round_trip(v: Seq<char>, rest: Seq<char>)
    ensures
        string_contents(escaped(v) + seq!['"'] + rest) == Some(v),
    decreases v.len(),
{
    if v.len() == 0 {
        assert(escaped(v) =~= Seq::<char>::empty());
        assert((escaped(v) + seq!['"'] + rest)[0] == '"');
        assert(v =~= Seq::<char>::empty());
    } else {
        let c = v[0];
        let tail = v.drop_first();
        assert(v =~= seq![c] + tail);
        lemma_escaped_cons(c, tail);
        lemma_escape_round_trip(tail, rest);
        let after = escaped(tail) + seq!['"'] + rest;
        let s = escaped(v) + seq!['"'] + rest;
        assert(s =~= escape_char(c) + after);
        if escape_char(c).len() == 2 {
            assert(s.skip(2) =~= after);
            assert(seq![unescape_char(s[1])] + tail =~= v);
        } else {
            assert(s.drop_first() =~= after);
            assert(seq![c] + tail =~= v);
        }
    }
}

/// What `json_escape` writes, `json_string_value` reads back: in an object
/// whose first member is `key` with the escape of `v` as its string value,
/// the value read under `key` is `v`.
pub proof fn lemma_string_value_reads_escaped(key: Seq<char>, v: Seq<char>, rest: Seq<char>)
    ensures
        string_value(
            seq!['{', '"'] + key + seq!['"', ':', '"'] + escaped(v) + seq!['"'] + rest,
            key,
        ) == Some(v),
{
    let body = seq!['{', '"'] + key + seq!['"', ':', '"'] + escaped(v) + seq!['"'] + rest;
    let pattern = seq!['"'] + key + seq!['"'];
    assert(body.subrange(1, 1 + pattern.len() as int) =~= pattern);
    assert(!crate::text::occurs_at(body, pattern, 0)) by {
        if crate::text::occurs_at(body, pattern, 0) {
            assert(body.subrange(0, pattern.len() as int)[0] == pattern[0]);
        }
    }
    lemma_find_first_is(body, pattern, 1);
    let after_key = body.skip(1 + pattern.len() as int);
    assert(after_key =~= seq![':', '"'] + escaped(v) + seq!['"'] + rest);
    assert(after_key.subrange(0, 1) =~= seq![':']);
    lemma_find_first_is(after_key, seq![':'], 0);
    let literal = after_key.skip(1);
    assert(literal =~= seq!['"'] + escaped(v) + seq!['"'] + rest);
    assert(!is_whitespace(literal[0]));
    assert(trim_start(literal) == literal);
    assert(literal.drop_first() =~= escaped(v) + seq!['"'] + rest);
    lemma_escape_round_trip(v, rest);
}

/// The escape of any text can stand inside a JSON string literal: it holds
/// no raw line feed, carriage return or tab, and every quote in it is
/// preceded by a backslash.
pub proof fn lemma_escaped_is_literal_safe(s: Seq<char>)
    ensures
        forall|i: int|
            0 <= i < escaped(s).len() ==> #[trigger] escaped(s)[i] != '\n' && escaped(s)[i] != '\r'
                && escaped(s)[i] != '\t',
        forall|i: int|
            0 <= i < escaped(s).len() && #[trigger] escaped(s)[i] == '"' ==> i > 0 && escaped(s)[i - 1]
                == '\\',
    decreases s.len(),
{
    if s.len() > 0 {
        lemma_escaped_is_literal_safe(s.drop_last());
        let p = escaped(s.drop_last());
        let e = escape_char(s.last());
        let all = escaped(s);
        assert(all == p + e);
        assert forall|i: int| 0 <= i < all.len() implies #[trigger] all[i] != '\n' && all[i] != '\r'
            && all[i] != '\t' by {
            if i < p.len() {
                assert(all[i] == p[i]);
            } else {
                assert(all[i] == e[i - p.len()]);
            }
        }
        assert forall|i: int| 0 <= i < all.len() && #[trigger] all[i] == '"' implies i > 0 && all[i - 1]
            == '\\' by {
            if i < p.len() {
                assert(all[i] == p[i]);
                assert(all[i - 1] == p[i - 1]);
            } else {
                assert(all[i] == e[i - p.len()]);
                assert(i - p.len() == 1);
                assert(all[i - 1] == e[0]);
            }
        }
    }
}

} // verus!
