//! HTTP framing for the room API: where a request's head ends, how long
//! its body is (the `Content-Length` header), how the request line and
//! body are picked apart, which route a request takes, and the response
//! text sent back.

use vstd::prelude::*;
use vstd::utf8::{decode_utf8, encode_utf8, valid_utf8};

use crate::text::{
    char_is_whitespace, chars_of, decimal, find_chars, find_first, is_whitespace, leading_whitespace, push_decimal,
    push_str, string_from_chars, trailing_whitespace, trim_end, trim_start,
};

verus! {

/// The head of a request ends at `i`: `\r\n\r\n` starts there.
pub open spec fn header_end_at(b: Seq<u8>, i: int) -> bool {
    0 <= i && i + 4 <= b.len() && b[i] == 13 && b[i + 1] == 10 && b[i + 2] == 13 && b[i + 3] == 10
}

/// The first place at or after `i` where the head of a request ends.
pub open spec fn header_end_from(b: Seq<u8>, i: int) -> Option<int>
    decreases b.len() - i,
{
    if i < 0 || i + 4 > b.len() {
        None
    } else if header_end_at(b, i) {
        Some(i)
    } else {
        header_end_from(b, i + 1)
    }
}

/// Where the first `\r\n\r\n` of `bytes` starts.
pub fn find_header_end(bytes: &[u8]) -> (r: Option<usize>)
    ensures
        r matches Some(i) ==> header_end_from(bytes@, 0) == Some(i as int) && header_end_at(bytes@, i as int)
            && forall|j: int| 0 <= j < i ==> !header_end_at(bytes@, j),
        r is None ==> header_end_from(bytes@, 0) is None && forall|j: int| !header_end_at(bytes@, j),
{
    let n = bytes.len();
    if n < 4 {
        return None;
    }
    let mut i: usize = 0;
    while i < n - 3
        invariant
            n == bytes@.len(),
            n >= 4,
            i <= n - 3,
            header_end_from(bytes@, 0) == header_end_from(bytes@, i as int),
            forall|j: int| 0 <= j < i ==> !header_end_at(bytes@, j),
        decreases n - i,
    {
        if bytes[i] == 13 && bytes[i + 1] == 10 && bytes[i + 2] == 13 && bytes[i + 3] == 10 {
            return Some(i);
        }
        i = i + 1;
    }
    None
}

/// The text `String::from_utf8_lossy` makes of `bytes`: valid UTF-8 decoded,
/// each invalid sequence replaced by U+FFFD.
pub uninterp spec fn lossy_utf8(bytes: Seq<u8>) -> Seq<char>;

/// Decodes `bytes` with `String::from_utf8_lossy`. The result is the
/// function [`lossy_utf8`] of the bytes alone, and, as the function's
/// documentation says, the decoded text itself when the bytes are valid
/// UTF-8; how invalid sequences are replaced is not stated here.
#[verifier::external_body]
fn decode_lossy(bytes: &[u8]) -> (r: String)
    ensures
        r@ == lossy_utf8(bytes@),
        valid_utf8(bytes@) ==> r@ == decode_utf8(bytes@),
{
    String::from_utf8_lossy(bytes).into_owned()
}

/// Characters before the first `c` of `s` (all of `s` when there is none).
pub open spec fn len_until(s: Seq<char>, c: char) -> nat
    decreases s.len(),
{
    if s.len() == 0 || s[0] == c {
        0
    } else {
        1 + len_until(s.drop_first(), c)
    }
}

proof fn lemma_len_until(s: Seq<char>, c: char)
    ensures
        len_until(s, c) <= s.len(),
        len_until(s, c) < s.len() ==> s[len_until(s, c) as int] == c,
        forall|k: int| 0 <= k < len_until(s, c) ==> s[k] != c,
    decreases s.len(),
{
    if s.len() > 0 && s[0] != c {
        lemma_len_until(s.drop_first(), c);
        assert forall|k: int| 0 <= k < len_until(s, c) implies s[k] != c by {
            if k > 0 {
                assert(s[k] == s.drop_first()[k - 1]);
            }
        }
    }
}

/// The first line of `s` as `str::lines` yields it: up to the first
/// `\n`, without a `\r` just before that `\n`.
pub open spec fn first_line(s: Seq<char>) -> Seq<char> {
    let e = len_until(s, '\n');
    let l = s.take(e as int);
    if e < s.len() && l.len() > 0 && l.last() == '\r' {
        l.drop_last()
    } else {
        l
    }
}

/// What follows the first line of `s` and its `\n`.
pub open spec fn after_first_line(s: Seq<char>) -> Seq<char> {
    let e = len_until(s, '\n');
    if e < s.len() {
        s.skip((e + 1) as int)
    } else {
        Seq::empty()
    }
}

/// The code of `c`, lowered when `c` is an ASCII upper-case letter.
pub open spec fn lower_code(c: char) -> u32 {
    let u = c as u32;
    if 65 <= u && u <= 90 {
        (u + 32) as u32
    } else {
        u
    }
}

/// `name` equals "content-length" ignoring ASCII case.
pub open spec fn is_content_length_name(name: Seq<char>) -> bool {
    let target = "content-length"@;
    name.len() == target.len() && forall|i: int|
        0 <= i < name.len() ==> lower_code(#[trigger] name[i]) == target[i] as u32
}

/// Every character of `s` is an ASCII digit.
pub open spec fn all_digits(s: Seq<char>) -> bool {
    forall|i: int| 0 <= i < s.len() ==> '0' <= #[trigger] s[i] && s[i] <= '9'
}

/// The number the decimal digits `s` spell.
pub open spec fn digits_value(s: Seq<char>) -> nat
    decreases s.len(),
{
    if s.len() == 0 {
        0
    } else {
        digits_value(s.drop_last()) * 10 + ((s.last() as u32) - 48) as nat
    }
}

/// What `str::parse::<usize>` gives for `s`: an optional `+`, then one or
/// more ASCII digits whose value fits a `usize`.
pub open spec fn parse_usize(s: Seq<char>) -> Option<nat> {
    let d = if s.len() > 0 && s[0] == '+' {
        s.drop_first()
    } else {
        s
    };
    if d.len() > 0 && all_digits(d) && digits_value(d) <= usize::MAX {
        Some(digits_value(d))
    } else {
        None
    }
}

/// The length a header line announces: a `Content-Length` name before the
/// first colon, and a parseable number after it (white space trimmed).
pub open spec fn content_length_line(line: Seq<char>) -> Option<nat> {
    let c = len_until(line, ':');
    if c < line.len() && is_content_length_name(line.take(c as int)) {
        parse_usize(trim_end(trim_start(line.skip((c + 1) as int))))
    } else {
        None
    }
}

/// The length the first announcing line of `head` gives, if any.
pub open spec fn content_length_in(head: Seq<char>) -> Option<nat>
    decreases head.len(),
{
    if head.len() == 0 {
        None
    } else {
        match content_length_line(first_line(head)) {
            Some(n) => Some(n),
            None => content_length_in(after_first_line(head)),
        }
    }
}

fn len_until_exec(s: &[char], from: usize, c: char) -> (r: usize)
    requires
        from <= s@.len(),
    ensures
        from + len_until(s@.skip(from as int), c) == r,
        r <= s@.len(),
{
    let mut i = from;
    while i < s.len() && s[i] != c
        invariant
            from <= i <= s@.len(),
            len_until(s@.skip(from as int), c) == (i - from) + len_until(s@.skip(i as int), c),
        decreases s.len() - i,
    {
        assert(s@.skip(i as int).drop_first() =~= s@.skip(i + 1));
        i = i + 1;
    }
    i
}

fn parse_usize_exec(s: &[char]) -> (r: Option<usize>)
    ensures
        r matches Some(n) ==> parse_usize(s@) == Some(n as nat),
        r is None ==> parse_usize(s@) is None,
{
    let start: usize = if s.len() > 0 && s[0] == '+' {
        1
    } else {
        0
    };
    let ghost d = if s@.len() > 0 && s@[0] == '+' {
        s@.drop_first()
    } else {
        s@
    };
    assert(d =~= s@.skip(start as int));
    assert(parse_usize(s@) == (if d.len() > 0 && all_digits(d) && digits_value(d) <= usize::MAX {
        Some(digits_value(d))
    } else {
        None
    }));
    if start >= s.len() {
        return None;
    }
    let mut value: usize = 0;
    let mut i = start;
    assert(d.take(0) =~= Seq::<char>::empty());
    while i < s.len()
        invariant
            start <= i <= s@.len(),
            d == s@.skip(start as int),
            parse_usize(s@) == (if d.len() > 0 && all_digits(d) && digits_value(d) <= usize::MAX {
                Some(digits_value(d))
            } else {
                None
            }),
            all_digits(d.take(i - start)),
            value == digits_value(d.take(i - start)),
        decreases s.len() - i,
    {
        let ch = s[i];
        assert(d[i - start] == ch);
        if !('0' <= ch && ch <= '9') {
            assert(!all_digits(d));
            return None;
        }
        let digit = (ch as u32 - 48) as usize;
        let ghost k = i - start;
        assert(d.take(k + 1).drop_last() =~= d.take(k));
        assert(d.take(k + 1).last() == ch);
        if value > (usize::MAX - digit) / 10 {
            assert(value * 10 + digit > usize::MAX) by (nonlinear_arith)
                requires
                    value > (usize::MAX - digit) / 10,
                    digit <= 9,
            ;
            proof {
                if all_digits(d) {
                    lemma_digits_monotone(d, k + 1);
                }
            }
            return None;
        }
        assert(value * 10 + digit <= usize::MAX) by (nonlinear_arith)
            requires
                value <= (usize::MAX - digit) / 10,
                digit <= 9,
        ;
        value = value * 10 + digit;
        i = i + 1;
        assert forall|t: int| 0 <= t < d.take(k + 1).len() implies '0' <= #[trigger] d.take(k + 1)[t]
            && d.take(k + 1)[t] <= '9' by {
            if t < k {
                assert(d.take(k + 1)[t] == d.take(k)[t]);
            }
        }
    }
    assert(d.take(d.len() as int) =~= d);
    Some(value)
}

proof fn lemma_digits_monotone(d: Seq<char>, k: int)
    requires
        0 <= k <= d.len(),
        all_digits(d),
    ensures
        digits_value(d.take(k)) <= digits_value(d),
    decreases d.len() - k,
{
    if k < d.len() {
        lemma_digits_monotone(d, k + 1);
        assert(d.take(k + 1).drop_last() =~= d.take(k));
        assert(d.take(k + 1).last() == d[k]);
    } else {
        assert(d.take(k) =~= d);
    }
}

fn is_content_length_name_exec(name: &[char]) -> (r: bool)
    ensures
        r == is_content_length_name(name@),
{
    let target = chars_of("content-length");
    if name.len() != target.len() {
        return false;
    }
    let mut i: usize = 0;
    while i < name.len()
        invariant
            target@ == "content-length"@,
            name@.len() == target@.len(),
            i <= name@.len(),
            forall|k: int| 0 <= k < i ==> lower_code(#[trigger] name@[k]) == target@[k] as u32,
        decreases name.len() - i,
    {
        let u = name[i] as u32;
        let l = if 65 <= u && u <= 90 {
            u + 32
        } else {
            u
        };
        if l != target[i] as u32 {
            assert(lower_code(name@[i as int]) != target@[i as int] as u32);
            return false;
        }
        i = i + 1;
    }
    true
}

/// The length one header line announces.
fn content_length_of_line(line: &[char]) -> (r: Option<usize>)
    ensures
        r matches Some(n) ==> content_length_line(line@) == Some(n as nat),
        r is None ==> content_length_line(line@) is None,
{
    assert(line@.skip(0) =~= line@);
    let c = len_until_exec(line, 0, ':');
    if c >= line.len() {
        return None;
    }
    let name = &line[0..c];
    assert(name@ =~= line@.take(c as int));
    if !is_content_length_name_exec(name) {
        return None;
    }
    let rest = &line[c + 1..line.len()];
    assert(rest@ =~= line@.skip(c + 1));
    let a = leading_whitespace(rest);
    let trimmed_front = &rest[a..rest.len()];
    assert(trimmed_front@ =~= rest@.skip(a as int));
    let b = trailing_whitespace(trimmed_front);
    let value = &trimmed_front[0..trimmed_front.len() - b];
    assert(value@ =~= trimmed_front@.take(trimmed_front@.len() - b));
    parse_usize_exec(value)
}

/// The body length the first announcing line of `head` gives.
pub fn header_content_length(head: &[char]) -> (r: Option<usize>)
    ensures
        r matches Some(n) ==> content_length_in(head@) == Some(n as nat),
        r is None ==> content_length_in(head@) is None,
{
    let mut pos: usize = 0;
    assert(head@.skip(0) =~= head@);
    while pos < head.len()
        invariant
            pos <= head@.len(),
            content_length_in(head@) == content_length_in(head@.skip(pos as int)),
        decreases head.len() - pos,
    {
        let ghost rest = head@.skip(pos as int);
        let e = len_until_exec(head, pos, '\n');
        proof {
            lemma_len_until(rest, '\n');
        }
        let end = if e < head.len() && e > pos && head[e - 1] == '\r' {
            e - 1
        } else {
            e
        };
        let line = &head[pos..end];
        assert(line@ =~= first_line(rest));
        match content_length_of_line(line) {
            Some(n) => {
                return Some(n);
            },
            None => {},
        }
        if e < head.len() {
            assert(head@.skip(e + 1) =~= after_first_line(rest));
            pos = e + 1;
        } else {
            assert(after_first_line(rest) =~= Seq::<char>::empty());
            assert(head@.skip(head@.len() as int) =~= Seq::<char>::empty());
            pos = head.len();
        }
    }
    assert(head@.skip(pos as int) =~= Seq::<char>::empty());
    None
}

/// The length a head announces is the value of its first header line that
/// announces one, wherever that line stands: a header line `l` (without
/// line breaks) ending in CRLF gives its own length when it announces one,
/// and otherwise leaves the answer to the lines after it, whatever its name.
pub proof fn lemma_announcing_line_found_anywhere(l: Seq<char>, rest: Seq<char>)
    requires
        forall|i: int| 0 <= i < l.len() ==> l[i] != '\n' && l[i] != '\r',
    ensures
        content_length_in(l + seq!['\r', '\n'] + rest) == match content_length_line(l) {
            Some(n) => Some(n),
            None => content_length_in(rest),
        },
{
    let s = l + seq!['\r', '\n'] + rest;
    let e = len_until(s, '\n');
    lemma_len_until(s, '\n');
    assert(s[l.len() as int + 1] == '\n');
    assert(e == l.len() + 1) by {
        if e < l.len() + 1 {
            if e < l.len() {
                assert(s[e as int] == l[e as int]);
            } else {
                assert(s[e as int] == '\r');
            }
        }
    }
    assert(s.take(e as int) =~= l.push('\r'));
    assert(first_line(s) =~= l);
    assert(after_first_line(s) =~= rest);
}

/// The body length the head `head_bytes` announces (zero when no header
/// line announces one).
pub open spec fn announced_length(head_bytes: Seq<u8>) -> nat {
    match content_length_in(lossy_utf8(head_bytes)) {
        Some(n) => n,
        None => 0,
    }
}

/// `b` holds a whole request: a head ending in `\r\n\r\n`, and after it
/// at least as many bytes as the head announces.
pub open spec fn holds_whole_request(b: Seq<u8>) -> bool {
    match header_end_from(b, 0) {
        None => false,
        Some(h) => b.len() >= h + 4 + announced_length(b.take(h)),
    }
}

/// Whether the bytes received so far hold a whole request, so that
/// reading can stop.
pub fn request_complete(bytes: &[u8]) -> (r: bool)
    ensures
        r == holds_whole_request(bytes@),
{
    match find_header_end(bytes) {
        None => false,
        Some(h) => {
            let head_bytes = &bytes[0..h];
            assert(head_bytes@ =~= bytes@.take(h as int));
            let head = decode_lossy(head_bytes);
            let chars = chars_of(head.as_str());
            let n: usize = match header_content_length(&chars) {
                Some(n) => n,
                None => 0,
            };
            (bytes.len() as u128) >= (h as u128) + 4 + (n as u128)
        },
    }
}

proof fn lemma_header_end_extends(b: Seq<u8>, more: Seq<u8>, i: int)
    requires
        0 <= i,
        header_end_from(b, i) is Some,
    ensures
        header_end_from(b + more, i) == header_end_from(b, i),
        header_end_from(b, i) matches Some(h) && i <= h && h + 4 <= b.len(),
    decreases b.len() - i,
{
    let bb = b + more;
    assert(bb[i] == b[i] && bb[i + 1] == b[i + 1] && bb[i + 2] == b[i + 2] && bb[i + 3] == b[i + 3]);
    if !header_end_at(b, i) {
        lemma_header_end_extends(b, more, i + 1);
    }
}

/// Once the bytes received hold a whole request, they still do when more
/// bytes arrive: the head, its announced length and its end stay where
/// they were.
pub proof fn lemma_whole_request_stays_whole(b: Seq<u8>, more: Seq<u8>)
    requires
        holds_whole_request(b),
    ensures
        holds_whole_request(b + more),
{
    lemma_header_end_extends(b, more, 0);
    let h = header_end_from(b, 0)->Some_0;
    assert((b + more).take(h) =~= b.take(h));
}

/// The text of a received request: its bytes decoded, invalid UTF-8
/// replaced.
pub fn request_text(bytes: &[u8]) -> (r: String)
    ensures
        r@ == lossy_utf8(bytes@),
        valid_utf8(bytes@) ==> r@ == decode_utf8(bytes@),
{
    decode_lossy(bytes)
}

/// Leading characters of `s` that are not white space.
pub open spec fn token_len(s: Seq<char>) -> nat
    decreases s.len(),
{
    if s.len() == 0 || is_whitespace(s[0]) {
        0
    } else {
        1 + token_len(s.drop_first())
    }
}

proof fn lemma_token_len(s: Seq<char>)
    ensures
        token_len(s) <= s.len(),
    decreases s.len(),
{
    if s.len() > 0 && !is_whitespace(s[0]) {
        lemma_token_len(s.drop_first());
    }
}

/// The first white-space-separated word of `s` (empty when there is none),
/// as `split_whitespace().next()` gives it.
pub open spec fn first_token(s: Seq<char>) -> Seq<char> {
    let t = trim_start(s);
    t.take(token_len(t) as int)
}

/// What follows the first word of `s`.
pub open spec fn after_first_token(s: Seq<char>) -> Seq<char> {
    let t = trim_start(s);
    t.skip(token_len(t) as int)
}

/// `\r\n\r\n`, the blank line between a request's head and its body.
pub open spec fn blank_line() -> Seq<char> {
    seq!['\r', '\n', '\r', '\n']
}

/// The body of request text `s`, as `s.split("\r\n\r\n").nth(1)` gives
/// it: what lies between the first blank line and the next one (or the
/// end); empty when there is no blank line.
pub open spec fn request_body(s: Seq<char>) -> Seq<char> {
    match find_first(s, blank_line()) {
        None => Seq::empty(),
        Some(i) => {
            let rest = s.skip(i + 4);
            match find_first(rest, blank_line()) {
                None => rest,
                Some(j) => rest.take(j),
            }
        },
    }
}

/// End of the word that starts at `from` in `s`.
fn token_end(s: &[char], from: usize) -> (r: usize)
    requires
        from <= s@.len(),
    ensures
        from + token_len(s@.skip(from as int)) == r,
        r <= s@.len(),
{
    let mut i = from;
    while i < s.len() && !char_is_whitespace(s[i])
        invariant
            from <= i <= s@.len(),
            token_len(s@.skip(from as int)) == (i - from) + token_len(s@.skip(i as int)),
        decreases s.len() - i,
    {
        assert(s@.skip(i as int).drop_first() =~= s@.skip(i + 1));
        i = i + 1;
    }
    i
}

/// A request as the room API reads it.
pub struct Request {
    pub method: String,
    pub path: String,
    pub body: String,
}

/// The parts of a request the API looks at.
pub struct RequestView {
    pub method: Seq<char>,
    pub path: Seq<char>,
    pub body: Seq<char>,
}

impl View for Request {
    type V = RequestView;

    open spec fn view(&self) -> RequestView {
        RequestView { method: self.method@, path: self.path@, body: self.body@ }
    }
}

/// The request that text `s` holds: the first two words of its first line
/// are the method and the path, and its body follows the first blank line.
pub open spec fn parsed_request(s: Seq<char>) -> RequestView {
    let line = first_line(s);
    RequestView {
        method: first_token(line),
        path: first_token(after_first_token(line)),
        body: request_body(s),
    }
}

/// Reads the method, path and body out of request text.
pub fn parse_request(text: &str) -> (r: Request)
    ensures
        r@ == parsed_request(text@),
{
    let chars = chars_of(text);
    assert(chars@.skip(0) =~= chars@);
    let e = len_until_exec(&chars, 0, '\n');
    proof {
        lemma_len_until(chars@, '\n');
    }
    let end = if e < chars.len() && e > 0 && chars[e - 1] == '\r' {
        e - 1
    } else {
        e
    };
    let line = &chars[0..end];
    assert(line@ =~= first_line(chars@));
    let a = leading_whitespace(line);
    let t = token_end(line, a);
    proof {
        lemma_token_len(line@.skip(a as int));
    }
    let method = string_from_chars(&line[a..t]);
    assert(line@.subrange(a as int, t as int) =~= first_token(line@));
    let rest = &line[t..line.len()];
    assert(rest@ =~= after_first_token(line@));
    let a2 = leading_whitespace(rest);
    let t2 = token_end(rest, a2);
    proof {
        lemma_token_len(rest@.skip(a2 as int));
    }
    let path = string_from_chars(&rest[a2..t2]);
    assert(rest@.subrange(a2 as int, t2 as int) =~= first_token(rest@));
    let mut sep: Vec<char> = Vec::new();
    sep.push('\r');
    sep.push('\n');
    sep.push('\r');
    sep.push('\n');
    assert(sep@ =~= blank_line());
    let body = match find_chars(&chars, &sep) {
        None => string_from_chars(&[]),
        Some(i) => {
            let after = &chars[i + 4..chars.len()];
            assert(after@ =~= chars@.skip(i + 4));
            match find_chars(after, &sep) {
                None => string_from_chars(after),
                Some(j) => {
                    let inner = &after[0..j];
                    assert(inner@ =~= after@.take(j as int));
                    string_from_chars(inner)
                },
            }
        },
    };
    proof {
        if find_first(chars@, blank_line()) is None {
            assert(body@ =~= Seq::<char>::empty());
        }
    }
    Request { method, path, body }
}

/// The length in bytes of the UTF-8 encoding of `s`, as `str::len`
/// reports it.
pub open spec fn utf8_len(s: Seq<char>) -> usize {
    encode_utf8(s).len() as usize
}

/// The full text of a response: status line, the fixed JSON and CORS
/// headers, the body's length in bytes, a blank line and the body.
pub open spec fn response_text(status: u16, reason: Seq<char>, body: Seq<char>) -> Seq<char> {
    "HTTP/1.1 "@ + decimal(status as nat) + " "@ + reason
        + "\r\nContent-Type: application/json\r\nContent-Length: "@ + decimal(utf8_len(body) as nat)
        + "\r\nAccess-Control-Allow-Origin: *\r\nAccess-Control-Allow-Methods: GET, POST, OPTIONS\r\nAccess-Control-Allow-Headers: Content-Type\r\nConnection: close\r\n\r\n"@
        + body
}

/// The text sent back for a response with this status, reason and body.
pub fn format_response(status: u16, reason: &str, body: &str) -> (r: String)
    ensures
        r@ == response_text(status, reason@, body@),
{
    let mut out: Vec<char> = Vec::new();
    push_str(&mut out, "HTTP/1.1 ");
    push_decimal(&mut out, status as u128);
    push_str(&mut out, " ");
    push_str(&mut out, reason);
    push_str(&mut out, "\r\nContent-Type: application/json\r\nContent-Length: ");
    push_decimal(&mut out, body.len() as u128);
    push_str(
        &mut out,
        "\r\nAccess-Control-Allow-Origin: *\r\nAccess-Control-Allow-Methods: GET, POST, OPTIONS\r\nAccess-Control-Allow-Headers: Content-Type\r\nConnection: close\r\n\r\n",
    );
    push_str(&mut out, body);
    assert(out@ =~= response_text(status, reason@, body@));
    string_from_chars(&out)
}

/// The decimal rendering of `n` is a string of digits that spells `n`.
pub proof fn lemma_decimal_spells(n: nat)
    ensures
        decimal(n).len() > 0,
        all_digits(decimal(n)),
        digits_value(decimal(n)) == n,
    decreases n,
{
    let d = decimal(n);
    if n < 10 {
        assert(((n + 48) as u8) as char as u32 == n + 48);
        assert(d.drop_last() =~= Seq::<char>::empty());
        assert(digits_value(d.drop_last()) == 0);
    } else {
        lemma_decimal_spells(n / 10);
        let p = decimal(n / 10);
        assert(((n % 10 + 48) as u8) as char as u32 == n % 10 + 48);
        assert(d.drop_last() =~= p);
        assert forall|i: int| 0 <= i < d.len() implies '0' <= #[trigger] d[i] && d[i] <= '9' by {
            if i < p.len() {
                assert(d[i] == p[i]);
            }
        }
        assert(n == (n / 10) * 10 + n % 10);
    }
}

/// Reading back what is written: a `Content-Length` value written in
/// decimal parses to the number written, for every length a `usize` holds.
pub proof fn lemma_parse_reads_decimal(n: nat)
    requires
        n <= usize::MAX,
    ensures
        parse_usize(decimal(n)) == Some(n),
{
    lemma_decimal_spells(n);
    let d = decimal(n);
    assert(d[0] != '+');
}

proof fn lemma_token_prefix(t: Seq<char>)
    ensures
        token_len(t) <= t.len(),
        forall|i: int| 0 <= i < token_len(t) ==> !is_whitespace(#[trigger] t[i]),
        token_len(t) < t.len() ==> is_whitespace(t[token_len(t) as int]),
    decreases t.len(),
{
    if t.len() > 0 && !is_whitespace(t[0]) {
        lemma_token_prefix(t.drop_first());
        assert forall|i: int| 0 <= i < token_len(t) implies !is_whitespace(#[trigger] t[i]) by {
            if i > 0 {
                assert(t[i] == t.drop_first()[i - 1]);
            }
        }
        if token_len(t) < t.len() {
            assert(t[token_len(t) as int] == t.drop_first()[token_len(t.drop_first()) as int]);
        }
    }
}

/// The method and the path are whole words: a word holds no white space,
/// starts the text once leading white space is skipped, and ends at white
/// space or at the end of the text; it is empty only when nothing but white
/// space is left.
pub proof fn lemma_first_token_is_a_word(s: Seq<char>)
    ensures
        ({
            let t = trim_start(s);
            let w = first_token(s);
            &&& forall|i: int| 0 <= i < w.len() ==> !is_whitespace(#[trigger] w[i])
            &&& w == t.take(w.len() as int)
            &&& w.len() < t.len() ==> is_whitespace(t[w.len() as int])
            &&& t.len() > 0 ==> w.len() > 0
            &&& after_first_token(s) == t.skip(w.len() as int)
        }),
{
    let t = trim_start(s);
    lemma_token_prefix(t);
    lemma_trim_start_shape(s);
    let w = first_token(s);
    assert forall|i: int| 0 <= i < w.len() implies !is_whitespace(#[trigger] w[i]) by {
        assert(w[i] == t[i]);
    }
}

proof fn lemma_trim_start_shape(s: Seq<char>)
    ensures
        trim_start(s).len() > 0 ==> !is_whitespace(trim_start(s)[0]),
    decreases s.len(),
{
    if s.len() > 0 && is_whitespace(s[0]) {
        lemma_trim_start_shape(s.drop_first());
    }
}

} // verus!
