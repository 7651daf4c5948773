//! Rooms of the API: their JSON form, how a new room is read from a
//! request body, and room ids (the wall clock's milliseconds in base 36).

use vstd::prelude::*;

use crate::api::json::{escaped, json_string_value, push_escaped, string_value};
use crate::clock::millis_since_unix_epoch;
use crate::text::{chars_of, push_str, string_from_chars};

verus! {

/// A listening room.
#[derive(Debug, Clone)]
pub struct Room {
    pub room_id: String,
    pub room_name: String,
    pub host_name: String,
}

/// A room as its three texts.
pub struct RoomView {
    pub room_id: Seq<char>,
    pub room_name: Seq<char>,
    pub host_name: Seq<char>,
}

impl View for Room {
    type V = RoomView;

    open spec fn view(&self) -> RoomView {
        RoomView { room_id: self.room_id@, room_name: self.room_name@, host_name: self.host_name@ }
    }
}

/// The JSON the API answers with for `room`.
pub open spec fn room_json_text(id: Seq<char>, name: Seq<char>, host: Seq<char>) -> Seq<char> {
    "{\"success\":true,\"room\":{\"roomId\":\""@ + escaped(id) + "\",\"roomName\":\""@ + escaped(name)
        + "\",\"hostName\":\""@ + escaped(host) + "\"}}"@
}

/// The API's JSON for `room`.
pub fn room_json(room: &Room) -> (r: String)
    ensures
        r@ == room_json_text(room.room_id@, room.room_name@, room.host_name@),
{
    let mut out: Vec<char> = Vec::new();
    push_str(&mut out, "{\"success\":true,\"room\":{\"roomId\":\"");
    push_escaped(&mut out, &chars_of(room.room_id.as_str()));
    push_str(&mut out, "\",\"roomName\":\"");
    push_escaped(&mut out, &chars_of(room.room_name.as_str()));
    push_str(&mut out, "\",\"hostName\":\"");
    push_escaped(&mut out, &chars_of(room.host_name.as_str()));
    push_str(&mut out, "\"}}");
    assert(out@ =~= room_json_text(room.room_id@, room.room_name@, room.host_name@));
    string_from_chars(&out)
}

/// The room a create request asks for: the body's `roomName` and
/// `hostName` strings, defaulting to "Music Room" and "Host".
pub fn room_from_body(body: &str, room_id: String) -> (r: Room)
    ensures
        r.room_id == room_id,
        r.room_name@ == match string_value(body@, "roomName"@) {
            Some(v) => v,
            None => "Music Room"@,
        },
        r.host_name@ == match string_value(body@, "hostName"@) {
            Some(v) => v,
            None => "Host"@,
        },
{
    let room_name = match json_string_value(body, "roomName") {
        Some(v) => v,
        None => string_from_chars(&chars_of("Music Room")),
    };
    let host_name = match json_string_value(body, "hostName") {
        Some(v) => v,
        None => string_from_chars(&chars_of("Host")),
    };
    Room { room_id, room_name, host_name }
}

/// The base-36 digit for `d` (`0 <= d < 36`), lower case.
pub open spec fn base36_digit(d: nat) -> char {
    if d < 10 {
        ((d + 48) as u8) as char
    } else {
        ((d - 10 + 97) as u8) as char
    }
}

/// The base-36 rendering of `n`, lower case, without leading zeros ("0"
/// for zero).
pub open spec fn base36(n: nat) -> Seq<char>
    decreases n,
{
    if n < 36 {
        seq![base36_digit(n)]
    } else {
        base36(n / 36).push(base36_digit(n % 36))
    }
}

fn digit36(d: u8) -> (r: char)
    requires
        d < 36,
    ensures
        r == base36_digit(d as nat),
{
    if d < 10 {
        (d + 48) as char
    } else {
        (d - 10 + 97) as char
    }
}

fn base36_chars(value: u128) -> (r: Vec<char>)
    ensures
        r@ == base36(value as nat),
{
    let mut digits: Vec<char> = Vec::new();
    let mut rest: u128 = value;
    loop
        invariant_except_break
            base36(value as nat) == base36(rest as nat) + digits@.reverse(),
        ensures
            base36(value as nat) == digits@.reverse(),
        decreases rest,
    {
        let d = (rest % 36) as u8;
        let ghost before = digits@;
        digits.push(digit36(d));
        assert(digits@.reverse() =~= seq![digits@.last()] + before.reverse());
        if rest < 36 {
            break;
        }
        rest = rest / 36;
    }
    let mut out: Vec<char> = Vec::new();
    let mut i = digits.len();
    while i > 0
        invariant
            i <= digits.len(),
            base36(value as nat) == digits@.reverse(),
            out@ == digits@.subrange(i as int, digits.len() as int).reverse(),
        decreases i,
    {
        i = i - 1;
        let c = digits[i];
        out.push(c);
        assert(digits@.subrange(i as int, digits.len() as int).reverse() =~= digits@.subrange(
            i + 1,
            digits.len() as int,
        ).reverse().push(c));
    }
    assert(digits@.subrange(0, digits.len() as int) =~= digits@);
    out
}

/// `c` is a base-36 digit: `0-9` or `a-z`.
pub open spec fn is_base36_digit(c: char) -> bool {
    ('0' <= c && c <= '9') || ('a' <= c && c <= 'z')
}

/// The number the base-36 digit `c` stands for.
pub open spec fn base36_digit_value(c: char) -> nat {
    if c <= '9' {
        (c as nat - 48) as nat
    } else {
        (c as nat - 87) as nat
    }
}

/// The number the base-36 digits `s` spell, most significant first.
pub open spec fn base36_value(s: Seq<char>) -> nat
    decreases s.len(),
{
    if s.len() == 0 {
        0
    } else {
        base36_value(s.drop_last()) * 36 + base36_digit_value(s.last())
    }
}

proof fn lemma_digit(d: nat)
    requires
        d < 36,
    ensures
        is_base36_digit(base36_digit(d)),
        base36_digit_value(base36_digit(d)) == d,
        (base36_digit(d) == '0') <==> d == 0,
{
    if d < 10 {
        assert(((d + 48) as u8) as char as nat == d + 48);
    } else {
        assert(((d - 10 + 97) as u8) as char as nat == d + 87);
    }
}

/// The base-36 rendering is a faithful numeral: non-empty, made of the
/// digits `0-9a-z` alone, "0" exactly for zero and otherwise without a
/// leading zero, and it spells `n` back.
pub proof fn lemma_base36_numeral(n: nat)
    ensures
        base36(n).len() > 0,
        forall|i: int| 0 <= i < base36(n).len() ==> is_base36_digit(#[trigger] base36(n)[i]),
        (base36(n) == seq!['0']) <==> n == 0,
        n > 0 ==> base36(n)[0] != '0',
        base36_value(base36(n)) == n,
    decreases n,
{
    if n < 36 {
        lemma_digit(n);
        let s = base36(n);
        assert(s.drop_last() =~= Seq::<char>::empty());
        assert(base36_value(Seq::<char>::empty()) == 0);
        assert(base36_value(s) == base36_value(s.drop_last()) * 36 + base36_digit_value(s.last()));
        if n != 0 {
            assert(s[0] != '0');
            assert(s != seq!['0']);
        } else {
            assert(s =~= seq!['0']);
        }
    } else {
        lemma_base36_numeral(n / 36);
        lemma_digit(n % 36);
        let p = base36(n / 36);
        let s = base36(n);
        assert(s == p.push(base36_digit(n % 36)));
        assert(s.drop_last() =~= p);
        assert forall|i: int| 0 <= i < s.len() implies is_base36_digit(#[trigger] s[i]) by {
            if i < p.len() {
                assert(s[i] == p[i]);
            }
        }
        assert(s[0] == p[0]);
        assert(s.len() >= 2);
        assert(s != seq!['0']) by {
            if s == seq!['0'] {
                assert(s.len() == 1);
            }
        }
        assert(s.last() == base36_digit(n % 36));
        assert(base36_value(s) == base36_value(p) * 36 + base36_digit_value(s.last()));
        assert(n == (n / 36) * 36 + n % 36);
    }
}

/// `value` in base 36 (digits `0-9a-z`).
pub fn to_base36(value: u128) -> (r: String)
    ensures
        r@ == base36(value as nat),
{
    let chars = base36_chars(value);
    string_from_chars(&chars)
}

/// `s` left-padded with `'0'` to at least six characters.
pub open spec fn pad6(s: Seq<char>) -> Seq<char> {
    if s.len() >= 6 {
        s
    } else {
        Seq::new((6 - s.len()) as nat, |i: int| '0') + s
    }
}

/// `c` in upper case when it is an ASCII lower-case letter.
pub open spec fn ascii_upper(c: char) -> char {
    if 'a' <= c && c <= 'z' {
        ((c as u32) - 32) as char
    } else {
        c
    }
}

/// Room ids cycle every 36^6 milliseconds.
pub const ROOM_ID_PERIOD: u128 = 2_176_782_336;

/// The room id for wall-clock time `millis`: the time modulo 36^6 in base
/// 36, padded to six digits and upper-cased.
pub open spec fn room_id_of(millis: nat) -> Seq<char> {
    pad6(base36(millis % (ROOM_ID_PERIOD as nat))).map_values(|c: char| ascii_upper(c))
}

/// The room id for wall-clock time `millis`.
pub fn room_id_from_millis(millis: u128) -> (r: String)
    ensures
        r@ == room_id_of(millis as nat),
{
    let digits = base36_chars(millis % ROOM_ID_PERIOD);
    let mut padded: Vec<char> = Vec::new();
    let mut zeros: usize = 0;
    let pad = if digits.len() >= 6 {
        0
    } else {
        6 - digits.len()
    };
    while zeros < pad
        invariant
            zeros <= pad,
            padded@ == Seq::new(zeros as nat, |i: int| '0'),
        decreases pad - zeros,
    {
        padded.push('0');
        zeros = zeros + 1;
        assert(padded@ =~= Seq::new(zeros as nat, |i: int| '0'));
    }
    let mut rest = digits;
    let ghost digit_view = rest@;
    padded.append(&mut rest);
    proof {
        assert(padded@ =~= pad6(base36((millis % ROOM_ID_PERIOD) as nat)));
    }
    let mut out: Vec<char> = Vec::new();
    let mut i: usize = 0;
    while i < padded.len()
        invariant
            i <= padded@.len(),
            out@ == padded@.take(i as int).map_values(|c: char| ascii_upper(c)),
        decreases padded.len() - i,
    {
        let c = padded[i];
        let u = if 'a' <= c && c <= 'z' {
            ((c as u32) - 32) as u8 as char
        } else {
            c
        };
        out.push(u);
        i = i + 1;
        assert(out@ =~= padded@.take(i as int).map_values(|c: char| ascii_upper(c)));
    }
    assert(padded@.take(padded@.len() as int) =~= padded@);
    string_from_chars(&out)
}

/// A fresh room id from the wall clock (time zero when the clock reads
/// before the Unix epoch).
pub fn generate_room_id() -> (r: String)
    ensures
        exists|millis: u128| r@ == room_id_of(millis as nat),
{
    let millis = match millis_since_unix_epoch() {
        Some(ms) => ms,
        None => 0,
    };
    room_id_from_millis(millis)
}

/// `36` to the power `k`.
pub open spec fn pow36(k: nat) -> nat
    decreases k,
{
    if k == 0 {
        1
    } else {
        36 * pow36((k - 1) as nat)
    }
}

proof fn lemma_base36_short(n: nat, k: nat)
    requires
        k >= 1,
        n < pow36(k),
    ensures
        base36(n).len() <= k,
    decreases k,
{
    if n >= 36 {
        assert(k >= 2) by {
            if k == 1 {
                assert(pow36(0) == 1);
            }
        }
        assert(n / 36 < pow36((k - 1) as nat)) by (nonlinear_arith)
            requires
                n < 36 * pow36((k - 1) as nat),
        ;
        lemma_base36_short(n / 36, (k - 1) as nat);
    }
}

/// Room ids are six characters, each a digit or an upper-case letter, and
/// they repeat with the period 36^6 ms: times a whole period apart give the
/// same id.
pub proof fn lemma_room_id_shape(millis: nat)
    ensures
        room_id_of(millis).len() == 6,
        forall|i: int|
            0 <= i < 6 ==> ('0' <= #[trigger] room_id_of(millis)[i] && room_id_of(millis)[i] <= '9') || (
            'A' <= room_id_of(millis)[i] && room_id_of(millis)[i] <= 'Z'),
        room_id_of(millis + ROOM_ID_PERIOD as nat) == room_id_of(millis),
{
    let n = millis % (ROOM_ID_PERIOD as nat);
    assert(pow36(6) == ROOM_ID_PERIOD) by {
        reveal_with_fuel(pow36, 7);
    }
    lemma_base36_short(n, 6);
    lemma_base36_numeral(n);
    let b = base36(n);
    let padded = pad6(b);
    assert(padded.len() == 6);
    assert forall|i: int| 0 <= i < 6 implies padded[i] == '0' || is_base36_digit(padded[i]) by {
        if b.len() < 6 {
            if i >= 6 - b.len() {
                assert(padded[i] == b[i - (6 - b.len())]);
            }
        } else {
            assert(padded[i] == b[i]);
        }
    }
    assert((millis + ROOM_ID_PERIOD as nat) % (ROOM_ID_PERIOD as nat) == n);
}

} // verus!
