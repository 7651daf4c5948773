//! What the room API answers: which route a request takes, and the
//! response each route gives, with the change it makes to the registry.

use vstd::prelude::*;

use crate::api::http::{Request, RequestView};
use crate::api::json::string_value;
use crate::api::registry::{same_chars, RoomRegistry};
use crate::api::room::{
    ascii_upper, base36, generate_room_id, is_base36_digit, lemma_base36_numeral, pad6,
    room_from_body, room_id_of, room_json, room_json_text, RoomView, ROOM_ID_PERIOD,
};
use crate::text::{chars_of, string_from_chars};

verus! {

/// `p` is a prefix of `s`.
pub open spec fn starts_with(s: Seq<char>, p: Seq<char>) -> bool {
    p.len() <= s.len() && s.take(p.len() as int) == p
}

/// `s` with every leading repetition of `p` removed, as
/// `str::trim_start_matches` gives it.
pub open spec fn strip_prefixes(s: Seq<char>, p: Seq<char>) -> Seq<char>
    decreases s.len(),
{
    if p.len() > 0 && starts_with(s, p) {
        strip_prefixes(s.skip(p.len() as int), p)
    } else {
        s
    }
}

/// Whether `p` occurs in `s` at `pos`.
fn starts_with_at(s: &[char], pos: usize, p: &[char]) -> (r: bool)
    requires
        pos <= s@.len(),
    ensures
        r == starts_with(s@.skip(pos as int), p@),
{
    if p.len() > s.len() - pos {
        return false;
    }
    let mut k: usize = 0;
    while k < p.len()
        invariant
            pos + p@.len() <= s@.len(),
            s@.len() == s.len(),
            p@.len() == p.len(),
            k <= p@.len(),
            forall|t: int| 0 <= t < k ==> s@[pos + t] == p@[t],
        decreases p.len() - k,
    {
        if s[pos + k] != p[k] {
            assert(s@.skip(pos as int).take(p@.len() as int)[k as int] != p@[k as int]);
            return false;
        }
        k = k + 1;
    }
    assert(s@.skip(pos as int).take(p@.len() as int) =~= p@);
    true
}

/// `s` with every leading repetition of `p` removed.
fn strip_prefixes_exec(s: &[char], p: &[char]) -> (r: Vec<char>)
    ensures
        r@ == strip_prefixes(s@, p@),
{
    let mut pos: usize = 0;
    assert(s@.skip(0) =~= s@);
    if p.len() > 0 {
        while starts_with_at(s, pos, p)
            invariant
                pos <= s@.len(),
                p@.len() > 0,
                strip_prefixes(s@, p@) == strip_prefixes(s@.skip(pos as int), p@),
            decreases s.len() - pos,
        {
            assert(s@.skip(pos as int).skip(p@.len() as int) =~= s@.skip(pos + p@.len()));
            pos = pos + p.len();
        }
    }
    let rest = &s[pos..s.len()];
    assert(rest@ =~= s@.skip(pos as int));
    let mut out: Vec<char> = Vec::new();
    let mut i: usize = 0;
    while i < rest.len()
        invariant
            i <= rest@.len(),
            out@ == rest@.take(i as int),
        decreases rest.len() - i,
    {
        out.push(rest[i]);
        i = i + 1;
        assert(out@ =~= rest@.take(i as int));
    }
    assert(rest@.take(rest@.len() as int) =~= rest@);
    out
}

/// Where a request goes.
pub enum Route {
    /// A CORS preflight (`OPTIONS`, any path).
    Preflight,
    /// `GET /api/health`.
    Health,
    /// `POST /api/rooms/create`.
    CreateRoom,
    /// `GET /api/rooms/<id>`, with the id.
    GetRoom(String),
    /// Anything else.
    NotFound,
}

/// The route `r` is the one for `method` and `path`.
pub open spec fn route_matches(r: Route, method: Seq<char>, path: Seq<char>) -> bool {
    if method == "OPTIONS"@ {
        r is Preflight
    } else if method == "GET"@ && path == "/api/health"@ {
        r is Health
    } else if method == "POST"@ && path == "/api/rooms/create"@ {
        r is CreateRoom
    } else if method == "GET"@ && starts_with(path, "/api/rooms/"@) {
        r matches Route::GetRoom(id) && id@ == strip_prefixes(path, "/api/rooms/"@)
    } else {
        r is NotFound
    }
}

/// The route for a request's method and path.
pub fn route(method: &str, path: &str) -> (r: Route)
    ensures
        route_matches(r, method@, path@),
{
    let m = chars_of(method);
    let p = chars_of(path);
    let get = chars_of("GET");
    if same_chars(&m, &chars_of("OPTIONS")) {
        Route::Preflight
    } else if same_chars(&m, &get) && same_chars(&p, &chars_of("/api/health")) {
        Route::Health
    } else if same_chars(&m, &chars_of("POST")) && same_chars(&p, &chars_of("/api/rooms/create")) {
        Route::CreateRoom
    } else {
        let prefix = chars_of("/api/rooms/");
        assert(p@.skip(0) =~= p@);
        if same_chars(&m, &get) && starts_with_at(&p, 0, &prefix) {
            let id = strip_prefixes_exec(&p, &prefix);
            Route::GetRoom(string_from_chars(&id))
        } else {
            Route::NotFound
        }
    }
}

/// A response: status code, reason phrase and JSON body.
pub struct Response {
    pub status: u16,
    pub reason: String,
    pub body: String,
}

/// A response as its three parts.
pub struct ResponseView {
    pub status: u16,
    pub reason: Seq<char>,
    pub body: Seq<char>,
}

impl View for Response {
    type V = ResponseView;

    open spec fn view(&self) -> ResponseView {
        ResponseView { status: self.status, reason: self.reason@, body: self.body@ }
    }
}

/// The response with these parts.
pub open spec fn reply(status: u16, reason: Seq<char>, body: Seq<char>) -> ResponseView {
    ResponseView { status, reason, body }
}

/// The room a create request with body `body` makes under `id`: the
/// body's `roomName` and `hostName`, or "Music Room" and "Host".
pub open spec fn named_room(body: Seq<char>, id: Seq<char>) -> RoomView {
    RoomView {
        room_id: id,
        room_name: match string_value(body, "roomName"@) {
            Some(v) => v,
            None => "Music Room"@,
        },
        host_name: match string_value(body, "hostName"@) {
            Some(v) => v,
            None => "Host"@,
        },
    }
}

/// The success response carrying `room`.
pub open spec fn room_reply(room: RoomView) -> ResponseView {
    reply(200, "OK"@, room_json_text(room.room_id, room.room_name, room.host_name))
}

/// The API's answer to `req` with registry `rooms`, and the registry after
/// it; `id` is the id a created room gets.
pub open spec fn answer(req: RequestView, rooms: Map<Seq<char>, RoomView>, id: Seq<char>) -> (
    ResponseView,
    Map<Seq<char>, RoomView>,
) {
    let m = req.method;
    let p = req.path;
    if m == "OPTIONS"@ {
        (reply(204, "No Content"@, Seq::empty()), rooms)
    } else if m == "GET"@ && p == "/api/health"@ {
        (reply(200, "OK"@, "{\"status\":\"ok\"}"@), rooms)
    } else if m == "POST"@ && p == "/api/rooms/create"@ {
        let room = named_room(req.body, id);
        (room_reply(room), rooms.insert(id, room))
    } else if m == "GET"@ && starts_with(p, "/api/rooms/"@) {
        let key = strip_prefixes(p, "/api/rooms/"@);
        if rooms.contains_key(key) {
            (room_reply(rooms[key]), rooms)
        } else {
            (reply(404, "Not Found"@, "{\"error\":\"room not found\"}"@), rooms)
        }
    } else {
        (reply(404, "Not Found"@, "{\"error\":\"route not found\"}"@), rooms)
    }
}

fn text(s: &str) -> (r: String)
    ensures
        r@ == s@,
{
    string_from_chars(&chars_of(s))
}

/// Answers `request`; a room it creates gets the id `room_id`.
pub fn handle_request_with_id(request: &Request, rooms: &mut RoomRegistry, room_id: String) -> (r:
    Response)
    ensures
        (r@, final(rooms)@) == answer(request@, old(rooms)@, room_id@),
{
    match route(request.method.as_str(), request.path.as_str()) {
        Route::Preflight => Response { status: 204, reason: text("No Content"), body: String::new() },
        Route::Health => Response { status: 200, reason: text("OK"), body: text("{\"status\":\"ok\"}") },
        Route::CreateRoom => {
            let room = room_from_body(request.body.as_str(), room_id);
            let body = room_json(&room);
            rooms.insert(room);
            Response { status: 200, reason: text("OK"), body }
        },
        Route::GetRoom(id) => match rooms.get(id.as_str()) {
            Some(room) => Response { status: 200, reason: text("OK"), body: room_json(room) },
            None => Response {
                status: 404,
                reason: text("Not Found"),
                body: text("{\"error\":\"room not found\"}"),
            },
        },
        Route::NotFound => Response {
            status: 404,
            reason: text("Not Found"),
            body: text("{\"error\":\"route not found\"}"),
        },
    }
}

/// Answers `request`; a room it creates gets a fresh id from the wall
/// clock, whatever time that reads.
pub fn handle_request(request: &Request, rooms: &mut RoomRegistry) -> (r: Response)
    ensures
        exists|millis: u128|
            (r@, final(rooms)@) == #[trigger] answer(request@, old(rooms)@, room_id_of(millis as nat)),
{
    let creates = match route(request.method.as_str(), request.path.as_str()) {
        Route::CreateRoom => true,
        _ => false,
    };
    let room_id = if creates {
        generate_room_id()
    } else {
        String::new()
    };
    let ghost millis: u128 = if creates {
        choose|millis: u128| room_id@ == room_id_of(millis as nat)
    } else {
        0
    };
    let r = handle_request_with_id(request, rooms, room_id);
    assert(answer(request@, old(rooms)@, room_id_of(millis as nat)) == answer(request@, old(rooms)@, room_id@));
    r
}

proof fn lemma_strip_after_prefix(id: Seq<char>)
    requires
        !starts_with(id, "/api/rooms/"@),
    ensures
        starts_with("/api/rooms/"@ + id, "/api/rooms/"@),
        strip_prefixes("/api/rooms/"@ + id, "/api/rooms/"@) == id,
{
    reveal_strlit("/api/rooms/");
    let p = "/api/rooms/"@;
    let s = p + id;
    assert(s.take(p.len() as int) =~= p);
    assert(s.skip(p.len() as int) =~= id);
    assert(strip_prefixes(id, p) == id);
    assert(strip_prefixes(s, p) == strip_prefixes(s.skip(p.len() as int), p));
}

/// A room created through the API is found afterwards: once
/// `POST /api/rooms/create` has stored a room under `id`, `GET
/// /api/rooms/<id>` answers with the same response the creation gave, and
/// leaves the registry as it is. (An id that itself starts with
/// `/api/rooms/` would lose that prefix to the path's trimming.)
pub proof fn lemma_created_room_is_found(
    body: Seq<char>,
    rooms: Map<Seq<char>, RoomView>,
    id: Seq<char>,
    later_id: Seq<char>,
)
    requires
        !starts_with(id, "/api/rooms/"@),
    ensures
        ({
            let create = RequestView { method: "POST"@, path: "/api/rooms/create"@, body };
            let lookup = RequestView { method: "GET"@, path: "/api/rooms/"@ + id, body: Seq::empty() };
            let (created, after) = answer(create, rooms, id);
            let (found, after_lookup) = answer(lookup, after, later_id);
            &&& created.status == 200
            &&& after.contains_key(id)
            &&& found == created
            &&& after_lookup == after
        }),
{
    reveal_strlit("POST");
    reveal_strlit("OPTIONS");
    reveal_strlit("GET");
    reveal_strlit("/api/health");
    reveal_strlit("/api/rooms/");
    lemma_strip_after_prefix(id);
    let path = "/api/rooms/"@ + id;
    // The two methods and the two paths involved differ from the others
    // the routing compares them with.
    assert(path[5] != "/api/health"@[5]);
    assert("GET"@[0] != "OPTIONS"@[0]);
    assert("POST"@[0] != "OPTIONS"@[0]);
    assert("POST"@[0] != "GET"@[0]);
}

proof fn lemma_room_id_not_prefixed(millis: nat)
    ensures
        !starts_with(room_id_of(millis), "/api/rooms/"@),
{
    reveal_strlit("/api/rooms/");
    let b = base36(millis % (ROOM_ID_PERIOD as nat));
    lemma_base36_numeral(millis % (ROOM_ID_PERIOD as nat));
    let padded = pad6(b);
    let id = room_id_of(millis);
    assert(padded.len() >= 6);
    let c = padded[0];
    assert(c == '0' || is_base36_digit(c)) by {
        if b.len() < 6 {
            assert(padded[0] == '0');
        } else {
            assert(padded[0] == b[0]);
        }
    }
    assert(id[0] == ascii_upper(c));
    assert(id[0] != '/');
    assert(("/api/rooms/"@)[0] == '/');
    if starts_with(id, "/api/rooms/"@) {
        assert(id.take(11)[0] == id[0]);
    }
}

/// A room created through the API under any id the clock gives is found
/// afterwards: `GET /api/rooms/<id>` answers with the response of the
/// creation and leaves the registry as it is.
pub proof fn lemma_generated_room_is_found(
    body: Seq<char>,
    rooms: Map<Seq<char>, RoomView>,
    millis: nat,
    later_id: Seq<char>,
)
    ensures
        ({
            let id = room_id_of(millis);
            let create = RequestView { method: "POST"@, path: "/api/rooms/create"@, body };
            let lookup = RequestView { method: "GET"@, path: "/api/rooms/"@ + id, body: Seq::empty() };
            let (created, after) = answer(create, rooms, id);
            let (found, after_lookup) = answer(lookup, after, later_id);
            &&& created.status == 200
            &&& after.contains_key(id)
            &&& found == created
            &&& after_lookup == after
        }),
{
    lemma_room_id_not_prefixed(millis);
    lemma_created_room_is_found(body, rooms, room_id_of(millis), later_id);
}

/// A lookup of an id no room is stored under is refused with 404 "room
/// not found", and changes nothing.
pub proof fn lemma_unknown_room_not_found(
    path: Seq<char>,
    rooms: Map<Seq<char>, RoomView>,
    id: Seq<char>,
)
    requires
        starts_with(path, "/api/rooms/"@),
        path != "/api/health"@,
        !rooms.contains_key(strip_prefixes(path, "/api/rooms/"@)),
    ensures
        answer(RequestView { method: "GET"@, path, body: Seq::empty() }, rooms, id) == (
        reply(404, "Not Found"@, "{\"error\":\"room not found\"}"@),
        rooms,
    ),
{
    reveal_strlit("GET");
    reveal_strlit("OPTIONS");
    reveal_strlit("POST");
    assert("GET"@[0] != "OPTIONS"@[0]);
    assert("GET"@[0] != "POST"@[0]);
}

/// Only a room creation changes the registry: every other request,
/// whatever it asks, leaves the rooms as they were.
pub proof fn lemma_only_creation_changes_rooms(
    req: RequestView,
    rooms: Map<Seq<char>, RoomView>,
    id: Seq<char>,
)
    requires
        !(req.method == "POST"@ && req.path == "/api/rooms/create"@),
    ensures
        answer(req, rooms, id).1 == rooms,
{
    reveal_strlit("POST");
    reveal_strlit("OPTIONS");
    reveal_strlit("GET");
}

/// A request that matches no route is refused with 404 "route not found"
/// and changes nothing.
pub proof fn lemma_unknown_route_refused(
    req: RequestView,
    rooms: Map<Seq<char>, RoomView>,
    id: Seq<char>,
)
    requires
        req.method != "OPTIONS"@,
        req.method != "GET"@,
        req.method != "POST"@,
    ensures
        answer(req, rooms, id) == (
        reply(404, "Not Found"@, "{\"error\":\"route not found\"}"@),
        rooms,
    ),
{
}

/// The fixed routes answer as the API documents, whatever the path, body,
/// registry and id: a preflight (`OPTIONS`, any path) gets 204 with an
/// empty body; `GET /api/health` gets 200 `{"status":"ok"}`; `POST
/// /api/rooms/create` gets 200 with the JSON of a room stored under the id,
/// named by the body's `roomName` and `hostName` ("Music Room" and "Host"
/// when absent), and every other room kept as it was.
pub proof fn lemma_route_table(path: Seq<char>, body: Seq<char>, rooms: Map<Seq<char>, RoomView>, id: Seq<char>)
    ensures
        answer(RequestView { method: "OPTIONS"@, path, body }, rooms, id) == (
        reply(204, "No Content"@, Seq::empty()),
        rooms,
    ),
        answer(RequestView { method: "GET"@, path: "/api/health"@, body }, rooms, id) == (
        reply(200, "OK"@, "{\"status\":\"ok\"}"@),
        rooms,
    ),
        ({
            let name = match string_value(body, "roomName"@) {
                Some(v) => v,
                None => "Music Room"@,
            };
            let host = match string_value(body, "hostName"@) {
                Some(v) => v,
                None => "Host"@,
            };
            let (resp, after) = answer(
                RequestView { method: "POST"@, path: "/api/rooms/create"@, body },
                rooms,
                id,
            );
            &&& resp == reply(200, "OK"@, room_json_text(id, name, host))
            &&& after.contains_key(id)
            &&& after[id] == (RoomView { room_id: id, room_name: name, host_name: host })
            &&& forall|k: Seq<char>| k != id ==> after.contains_key(k) == rooms.contains_key(k) && (
            rooms.contains_key(k) ==> after[k] == rooms[k])
        }),
{
    reveal_strlit("GET");
    reveal_strlit("OPTIONS");
    reveal_strlit("POST");
    assert("GET"@[0] != "OPTIONS"@[0]);
    assert("POST"@[0] != "OPTIONS"@[0]);
    assert("POST"@[0] != "GET"@[0]);
}

/// Trimming a (non-empty) prefix removes all its leading repetitions and
/// nothing else: what is left is a suffix of the text that no longer starts
/// with the prefix, and what was cut is a whole number of copies of it.
pub proof fn lemma_strip_prefixes_removes_all(s: Seq<char>, p: Seq<char>)
    requires
        p.len() > 0,
    ensures
        ({
            let r = strip_prefixes(s, p);
            &&& r.len() <= s.len()
            &&& s.skip(s.len() - r.len()) == r
            &&& !starts_with(r, p)
            &&& (s.len() - r.len()) % (p.len() as int) == 0
            &&& forall|i: int| 0 <= i < s.len() - r.len() ==> s[i] == p[i % (p.len() as int)]
        }),
    decreases s.len(),
{
    if starts_with(s, p) {
        let t = s.skip(p.len() as int);
        lemma_strip_prefixes_removes_all(t, p);
        let r = strip_prefixes(s, p);
        assert(r == strip_prefixes(t, p));
        assert(s.skip(s.len() - r.len()) =~= t.skip(t.len() - r.len()));
        let n = p.len() as int;
        let cut = s.len() - r.len();
        assert(cut == n + (t.len() - r.len()));
        assert(cut % n == 0) by (nonlinear_arith)
            requires
                cut == n + (t.len() - r.len()),
                (t.len() - r.len()) % n == 0,
                n > 0,
        ;
        assert forall|i: int| 0 <= i < cut implies s[i] == p[i % n] by {
            if i < n {
                assert(s[i] == s.take(n)[i]);
                assert(i % n == i) by (nonlinear_arith)
                    requires
                        0 <= i < n,
                ;
            } else {
                assert(s[i] == t[i - n]);
                assert(t[i - n] == p[(i - n) % n]);
                assert((i - n) % n == i % n) by (nonlinear_arith)
                    requires
                        n <= i,
                        n > 0,
                ;
            }
        }
    } else {
        assert(s.skip(0) =~= s);
    }
}

} // verus!
