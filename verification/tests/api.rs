use echosync::api::handler::{handle_request, handle_request_with_id, route, Route};
use echosync::api::http::{
    find_header_end, format_response, header_content_length, parse_request, request_complete,
    request_text,
};
use echosync::api::json::{json_escape, json_string_value};
use echosync::api::registry::RoomRegistry;
use echosync::api::room::{
    generate_room_id, room_from_body, room_id_from_millis, room_json, to_base36, Room,
};

fn room(id: &str, name: &str, host: &str) -> Room {
    Room { room_id: id.to_string(), room_name: name.to_string(), host_name: host.to_string() }
}

#[test]
fn header_end_is_the_first_blank_line() {
    assert_eq!(find_header_end(b"GET / HTTP/1.1\r\nHost: x\r\n\r\nbody\r\n\r\n"), Some(23));
    assert_eq!(find_header_end(b"\r\n\r\n"), Some(0));
    assert_eq!(find_header_end(b"GET / HTTP/1.1\r\n\r"), None);
    assert_eq!(find_header_end(b""), None);
}

#[test]
fn content_length_is_read_case_insensitively_and_trimmed() {
    let head: Vec<char> = "POST /x HTTP/1.1\r\ncontent-LENGTH:  12 \r\nHost: a".chars().collect();
    assert_eq!(header_content_length(&head), Some(12));
    let head: Vec<char> = "POST /x HTTP/1.1\r\nHost: a".chars().collect();
    assert_eq!(header_content_length(&head), None);
    let head: Vec<char> = "Content-Length: abc\r\nContent-Length: +7".chars().collect();
    assert_eq!(header_content_length(&head), Some(7));
    let head: Vec<char> = "Content-Length: 99999999999999999999999".chars().collect();
    assert_eq!(header_content_length(&head), None);
}

#[test]
fn request_is_complete_once_the_announced_body_has_arrived() {
    assert!(!request_complete(b"POST /api/rooms/create HTTP/1.1\r\nContent-Length: 5\r\n"));
    assert!(!request_complete(b"POST /api/rooms/create HTTP/1.1\r\nContent-Length: 5\r\n\r\nabc"));
    assert!(request_complete(b"POST /api/rooms/create HTTP/1.1\r\nContent-Length: 5\r\n\r\nabcde"));
    assert!(request_complete(b"GET /api/health HTTP/1.1\r\n\r\n"));
}

#[test]
fn request_text_decodes_utf8_and_replaces_invalid_bytes() {
    assert_eq!(request_text("héllo".as_bytes()), "héllo");
    assert_eq!(request_text(&[b'a', 0xff, b'b']), "a\u{FFFD}b");
}

#[test]
fn request_line_and_body_are_picked_apart() {
    let req = parse_request(
        "POST /api/rooms/create HTTP/1.1\r\nContent-Length: 2\r\n\r\n{}\r\n\r\ntrailing",
    );
    assert_eq!(req.method, "POST");
    assert_eq!(req.path, "/api/rooms/create");
    assert_eq!(req.body, "{}");

    let req = parse_request("   GET\t  /api/health  \n\nbody");
    assert_eq!(req.method, "GET");
    assert_eq!(req.path, "/api/health");
    assert_eq!(req.body, "");

    let req = parse_request("GET\r\n\r\nabc");
    assert_eq!(req.method, "GET");
    assert_eq!(req.path, "");
    assert_eq!(req.body, "abc");
}

#[test]
fn routes_follow_method_and_path() {
    assert!(matches!(route("OPTIONS", "/anything"), Route::Preflight));
    assert!(matches!(route("GET", "/api/health"), Route::Health));
    assert!(matches!(route("POST", "/api/rooms/create"), Route::CreateRoom));
    match route("GET", "/api/rooms/ABC123") {
        Route::GetRoom(id) => assert_eq!(id, "ABC123"),
        _ => panic!("expected a room lookup"),
    }
    match route("GET", "/api/rooms//api/rooms/X") {
        Route::GetRoom(id) => assert_eq!(id, "X"),
        _ => panic!("expected a room lookup"),
    }
    assert!(matches!(route("POST", "/api/health"), Route::NotFound));
    assert!(matches!(route("DELETE", "/api/rooms/X"), Route::NotFound));
    assert!(matches!(route("GET", "/api/room"), Route::NotFound));
}

#[test]
fn response_text_has_exact_headers_and_byte_length() {
    let text = format_response(200, "OK", "{\"status\":\"ok\"}");
    assert_eq!(
        text,
        "HTTP/1.1 200 OK\r\nContent-Type: application/json\r\nContent-Length: 15\r\nAccess-Control-Allow-Origin: *\r\nAccess-Control-Allow-Methods: GET, POST, OPTIONS\r\nAccess-Control-Allow-Headers: Content-Type\r\nConnection: close\r\n\r\n{\"status\":\"ok\"}"
    );
    let text = format_response(404, "Not Found", "é");
    assert!(text.starts_with("HTTP/1.1 404 Not Found\r\n"));
    assert!(text.contains("Content-Length: 2\r\n"));
}

#[test]
fn json_escape_and_string_value_round_trip() {
    assert_eq!(json_escape("a\"b\\c\nd"), "a\\\"b\\\\c\\nd");
    let body = "{\"roomName\": \"Jazz \\\"Night\\\"\", \"hostName\":\"Ann\"}";
    assert_eq!(json_string_value(body, "roomName"), Some("Jazz \"Night\"".to_string()));
    assert_eq!(json_string_value(body, "hostName"), Some("Ann".to_string()));
    assert_eq!(json_string_value(body, "missing"), None);
    assert_eq!(json_string_value("{\"roomName\": 5}", "roomName"), None);
    assert_eq!(json_string_value("{\"roomName\": \"open", "roomName"), None);
}

#[test]
fn room_json_escapes_every_field() {
    let r = room("AB12CD", "My \"Room\"", "Bob");
    assert_eq!(
        room_json(&r),
        "{\"success\":true,\"room\":{\"roomId\":\"AB12CD\",\"roomName\":\"My \\\"Room\\\"\",\"hostName\":\"Bob\"}}"
    );
}

#[test]
fn room_from_body_uses_defaults() {
    let r = room_from_body("{}", "ID0001".to_string());
    assert_eq!(r.room_id, "ID0001");
    assert_eq!(r.room_name, "Music Room");
    assert_eq!(r.host_name, "Host");
}

#[test]
fn room_ids_are_base36_padded_and_upper_cased() {
    assert_eq!(to_base36(0), "0");
    assert_eq!(to_base36(35), "z");
    assert_eq!(to_base36(36), "10");
    assert_eq!(room_id_from_millis(0), "000000");
    assert_eq!(room_id_from_millis(35), "00000Z");
    assert_eq!(room_id_from_millis(2_176_782_336 + 36), "000010");
    let id = generate_room_id();
    assert_eq!(id.len(), 6);
    assert!(id.chars().all(|c| c.is_ascii_digit() || c.is_ascii_uppercase()));
}

#[test]
fn registry_answers_the_room_last_stored_under_an_id() {
    let mut rooms = RoomRegistry::new();
    assert!(rooms.get("A").is_none());
    rooms.insert(room("A", "one", "h"));
    rooms.insert(room("B", "two", "h"));
    rooms.insert(room("A", "three", "h"));
    assert_eq!(rooms.get("A").unwrap().room_name, "three");
    assert_eq!(rooms.get("B").unwrap().room_name, "two");
    assert!(rooms.get("C").is_none());
}

#[test]
fn created_room_is_found_by_its_id() {
    let mut rooms = RoomRegistry::new();
    let create = parse_request(
        "POST /api/rooms/create HTTP/1.1\r\n\r\n{\"roomName\":\"Jazz\",\"hostName\":\"Ann\"}",
    );
    let created = handle_request_with_id(&create, &mut rooms, "AB12CD".to_string());
    assert_eq!(created.status, 200);
    assert_eq!(created.reason, "OK");
    assert_eq!(
        created.body,
        "{\"success\":true,\"room\":{\"roomId\":\"AB12CD\",\"roomName\":\"Jazz\",\"hostName\":\"Ann\"}}"
    );
    let lookup = parse_request("GET /api/rooms/AB12CD HTTP/1.1\r\n\r\n");
    let found = handle_request_with_id(&lookup, &mut rooms, String::new());
    assert_eq!(found.status, 200);
    assert_eq!(found.body, created.body);
}

#[test]
fn other_routes_answer_as_the_server_did() {
    let mut rooms = RoomRegistry::new();
    let pre = handle_request(&parse_request("OPTIONS /api/rooms/create HTTP/1.1\r\n\r\n"), &mut rooms);
    assert_eq!((pre.status, pre.reason.as_str(), pre.body.as_str()), (204, "No Content", ""));
    let health = handle_request(&parse_request("GET /api/health HTTP/1.1\r\n\r\n"), &mut rooms);
    assert_eq!((health.status, health.body.as_str()), (200, "{\"status\":\"ok\"}"));
    let missing = handle_request(&parse_request("GET /api/rooms/NOPE HTTP/1.1\r\n\r\n"), &mut rooms);
    assert_eq!(
        (missing.status, missing.reason.as_str(), missing.body.as_str()),
        (404, "Not Found", "{\"error\":\"room not found\"}")
    );
    let unknown = handle_request(&parse_request("PUT /api/health HTTP/1.1\r\n\r\n"), &mut rooms);
    assert_eq!(
        (unknown.status, unknown.body.as_str()),
        (404, "{\"error\":\"route not found\"}")
    );
}

#[test]
fn creating_through_the_clock_gives_a_six_character_id() {
    let mut rooms = RoomRegistry::new();
    let created = handle_request(&parse_request("POST /api/rooms/create HTTP/1.1\r\n\r\n{}"), &mut rooms);
    assert_eq!(created.status, 200);
    let start = created.body.find("\"roomId\":\"").unwrap() + 10;
    let id = &created.body[start..start + 6];
    assert!(rooms.get(id).is_some());
    assert!(created.body.contains("\"roomName\":\"Music Room\",\"hostName\":\"Host\""));
}

#[test]
fn escaped_value_reads_back_unchanged() {
    let value = "say \"hi\"\\\n\ttab\rend";
    let body = format!("{{\"roomName\":\"{}\"}}", json_escape(value));
    assert_eq!(json_string_value(&body, "roomName"), Some(value.to_string()));
}

#[test]
fn a_whole_request_stays_whole_as_bytes_arrive() {
    let mut bytes = b"POST /api/rooms/create HTTP/1.1\r\nContent-Length: 2\r\n\r\n{}".to_vec();
    assert!(request_complete(&bytes));
    bytes.extend_from_slice(b"\r\n\r\nmore");
    assert!(request_complete(&bytes));
    assert!(!request_complete(b"POST / HTTP/1.1\r\nContent-Length: 3\r\n\r\n{}"));
}

#[test]
fn only_room_creation_changes_the_registry() {
    let mut rooms = RoomRegistry::new();
    for text in [
        "GET /api/health HTTP/1.1\r\n\r\n",
        "OPTIONS /api/rooms/create HTTP/1.1\r\n\r\n",
        "GET /api/rooms/ZZZZZZ HTTP/1.1\r\n\r\n",
        "DELETE /api/rooms/ZZZZZZ HTTP/1.1\r\n\r\n",
    ] {
        handle_request_with_id(&parse_request(text), &mut rooms, "ZZZZZZ".to_string());
    }
    assert!(rooms.get("ZZZZZZ").is_none());
    handle_request_with_id(
        &parse_request("POST /api/rooms/create HTTP/1.1\r\n\r\n{}"),
        &mut rooms,
        "ZZZZZZ".to_string(),
    );
    assert!(rooms.get("ZZZZZZ").is_some());
}

#[test]
fn base36_numerals_spell_their_value() {
    for value in [0u128, 1, 35, 36, 1295, 1296, 2_176_782_335, u128::MAX] {
        let text = to_base36(value);
        assert!(!text.is_empty());
        assert!(text.chars().all(|c| c.is_ascii_digit() || c.is_ascii_lowercase()));
        assert_eq!(text == "0", value == 0);
        if value > 0 {
            assert!(!text.starts_with('0'));
        }
        assert_eq!(u128::from_str_radix(&text, 36), Ok(value));
    }
    assert_eq!(to_base36(1295), "zz");
}
