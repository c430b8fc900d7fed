use chat_server::name_extractor::{extract_name, get_room_name};

#[test]
fn can_parse_room_name() {
    let s = String::from_utf8_lossy(b"GET /room/hello HTTP/1.1\nHost: 127.0.0.1:8080");
    let name = extract_name(s.as_bytes());
    assert_eq!("hello", name);
}

#[test]
fn room_name_is_trimmed() {
    assert_eq!(Some(String::from("hello")), get_room_name(b"GET /room/ hello \t HTTP/1.1\r\n"));
}

#[test]
fn room_name_keeps_inner_spaces() {
    assert_eq!(Some(String::from("The Office")), get_room_name(b"GET /room/The Office HTTP/1.1\r\n"));
}

#[test]
fn room_name_decodes_invalid_bytes_lossily() {
    let r = get_room_name(b"GET /room/a\xffb HTTP/1.1").unwrap();
    assert_eq!("a\u{FFFD}b", r);
}

#[test]
fn room_name_is_last_segment_before_http() {
    assert_eq!(Some(String::from("inner")), get_room_name(b"GET /room/outer/inner HTTP/1.1"));
}

#[test]
fn request_without_prefix_or_marker_has_no_room() {
    assert_eq!(None, get_room_name(b"GET /other/hello HTTP/1.1"));
    assert_eq!(None, get_room_name(b"GET /room/hello"));
    assert_eq!(None, get_room_name(b"GET /room"));
    assert_eq!(None, get_room_name(b""));
}

#[test]
fn empty_room_name_is_routed_as_empty() {
    assert_eq!(Some(String::new()), get_room_name(b"GET /room/ HTTP/1.1"));
}
