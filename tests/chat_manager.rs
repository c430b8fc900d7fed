use chat_server::chat_manager::{ChatManager, Error, RouteDecision, NOT_FOUND_RESPONSE, ROOM_LIMIT};
use chat_server::room_data::Frame;

#[test]
fn can_create_up_to_ten_chat_rooms() {
    let owner_id = String::from("user-a");
    let mut cm = ChatManager::new();
    for idx in 0..10 {
        let _ = cm.create_new_room(format!("Room #{}", idx), owner_id.clone());
    }

    assert_eq!(10, cm.list_rooms().len())
}

#[test]
fn creating_more_than_ten_rooms_causes_error() {
    let owner_id = String::from("user-a");
    let mut cm = ChatManager::new();
    for idx in 0..10 {
        let _ = cm.create_new_room(format!("Room #{}", idx), owner_id.clone());
    }
    let r = cm.create_new_room(format!("unable to create!"), owner_id.clone());

    assert!(r.is_err());
    assert_eq!(Error::TooManyRooms, r.err().unwrap());
}

#[test]
fn cannot_use_room_name_twice() {
    let owner_id = String::from("user-a");
    let mut cm = ChatManager::new();
    let one = cm.create_new_room(String::from("Room"), owner_id.clone());
    let two = cm.create_new_room(String::from("Room"), owner_id.clone());

    assert!(one.is_ok());
    assert!(two.is_err());
    assert_eq!(Error::NameTaken, two.err().unwrap());
}

#[test]
fn unused_room_name_is_available() {
    let owner_id = String::from("user-a");
    let mut cm = ChatManager::new();
    let _ = cm.create_new_room(String::from("Room 1"), owner_id.clone());
    let _ = cm.create_new_room(String::from("Room 2"), owner_id.clone());

    assert!(cm.name_is_available(&String::from("Room 3")));
}

#[test]
fn room_is_deleted_by_owner() {
    let owner_id = String::from("user-a");
    let mut cm = ChatManager::new();
    let name = String::from("Test Room");
    let room = cm.create_new_room(name.clone(), owner_id.clone()).unwrap();
    assert!(cm.list_rooms().contains(&name));
    let res = cm.delete_room(room.id, owner_id);
    assert!(res.is_ok());
    assert!(!cm.list_rooms().contains(&name));
}

#[test]
fn room_cannot_be_deleted_by_non_owner() {
    let owner_id = String::from("user-a");
    let non_owner = String::from("user-b");
    let mut cm = ChatManager::new();
    let name = String::from("Test Room");
    let room = cm.create_new_room(name.clone(), owner_id.clone()).unwrap();
    assert!(cm.list_rooms().contains(&name));
    let res = cm.delete_room(room.id, non_owner);
    assert!(res.is_err());
    assert_eq!(Error::NotOwner, res.err().unwrap());
    assert!(cm.list_rooms().contains(&name));
}

#[test]
fn cannot_delete_non_existant_room() {
    let owner_id = String::from("user-a");
    let mut cm = ChatManager::new();
    let name = String::from("Test Room");
    let _room = cm.create_new_room(name.clone(), owner_id.clone());
    assert!(cm.list_rooms().contains(&name));
    let res = cm.delete_room(String::from("Test Room 2"), owner_id.clone());
    assert!(res.is_err());
    assert_eq!(Error::RoomNotFound, res.err().unwrap());
}

#[test]
fn create_new_room_returns_name_and_id() {
    let owner_id = String::from("user-a");
    let mut cm = ChatManager::new();
    let name = String::from("test room");
    let result = cm.create_new_room(name.clone(), owner_id.clone());
    assert!(result.is_ok());
    let data = result.unwrap();
    assert_eq!(name, data.name);
    assert!(data.id.len() > 0);
}

#[test]
fn created_room_gets_hyphenated_id_and_empty_path() {
    let mut cm = ChatManager::new();
    let a = cm.create_new_room(String::from("a"), String::from("u")).unwrap();
    let b = cm.create_new_room(String::from("b"), String::from("u")).unwrap();
    assert_eq!(36, a.id.len());
    assert_eq!(Some(8), a.id.find('-'));
    assert_ne!(a.id, b.id);
    assert_eq!("", a.path);
}

#[test]
fn eleventh_room_is_refused_and_registry_stays_at_limit() {
    let mut cm = ChatManager::new();
    for idx in 0..ROOM_LIMIT {
        assert!(cm.create_new_room(format!("r{}", idx), String::from("o")).is_ok());
    }
    for idx in 0..3 {
        let r = cm.create_new_room(format!("extra{}", idx), String::from("o"));
        assert_eq!(Some(Error::TooManyRooms), r.err());
    }
    assert_eq!(ROOM_LIMIT, cm.list_rooms().len());
}

#[test]
fn full_registry_reports_capacity_before_name_clash() {
    let mut cm = ChatManager::new();
    for idx in 0..ROOM_LIMIT {
        let _ = cm.create_new_room(format!("r{}", idx), String::from("o"));
    }
    let r = cm.create_new_room(String::from("r0"), String::from("o"));
    assert_eq!(Some(Error::TooManyRooms), r.err());
}

#[test]
fn case_variant_of_name_is_taken() {
    let mut cm = ChatManager::new();
    assert!(cm.create_new_room(String::from("Lobby"), String::from("o")).is_ok());
    for variant in ["lobby", "LOBBY", "lObBy", "Lobby"] {
        let r = cm.create_new_room(String::from(variant), String::from("o"));
        assert_eq!(Some(Error::NameTaken), r.err());
        assert!(!cm.name_is_available(&String::from(variant)));
    }
    assert!(cm.name_is_available(&String::from("Lobby 2")));
    assert_eq!(1, cm.list_rooms().len());
}

#[test]
fn second_delete_of_same_id_finds_no_room() {
    let mut cm = ChatManager::new();
    let room = cm.create_new_room(String::from("x"), String::from("owner")).unwrap();
    assert_eq!(Ok(()), cm.delete_room(room.id.clone(), String::from("owner")));
    assert_eq!(Err(Error::RoomNotFound), cm.delete_room(room.id.clone(), String::from("owner")));
}

#[test]
fn deleted_name_can_be_reused() {
    let mut cm = ChatManager::new();
    let room = cm.create_new_room(String::from("Reuse"), String::from("o")).unwrap();
    assert!(cm.delete_room(room.id, String::from("o")).is_ok());
    assert!(cm.name_is_available(&String::from("reuse")));
    assert!(cm.create_new_room(String::from("REUSE"), String::from("o")).is_ok());
}

#[test]
fn office_scenario() {
    let mut cm = ChatManager::new();
    let r1 = cm.create_new_room(String::from("Office"), String::from("u1")).unwrap();
    assert!(!cm.name_is_available(&String::from("OFFICE")));
    assert!(cm.name_is_available(&String::from("Sales")));
    assert_eq!(Err(Error::NotOwner), cm.delete_room(r1.id.clone(), String::from("u2")));
    assert_eq!(Ok(()), cm.delete_room(r1.id.clone(), String::from("u1")));
    assert!(!cm.list_rooms().contains(&String::from("Office")));
}

#[test]
fn route_to_missing_room_is_not_found() {
    let cm = ChatManager::new();
    let req = b"GET /room/Office HTTP/1.1\r\nHost: 127.0.0.1:8080\r\n";
    assert!(matches!(cm.route(req), RouteDecision::NotFound));
    assert_eq!("HTTP/1.1 404 NOT FOUND", NOT_FOUND_RESPONSE);
}

#[test]
fn route_match_is_exact_in_case() {
    let mut cm = ChatManager::new();
    let _ = cm.create_new_room(String::from("office"), String::from("u1"));
    let req = b"GET /room/Office HTTP/1.1\r\n";
    assert!(matches!(cm.route(req), RouteDecision::NotFound));
}

#[test]
fn route_forwards_to_room_id() {
    let mut cm = ChatManager::new();
    let _ = cm.create_new_room(String::from("Sales"), String::from("u1"));
    let office = cm.create_new_room(String::from("Office"), String::from("u1")).unwrap();
    match cm.route(b"GET /room/Office HTTP/1.1\r\n") {
        RouteDecision::Forward(id) => assert_eq!(office.id, id),
        other => panic!("unexpected {:?}", other),
    }
}

#[test]
fn route_ignores_other_requests() {
    let mut cm = ChatManager::new();
    let _ = cm.create_new_room(String::from("Office"), String::from("u1"));
    assert!(matches!(cm.route(b"GET /rooms HTTP/1.1\r\n"), RouteDecision::Ignore));
    assert!(matches!(cm.route(b"POST /room/Office HTTP/1.1\r\n"), RouteDecision::Ignore));
    assert!(matches!(cm.route(b"GET /room/Office"), RouteDecision::Ignore));
    assert!(matches!(cm.route(b""), RouteDecision::Ignore));
}

#[test]
fn router_starts_only_once() {
    let mut cm = ChatManager::new();
    assert!(cm.try_start());
    assert!(!cm.try_start());
    assert!(!cm.try_start());
}

#[test]
fn check_name_splits_on_commas() {
    let mut cm = ChatManager::new();
    let _ = cm.create_new_room(String::from("Office"), String::from("u1"));
    let r = cm.check_name("a,office,b");
    assert_eq!(3, r.len());
    assert_eq!("a", r[0].name);
    assert!(r[0].available);
    assert_eq!("office", r[1].name);
    assert!(!r[1].available);
    assert_eq!("b", r[2].name);
    assert!(r[2].available);
}

#[test]
fn error_texts() {
    assert_eq!("Too many rooms running.", Error::TooManyRooms.to_string());
    assert_eq!("Room doesn't exist.", Error::RoomNotFound.to_string());
    assert_eq!("Name is already in use.", Error::NameTaken.to_string());
    assert_eq!("Not authorized to delete room.", Error::NotOwner.to_string());
}

#[test]
fn join_and_receive_through_registry() {
    let mut cm = ChatManager::new();
    let room = cm.create_new_room(String::from("Office"), String::from("u1")).unwrap();
    assert_eq!(Some(vec![String::from("A")]), cm.join_room(&room.id, String::from("A")));
    assert_eq!(
        Some(vec![String::from("A"), String::from("B")]),
        cm.join_room(&room.id, String::from("B"))
    );
    let d = cm
        .receive_frame(&room.id, Frame::Text(String::from("{}")), Some(String::from("A")))
        .unwrap();
    assert_eq!(vec![String::from("B")], d.recipients);
    assert!(!d.stop);
    assert!(cm.join_room(&String::from("nope"), String::from("C")).is_none());
    assert!(cm.receive_frame(&String::from("nope"), Frame::Close(None), None).is_none());
}

#[test]
fn remove_room_hands_back_its_state() {
    let mut cm = ChatManager::new();
    let room = cm.create_new_room(String::from("Office"), String::from("u1")).unwrap();
    let _ = cm.join_room(&room.id, String::from("A"));
    let data = cm.remove_room(&room.id, &String::from("u1")).unwrap();
    assert_eq!("Office", data.name());
    assert_eq!(vec![String::from("A")], data.users());
    assert_eq!(0, cm.list_rooms().len());
}

#[test]
fn room_path_prefixes_name() {
    assert_eq!("room/Office", chat_server::chat_data::room_path(&String::from("Office")));
}

#[test]
fn check_name_keeps_empty_pieces() {
    let cm = ChatManager::new();
    let r = cm.check_name("");
    assert_eq!(1, r.len());
    assert_eq!("", r[0].name);
    let r = cm.check_name("a,,b,");
    let names: Vec<&str> = r.iter().map(|x| x.name.as_str()).collect();
    assert_eq!(vec!["a", "", "b", ""], names);
}
