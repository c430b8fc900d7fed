use chat_server::chat::JsonExtractor;
use chat_server::chat_manager::ChatManager;
use chat_server::room_data::Extractor;

#[test]
fn extractor_starts_with_no_current_room() {
    let extractor = JsonExtractor::new();

    assert!(extractor.current_room.is_none())
}

#[test]
fn passing_name_sets_current_room() {
    let mut extractor = JsonExtractor::new();
    extractor.pass_name(String::from("first-room"));

    assert!(extractor.current_room.is_some())
}

#[test]
fn not_setting_name_does_not_add_to_rooms() {
    let mut extractor = JsonExtractor::new();
    let users = vec![String::from("Jim"), String::from("Dwight"), String::from("Andy")];
    extractor.handle_users(&users);

    assert_eq!(0, extractor.rooms.rooms.len())
}

#[test]
fn setting_name_adds_users_to_list() {
    let mut extractor = JsonExtractor::new();
    let users = vec![String::from("Jim"), String::from("Dwight"), String::from("Andy")];
    extractor.pass_name(String::from("The Office"));
    extractor.handle_users(&users);

    assert_eq!(1, extractor.rooms.rooms.len());
    let the_office = extractor.rooms.rooms.pop().unwrap();
    assert_eq!(3, the_office.users.len());
}

#[test]
fn room_data_lists_every_room_with_members() {
    let mut cm = ChatManager::new();
    let a = cm.create_new_room(String::from("A"), String::from("o")).unwrap();
    let _b = cm.create_new_room(String::from("B"), String::from("o")).unwrap();
    let _ = cm.join_room(&a.id, String::from("Jim"));
    let _ = cm.join_room(&a.id, String::from("Pam"));
    let mut extractor = JsonExtractor::new();
    cm.get_room_data(&mut extractor);
    assert_eq!(2, extractor.rooms.rooms.len());
    assert_eq!("A", extractor.rooms.rooms[0].name);
    assert_eq!(2, extractor.rooms.rooms[0].users.len());
    assert_eq!("Jim", extractor.rooms.rooms[0].users[0].name);
    assert_eq!("Pam", extractor.rooms.rooms[0].users[1].name);
    assert_eq!("B", extractor.rooms.rooms[1].name);
    assert_eq!(0, extractor.rooms.rooms[1].users.len());
    assert!(extractor.current_room.is_none());
}
