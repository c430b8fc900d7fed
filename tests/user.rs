use chat_server::chat_user;
use chat_server::db_command::{CreateUser, DbServiceError, GetUser};
use chat_server::user::{IUser, NewUserForm, NullUser, User};
use uuid::Uuid;

#[test]
fn new_user_has_no_id() {
    let user = User::new(String::from("jsmith"));
    let id = user.user_id();
    assert!(id.is_none());
}

#[test]
fn can_set_user_id() {
    let mut user = User::new(String::from("dschrute"));
    user.set_user_id(Uuid::new_v4().to_string());
    assert!(user.user_id().is_some());
}

#[test]
fn users_with_same_id_and_name_are_equal() {
    let id = String::from("1234asdf");
    let mut user1 = User::new(String::from("mscott"));
    user1.set_user_id(id.clone());
    let mut user2 = User::new(String::from("mscott"));
    user2.set_user_id(id.clone());
    assert_eq!(user1, user2);
}

#[test]
fn users_without_same_id_and_name_are_not_equal() {
    let id = String::from("1234asdf");
    let mut user1 = User::new(String::from("mscott"));
    user1.set_user_id(id.clone());
    let mut user2 = User::new(String::from("mpalmer"));
    user2.set_user_id(id.clone());
    assert_ne!(user1, user2);
}

#[test]
fn can_add_favorites() {
    let mut user = User::new(String::from("kmalone"));
    assert_eq!(0, user.total_favorites());
    user.add_favorites(vec![
        String::from("chili"),
        String::from("gambling"),
        String::from("foot-bath"),
    ]);
    assert_eq!(3, user.total_favorites());
}

#[test]
fn favorites_should_not_have_duplicates() {
    let mut user = User::new(String::from("kmalone"));
    assert_eq!(0, user.total_favorites());
    user.add_favorites(vec![
        String::from("chili"),
        String::from("gambling"),
        String::from("foot-bath"),
        String::from("chili"),
    ]);
    assert_eq!(3, user.total_favorites());
}

#[test]
fn user_names_compare_up_to_case() {
    let mut a = User::new(String::from("MScott"));
    a.set_user_id(String::from("1"));
    let mut b = User::new(String::from("mscott"));
    b.set_user_id(String::from("1"));
    assert_eq!(a, b);
    let c = User::new(String::from("mscott"));
    assert_ne!(a, c);
}

#[test]
fn null_user_ignores_changes() {
    let mut n = NullUser::new();
    n.set_user_id(String::from("x"));
    n.set_user_name(String::from("y"));
    n.add_favorites(vec![String::from("z")]);
    assert!(n.user_id().is_none());
    assert_eq!("", n.user_name());
    assert_eq!(0, n.total_favorites());
    let u = n.to_user();
    assert!(u.user_id.is_none());
    assert_eq!("", u.user_name);
}

#[test]
fn user_from_form_and_setters() {
    let form = NewUserForm { user_name: String::from("pbeesly"), password: String::from("pw") };
    let mut u = User::from_form(form);
    assert!(u.user_id().is_none());
    u.set_user_name(String::from("phalpert"));
    assert_eq!("phalpert", u.user_name());
    u.add_favorites(vec![String::from("art")]);
    assert_eq!(vec![String::from("art")], *u.favorites());
    let copy = u.to_user();
    assert_eq!("phalpert", copy.user_name);
}

#[test]
fn commands_hold_their_subject() {
    let c = CreateUser::new(User::new(String::from("a")));
    assert_eq!("a", c.user.user_name);
    let g = GetUser::new(String::from("id-1"));
    assert_eq!("id-1", g.user_id);
    assert_eq!(
        "File was of zero length, unable to generate",
        DbServiceError::EmptyFile.to_string()
    );
}

#[test]
fn chat_member_keeps_name() {
    let m = chat_user::User::new(String::from("Jim"));
    assert_eq!("Jim", m.name());
}
