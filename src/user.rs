//! Registered user accounts and their favourite rooms.
use vstd::prelude::*;
use crate::chat_manager::{lower_of, lowercase};
use crate::room_data::{insert_unique, names_of, with_member};

verus! {

/// The fields of the registration form.
#[derive(Debug, Clone)]
pub struct NewUserForm {
    pub user_name: String,
    pub password: String,
}

/// A user account as plain values.
pub struct UserView {
    pub id: Option<Seq<char>>,
    pub name: Seq<char>,
    pub favorites: Seq<Seq<char>>,
}

/// The text of an optional string.
pub open spec fn opt_text(s: Option<String>) -> Option<Seq<char>> {
    match s {
        Some(t) => Some(t@),
        None => None,
    }
}

/// The text of an optional string reference.
pub open spec fn opt_ref_text(s: Option<&String>) -> Option<Seq<char>> {
    match s {
        Some(t) => Some(t@),
        None => None,
    }
}

/// The favourites after adding each of `items` in order; one already present
/// is kept once.
pub open spec fn with_favorites(favs: Seq<Seq<char>>, items: Seq<Seq<char>>) -> Seq<Seq<char>>
    decreases items.len(),
{
    if items.len() == 0 {
        favs
    } else {
        with_member(with_favorites(favs, items.drop_last()), items.last())
    }
}

/// A user account, or the null account that stands for one not found.
pub trait IUser {
    spec fn user_view(&self) -> UserView;

    /// The null account ignores every change.
    spec fn is_null(&self) -> bool;

    fn user_id(&self) -> (r: Option<&String>)
        ensures
            opt_ref_text(r) == self.user_view().id,
    ;

    fn set_user_id(&mut self, id: String)
        ensures
            final(self).is_null() == old(self).is_null(),
            final(self).user_view() == if old(self).is_null() {
                old(self).user_view()
            } else {
                UserView { id: Some(id@), ..old(self).user_view() }
            },
    ;

    fn user_name(&self) -> (r: &String)
        ensures
            r@ == self.user_view().name,
    ;

    fn set_user_name(&mut self, name: String)
        ensures
            final(self).is_null() == old(self).is_null(),
            final(self).user_view() == if old(self).is_null() {
                old(self).user_view()
            } else {
                UserView { name: name@, ..old(self).user_view() }
            },
    ;

    fn total_favorites(&self) -> (r: usize)
        ensures
            r == if self.is_null() {
                0
            } else {
                self.user_view().favorites.len()
            },
    ;

    fn add_favorites(&mut self, favs: Vec<String>)
        ensures
            final(self).is_null() == old(self).is_null(),
            final(self).user_view() == if old(self).is_null() {
                old(self).user_view()
            } else {
                UserView {
                    favorites: with_favorites(old(self).user_view().favorites, names_of(favs@)),
                    ..old(self).user_view()
                }
            },
    ;

    fn favorites(&self) -> (r: &Vec<String>)
        ensures
            names_of(r@) == self.user_view().favorites,
    ;

    fn to_user(&self) -> (u: User)
        ensures
            u.view_of() == if self.is_null() {
                UserView { id: None, name: Seq::<char>::empty(), favorites: Seq::<Seq<char>>::empty() }
            } else {
                self.user_view()
            },
    ;
}

/// A user account.
#[derive(Debug, Clone)]
pub struct User {
    pub user_id: Option<String>,
    pub user_name: String,
    pub favorite_rooms: Vec<String>,
}

impl User {
    pub open spec fn view_of(&self) -> UserView {
        UserView {
            id: opt_text(self.user_id),
            name: self.user_name@,
            favorites: names_of(self.favorite_rooms@),
        }
    }

    /// A new account with no id and no favourites.
    pub fn new(user_name: String) -> (u: User)
        ensures
            u.view_of() == (UserView {
                id: None,
                name: user_name@,
                favorites: Seq::<Seq<char>>::empty(),
            }),
    {
        let u = User { user_id: None, user_name, favorite_rooms: Vec::new() };
        assert(u.view_of().favorites =~= Seq::<Seq<char>>::empty());
        u
    }

    /// A new account from a registration form.
    pub fn from_form(form: NewUserForm) -> (u: User)
        ensures
            u.view_of() == (UserView {
                id: None,
                name: form.user_name@,
                favorites: Seq::<Seq<char>>::empty(),
            }),
    {
        User::new(form.user_name)
    }
}

impl IUser for User {
    open spec fn user_view(&self) -> UserView {
        self.view_of()
    }

    open spec fn is_null(&self) -> bool {
        false
    }

    fn user_id(&self) -> (r: Option<&String>) {
        self.user_id.as_ref()
    }

    fn set_user_id(&mut self, id: String) {
        self.user_id = Some(id);
    }

    fn user_name(&self) -> (r: &String) {
        &self.user_name
    }

    fn set_user_name(&mut self, name: String) {
        self.user_name = name;
    }

    fn total_favorites(&self) -> (r: usize) {
        self.favorite_rooms.len()
    }

    fn add_favorites(&mut self, favs: Vec<String>) {
        let mut i: usize = 0;
        while i < favs.len()
            invariant
                i <= favs@.len(),
                self.user_id == old(self).user_id,
                self.user_name == old(self).user_name,
                names_of(self.favorite_rooms@) == with_favorites(
                    names_of(old(self).favorite_rooms@),
                    names_of(favs@.subrange(0, i as int)),
                ),
            decreases favs.len() - i,
        {
            insert_unique(&mut self.favorite_rooms, favs[i].clone());
            proof {
                assert(names_of(favs@.subrange(0, i + 1)).drop_last() =~= names_of(
                    favs@.subrange(0, i as int),
                ));
            }
            i = i + 1;
        }
        assert(favs@.subrange(0, favs@.len() as int) =~= favs@);
    }

    fn favorites(&self) -> (r: &Vec<String>) {
        &self.favorite_rooms
    }

    fn to_user(&self) -> (u: User) {
        User {
            user_id: match &self.user_id {
                Some(id) => Some(id.clone()),
                None => None,
            },
            user_name: self.user_name.clone(),
            favorite_rooms: self.favorite_rooms.clone(),
        }
    }
}

impl PartialEq for User {
    fn eq(&self, other: &User) -> (r: bool) {
        let same_id = match (&self.user_id, &other.user_id) {
            (Some(a), Some(b)) => *a == *b,
            (None, None) => true,
            _ => false,
        };
        same_id && lowercase(self.user_name.as_str()) == lowercase(other.user_name.as_str())
    }
}

impl vstd::std_specs::cmp::PartialEqSpecImpl for User {
    open spec fn obeys_eq_spec() -> bool {
        true
    }

    /// Two accounts are equal when their ids are, and their names are up to
    /// case.
    open spec fn eq_spec(&self, other: &User) -> bool {
        opt_text(self.user_id) == opt_text(other.user_id) && lower_of(self.user_name@) == lower_of(
            other.user_name@,
        )
    }
}

/// The account that stands for one that was not found: no id, no name, no
/// favourites, and every change ignored.
#[derive(Debug, Clone)]
pub struct NullUser {
    user_id: Option<String>,
    user_name: String,
    favorite_rooms: Vec<String>,
}

impl NullUser {
    pub fn new() -> (u: NullUser)
        ensures
            u.user_view() == (UserView {
                id: None,
                name: Seq::<char>::empty(),
                favorites: Seq::<Seq<char>>::empty(),
            }),
    {
        let u = NullUser { user_id: None, user_name: String::new(), favorite_rooms: Vec::new() };
        assert(names_of(u.favorite_rooms@) =~= Seq::<Seq<char>>::empty());
        u
    }
}

impl IUser for NullUser {
    closed spec fn user_view(&self) -> UserView {
        UserView {
            id: opt_text(self.user_id),
            name: self.user_name@,
            favorites: names_of(self.favorite_rooms@),
        }
    }

    open spec fn is_null(&self) -> bool {
        true
    }

    fn user_id(&self) -> (r: Option<&String>) {
        self.user_id.as_ref()
    }

    fn set_user_id(&mut self, id: String) {
    }

    fn user_name(&self) -> (r: &String) {
        &self.user_name
    }

    fn set_user_name(&mut self, name: String) {
    }

    fn total_favorites(&self) -> (r: usize) {
        0
    }

    fn add_favorites(&mut self, favs: Vec<String>) {
    }

    fn favorites(&self) -> (r: &Vec<String>) {
        &self.favorite_rooms
    }

    fn to_user(&self) -> (u: User) {
        User::new(String::new())
    }
}

} // verus!
