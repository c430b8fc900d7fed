//! The commands that the user store runs, each holding what it works on.
use vstd::prelude::*;
use crate::user::User;

verus! {

/// Why the user store could not be set up.
#[derive(Debug, Clone, Copy, PartialEq, Eq, Structural)]
pub enum DbServiceError {
    EmptyFile,
}

impl DbServiceError {
    /// The text that describes this error.
    pub fn to_string(&self) -> (r: String)
        ensures
            r@ == "File was of zero length, unable to generate"@,
    {
        String::from_str("File was of zero length, unable to generate")
    }
}

/// Stores a new account.
#[derive(Debug, Clone)]
pub struct CreateUser {
    pub user: User,
}

impl CreateUser {
    pub fn new(user: User) -> (c: Box<CreateUser>)
        ensures
            c.user == user,
    {
        Box::new(CreateUser { user })
    }
}

/// Removes an account.
#[derive(Debug, Clone)]
pub struct DeleteUser {
    pub user: User,
}

impl DeleteUser {
    pub fn new(user: User) -> (c: DeleteUser)
        ensures
            c.user == user,
    {
        DeleteUser { user }
    }
}

/// Reads an account's favourite rooms.
#[derive(Debug, Clone)]
pub struct GetFavorites {
    pub user: User,
}

impl GetFavorites {
    pub fn new(user: User) -> (c: GetFavorites)
        ensures
            c.user == user,
    {
        GetFavorites { user }
    }
}

/// Looks an account up by id.
#[derive(Debug, Clone)]
pub struct GetUser {
    pub user_id: String,
}

impl GetUser {
    pub fn new(user_id: String) -> (c: GetUser)
        ensures
            c.user_id == user_id,
    {
        GetUser { user_id }
    }
}

/// Stores an account's favourite rooms.
#[derive(Debug, Clone)]
pub struct UpdateFavorites {
    pub user: User,
}

impl UpdateFavorites {
    pub fn new(user: User) -> (c: UpdateFavorites)
        ensures
            c.user == user,
    {
        UpdateFavorites { user }
    }
}

/// Renames an account.
#[derive(Debug, Clone)]
pub struct UpdateUser {
    pub user: User,
}

impl UpdateUser {
    pub fn new(user: User) -> (c: UpdateUser)
        ensures
            c.user == user,
    {
        UpdateUser { user }
    }
}

} // verus!
