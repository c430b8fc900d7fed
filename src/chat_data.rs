//! Values exchanged with the management API and over the chat protocol.
use vstd::prelude::*;
use vstd::string::*;

verus! {

/// The answer to a successful room creation.
#[derive(Debug, Clone)]
pub struct RoomCreated {
    pub path: String,
    pub name: String,
    pub id: String,
}

/// A listing of rooms with their members.
#[derive(Debug, Clone)]
pub struct ChatRooms {
    pub rooms: Vec<ChatRoom>,
}

/// One room of a listing.
#[derive(Debug, Clone)]
pub struct ChatRoom {
    pub name: String,
    pub users: Vec<ChatUser>,
}

/// A member, as listed and as sent in the join handshake.
#[derive(Debug, Clone)]
pub struct ChatUser {
    pub name: String,
}

/// A chat message as carried in a text frame.
#[derive(Debug, Clone)]
pub struct ChatMessage {
    pub from: String,
    pub msg: String,
}

/// Whether a room name can still be taken.
#[derive(Debug, Clone)]
pub struct RoomAvailable {
    pub name: String,
    pub available: bool,
}

/// The answer to a successful room deletion.
#[derive(Debug, Clone)]
pub struct RoomDeleted {
    pub room_id: String,
}

/// The path under which a room named `name` is joined.
pub fn room_path(name: &String) -> (r: String)
    ensures
        r@ == "room/"@ + name@,
{
    let mut r = String::from_str("room/");
    r.append(name.as_str());
    r
}

/// The names of the members of a listed room.
pub open spec fn listed_names(users: Seq<ChatUser>) -> Seq<Seq<char>> {
    users.map_values(|u: ChatUser| u.name@)
}

/// A listed room as its name and its members' names.
pub open spec fn listing_entry(room: ChatRoom) -> (Seq<char>, Seq<Seq<char>>) {
    (room.name@, listed_names(room.users@))
}

/// A listing as the sequence of its rooms' names and members.
pub open spec fn listing_view(rooms: Seq<ChatRoom>) -> Seq<(Seq<char>, Seq<Seq<char>>)> {
    rooms.map_values(|r: ChatRoom| listing_entry(r))
}

} // verus!
