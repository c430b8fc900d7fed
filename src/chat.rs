//! The visitor that collects room data into a listing for the management API.
use vstd::prelude::*;
use crate::chat_data::{listed_names, listing_view, ChatRoom, ChatRooms, ChatUser};
use crate::room_data::{names_of, Extractor, Visit};

verus! {

/// The listing that a sequence of visits builds: a name opens a room, the
/// members that follow close it; members with no open room are dropped.
pub open spec fn replay(visits: Seq<Visit>) -> (Seq<(Seq<char>, Seq<Seq<char>>)>, Option<Seq<char>>)
    decreases visits.len(),
{
    if visits.len() == 0 {
        (seq![], None)
    } else {
        let (rooms, open) = replay(visits.drop_last());
        match visits.last() {
            Visit::Name(n) => (rooms, Some(n)),
            Visit::Users(u) => match open {
                Some(n) => (rooms.push((n, u)), None),
                None => (rooms, None),
            },
        }
    }
}

/// Collects, for each room visited, its name and members.
pub struct JsonExtractor {
    pub rooms: ChatRooms,
    pub current_room: Option<ChatRoom>,
    pub visited: Ghost<Seq<Visit>>,
}

impl JsonExtractor {
    /// An extractor that has collected nothing.
    pub fn new() -> (e: JsonExtractor)
        ensures
            e.inv(),
            e.visits() == Seq::<Visit>::empty(),
            e.rooms.rooms@.len() == 0,
            e.current_room is None,
    {
        let e = JsonExtractor {
            rooms: ChatRooms { rooms: Vec::new() },
            current_room: None,
            visited: Ghost(Seq::empty()),
        };
        assert(listing_view(e.rooms.rooms@) =~= Seq::<(Seq<char>, Seq<Seq<char>>)>::empty());
        e
    }
}

impl Extractor for JsonExtractor {
    open spec fn visits(&self) -> Seq<Visit> {
        self.visited@
    }

    /// The listing and the open room are what the visits build.
    open spec fn inv(&self) -> bool {
        &&& listing_view(self.rooms.rooms@) == replay(self.visits()).0
        &&& match self.current_room {
            Some(room) => replay(self.visits()).1 == Some(room.name@) && room.users@.len() == 0,
            None => replay(self.visits()).1 is None,
        }
    }

    fn pass_name(&mut self, name: String) {
        let ghost n = name@;
        self.current_room = Some(ChatRoom { name, users: Vec::new() });
        self.visited = Ghost(self.visited@.push(Visit::Name(n)));
        proof {
            assert(self.visits().drop_last() =~= old(self).visits());
        }
    }

    fn handle_users(&mut self, users: &Vec<String>) {
        let ghost u = names_of(users@);
        self.visited = Ghost(self.visited@.push(Visit::Users(u)));
        proof {
            assert(self.visits().drop_last() =~= old(self).visits());
        }
        if self.current_room.is_some() {
            let mut room = match self.current_room.take() {
                Some(r) => r,
                None => ChatRoom { name: String::new(), users: Vec::new() },
            };
            let ghost before = *self;
            assert(replay(old(self).visits()).1 == Some(room.name@));
            let mut i: usize = 0;
            while i < users.len()
                invariant
                    i <= users@.len(),
                    *self == before,
                    replay(old(self).visits()).1 == Some(room.name@),
                    listed_names(room.users@) == names_of(users@.subrange(0, i as int)),
                decreases users.len() - i,
            {
                let ghost prev = room.users@;
                room.users.push(ChatUser { name: users[i].clone() });
                proof {
                    assert(listed_names(room.users@) =~= listed_names(prev).push(users@[i as int]@));
                    assert(names_of(users@.subrange(0, i + 1)) =~= names_of(
                        users@.subrange(0, i as int),
                    ).push(users@[i as int]@));
                }
                i = i + 1;
            }
            assert(users@.subrange(0, users@.len() as int) =~= users@);
            let ghost prev_rooms = self.rooms.rooms@;
            let ghost entry = (room.name@, listed_names(room.users@));
            self.rooms.rooms.push(room);
            proof {
                assert(listing_view(self.rooms.rooms@) =~= listing_view(prev_rooms).push(entry));
            }
            self.current_room = None;
        }
    }
}

} // verus!
