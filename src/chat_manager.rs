//! The registry of live rooms: creation under a capacity limit and
//! case-insensitive name uniqueness, deletion by the owner, listing, the
//! routing of raw connections, and the one-time start of the router.
use vstd::prelude::*;
use crate::chat_data::{RoomAvailable, RoomCreated};
use crate::name_extractor::{get_room_name, is_room_request, routing_key};
use crate::room_data::{
    after_frame, forward_targets, fresh_room, names_of, with_member, ChatData, Dispatch,
    Extractor, Frame, RoomView, Visit,
};

verus! {

/// The most rooms registered at once.
pub const ROOM_LIMIT: usize = 10;

/// The answer written on a connection that names no registered room.
pub const NOT_FOUND_RESPONSE: &'static str = "HTTP/1.1 404 NOT FOUND";

/// Why a registry operation was refused.
#[derive(Debug, Clone, Copy, PartialEq, Eq, Structural)]
pub enum Error {
    TooManyRooms,
    RoomNotFound,
    NameTaken,
    NotOwner,
}

/// The text that describes an error.
pub open spec fn error_text(e: Error) -> Seq<char> {
    match e {
        Error::TooManyRooms => "Too many rooms running."@,
        Error::RoomNotFound => "Room doesn't exist."@,
        Error::NameTaken => "Name is already in use."@,
        Error::NotOwner => "Not authorized to delete room."@,
    }
}

impl Error {
    /// The text that describes this error.
    pub fn to_string(&self) -> (r: String)
        ensures
            r@ == error_text(*self),
    {
        match self {
            Error::TooManyRooms => String::from_str("Too many rooms running."),
            Error::RoomNotFound => String::from_str("Room doesn't exist."),
            Error::NameTaken => String::from_str("Name is already in use."),
            Error::NotOwner => String::from_str("Not authorized to delete room."),
        }
    }
}

/// What `str::to_lowercase` makes of a text.
pub uninterp spec fn lower_of(s: Seq<char>) -> Seq<char>;

/// Relies on `str::to_lowercase`: the lowercase form of a text, which
/// depends on the text alone.
#[verifier::external_body]
pub(crate) fn lowercase(s: &str) -> (r: String)
    ensures
        r@ == lower_of(s@),
{
    s.to_lowercase()
}

/// Relies on `str::split` with the pattern `","`: the pieces of the text
/// between commas, in order; a text with `n` commas has `n + 1` pieces.
#[verifier::external_body]
fn split_commas(s: &str) -> (r: Vec<String>)
    ensures
        names_of(r@) == comma_fields(s@),
{
    s.split(",").map(String::from).collect()
}

/// The pieces of `s` between commas, in order: `""` gives one empty piece,
/// `"a,,b"` gives `"a"`, `""` and `"b"`.
pub open spec fn comma_fields(s: Seq<char>) -> Seq<Seq<char>>
    decreases s.len(),
{
    if s.len() == 0 {
        seq![Seq::<char>::empty()]
    } else {
        let init = comma_fields(s.drop_last());
        if s.last() == ',' {
            init.push(Seq::<char>::empty())
        } else {
            init.update(init.len() - 1, init.last().push(s.last()))
        }
    }
}

/// Where the router sends a connection.
#[derive(Debug, Clone)]
pub enum RouteDecision {
    /// The request is not a room request: the connection is left alone.
    Ignore,
    /// The connection goes to the room with this id.
    Forward(String),
    /// No room has the requested name: the connection is answered with
    /// `NOT_FOUND_RESPONSE`.
    NotFound,
}

/// Some registered room has a name equal to `name` up to case.
pub open spec fn name_taken(rooms: Seq<RoomView>, name: Seq<char>) -> bool {
    exists|i: int| 0 <= i < rooms.len() && lower_of(#[trigger] rooms[i].name) == lower_of(name)
}

/// The registry's invariant: within capacity, names unique up to case,
/// member names unique within each room.
pub open spec fn registry_wf(rooms: Seq<RoomView>) -> bool {
    &&& rooms.len() <= ROOM_LIMIT
    &&& forall|i: int, j: int|
        0 <= i < rooms.len() && 0 <= j < rooms.len() && i != j ==> lower_of(#[trigger] rooms[i].name)
            != lower_of(#[trigger] rooms[j].name)
    &&& forall|i: int| 0 <= i < rooms.len() ==> (#[trigger] rooms[i]).users.no_duplicates()
}

/// Why creating a room named `name` is refused, if it is.
pub open spec fn create_error(rooms: Seq<RoomView>, name: Seq<char>) -> Option<Error> {
    if rooms.len() >= ROOM_LIMIT {
        Some(Error::TooManyRooms)
    } else if name_taken(rooms, name) {
        Some(Error::NameTaken)
    } else {
        None
    }
}

/// The rooms after creating one named `name`, owned by `owner`, under `id`.
pub open spec fn after_create(
    rooms: Seq<RoomView>,
    name: Seq<char>,
    owner: Seq<char>,
    id: Seq<char>,
) -> Seq<RoomView> {
    if create_error(rooms, name) is None {
        rooms.push(fresh_room(id, name, owner))
    } else {
        rooms
    }
}

/// Some registered room has the id `id`.
pub open spec fn has_id(rooms: Seq<RoomView>, id: Seq<char>) -> bool {
    exists|i: int| 0 <= i < rooms.len() && (#[trigger] rooms[i]).id == id
}

/// `i` is the first room with the id `id`.
pub open spec fn first_with_id(rooms: Seq<RoomView>, id: Seq<char>, i: int) -> bool {
    0 <= i < rooms.len() && rooms[i].id == id && forall|j: int| 0 <= j < i ==> (#[trigger] rooms[j]).id != id
}

/// The index of the room that the id `id` designates.
pub open spec fn id_index(rooms: Seq<RoomView>, id: Seq<char>) -> int {
    choose|i: int| first_with_id(rooms, id, i)
}

/// No two registered rooms share an id.
pub open spec fn ids_distinct(rooms: Seq<RoomView>) -> bool {
    forall|i: int, j: int|
        0 <= i < rooms.len() && 0 <= j < rooms.len() && i != j ==> (#[trigger] rooms[i]).id != (#[trigger] rooms[j]).id
}

/// Why deleting the room `id` on behalf of `caller` is refused, if it is.
pub open spec fn delete_error(rooms: Seq<RoomView>, id: Seq<char>, caller: Seq<char>) -> Option<Error> {
    if !has_id(rooms, id) {
        Some(Error::RoomNotFound)
    } else if rooms[id_index(rooms, id)].owner != caller {
        Some(Error::NotOwner)
    } else {
        None
    }
}

/// The rooms after deleting the room `id` on behalf of `caller`.
pub open spec fn after_delete(rooms: Seq<RoomView>, id: Seq<char>, caller: Seq<char>) -> Seq<RoomView> {
    if delete_error(rooms, id, caller) is None {
        rooms.remove(id_index(rooms, id))
    } else {
        rooms
    }
}

/// What a visitor of all rooms is handed: each room's name, then its
/// members, room by room.
pub open spec fn room_visits(rooms: Seq<RoomView>) -> Seq<Visit>
    decreases rooms.len(),
{
    if rooms.len() == 0 {
        seq![]
    } else {
        room_visits(rooms.drop_last()) + seq![
            Visit::Name(rooms.last().name),
            Visit::Users(rooms.last().users),
        ]
    }
}

/// The first room with a given id is unique.
proof fn lemma_first_with_id_unique(rooms: Seq<RoomView>, id: Seq<char>, i: int, j: int)
    requires
        first_with_id(rooms, id, i),
        first_with_id(rooms, id, j),
    ensures
        i == j,
{
    if i < j {
        assert(rooms[i].id != id);
    } else if j < i {
        assert(rooms[j].id != id);
    }
}

/// The id designates the first room that has it.
pub proof fn lemma_id_index(rooms: Seq<RoomView>, id: Seq<char>, i: int)
    requires
        first_with_id(rooms, id, i),
    ensures
        id_index(rooms, id) == i,
        has_id(rooms, id),
{
    lemma_first_with_id_unique(rooms, id, i, id_index(rooms, id));
}

/// The directory of live rooms.
pub struct ChatManager {
    rooms: Vec<ChatData>,
    started: bool,
}

impl ChatManager {
    /// The registered rooms, in order of creation.
    pub closed spec fn rooms(&self) -> Seq<RoomView> {
        self.rooms@.map_values(|d: ChatData| d.view())
    }

    /// Whether the router was started.
    pub closed spec fn is_started(&self) -> bool {
        self.started
    }

    pub open spec fn wf(&self) -> bool {
        registry_wf(self.rooms())
    }

    /// An empty registry whose router has not started.
    pub fn new() -> (m: ChatManager)
        ensures
            m.wf(),
            m.rooms() == Seq::<RoomView>::empty(),
            !m.is_started(),
    {
        let m = ChatManager { rooms: Vec::new(), started: false };
        assert(m.rooms() =~= Seq::<RoomView>::empty());
        m
    }

    /// Records that the router starts. Returns whether this is the first
    /// start: a second one is a misuse that the caller must not go on with.
    pub fn try_start(&mut self) -> (first: bool)
        ensures
            first == start_allowed(old(self).is_started()),
            final(self).is_started(),
            final(self).rooms() == old(self).rooms(),
    {
        if self.started {
            false
        } else {
            self.started = true;
            true
        }
    }

    fn too_many_rooms(&self) -> (r: bool)
        ensures
            r == (self.rooms().len() >= ROOM_LIMIT),
    {
        self.rooms.len() >= ROOM_LIMIT
    }

    /// Whether a room's name equals `name` up to case.
    fn name_is_unavailable(&self, name: &String) -> (r: bool)
        ensures
            r == name_taken(self.rooms(), name@),
    {
        let wanted = lowercase(name.as_str());
        let mut i: usize = 0;
        while i < self.rooms.len()
            invariant
                i <= self.rooms@.len(),
                wanted@ == lower_of(name@),
                forall|j: int| 0 <= j < i ==> lower_of(#[trigger] self.rooms()[j].name) != lower_of(name@),
            decreases self.rooms.len() - i,
        {
            let room_name = self.rooms[i].name();
            let candidate = lowercase(room_name.as_str());
            if candidate == wanted {
                assert(self.rooms()[i as int].name == self.rooms@[i as int].view().name);
                return true;
            }
            i = i + 1;
        }
        false
    }

    /// Whether a room named `name` could be created as far as names go: no
    /// registered room has that name up to case.
    pub fn name_is_available(&self, name: &String) -> (r: bool)
        ensures
            r == !name_taken(self.rooms(), name@),
    {
        !self.name_is_unavailable(name)
    }

    /// Creates a room named `name` owned by `owner_id`, refused when the
    /// registry is full or the name is taken up to case.
    pub fn create_new_room(&mut self, name: String, owner_id: String) -> (r: Result<RoomCreated, Error>)
        requires
            old(self).wf(),
        ensures
            final(self).wf(),
            final(self).is_started() == old(self).is_started(),
            match r {
                Ok(created) => {
                    &&& create_error(old(self).rooms(), name@) is None
                    &&& final(self).rooms() == after_create(
                        old(self).rooms(),
                        name@,
                        owner_id@,
                        created.id@,
                    )
                    &&& created.name@ == name@
                    &&& created.path@ == Seq::<char>::empty()
                    &&& created.id@.len() == 36
                },
                Err(e) => {
                    &&& create_error(old(self).rooms(), name@) == Some(e)
                    &&& final(self).rooms() == old(self).rooms()
                },
            },
    {
        if self.too_many_rooms() {
            Err(Error::TooManyRooms)
        } else {
            self.create_room(name, owner_id)
        }
    }

    fn create_room(&mut self, name: String, owner_id: String) -> (r: Result<RoomCreated, Error>)
        requires
            old(self).wf(),
            old(self).rooms().len() < ROOM_LIMIT,
        ensures
            final(self).wf(),
            final(self).is_started() == old(self).is_started(),
            match r {
                Ok(created) => {
                    &&& create_error(old(self).rooms(), name@) is None
                    &&& final(self).rooms() == after_create(
                        old(self).rooms(),
                        name@,
                        owner_id@,
                        created.id@,
                    )
                    &&& created.name@ == name@
                    &&& created.path@ == Seq::<char>::empty()
                    &&& created.id@.len() == 36
                },
                Err(e) => {
                    &&& create_error(old(self).rooms(), name@) == Some(e)
                    &&& final(self).rooms() == old(self).rooms()
                },
            },
    {
        if self.name_is_unavailable(&name) {
            Err(Error::NameTaken)
        } else {
            let data = ChatData::new(name, owner_id);
            let result = RoomCreated { path: String::new(), name: data.name(), id: data.id() };
            let ghost before = self.rooms();
            let ghost added = data.view();
            self.rooms.push(data);
            proof {
                assert(self.rooms() =~= before.push(added));
                assert(result.path@ =~= Seq::<char>::empty());
                let rooms = self.rooms();
                assert forall|i: int, j: int|
                    0 <= i < rooms.len() && 0 <= j < rooms.len() && i != j implies lower_of(
                        #[trigger] rooms[i].name,
                    ) != lower_of(#[trigger] rooms[j].name) by {
                    if i == before.len() as int {
                        assert(lower_of(before[j].name) != lower_of(added.name));
                    } else if j == before.len() as int {
                        assert(lower_of(before[i].name) != lower_of(added.name));
                    }
                }
                assert forall|i: int| 0 <= i < rooms.len() implies (
                #[trigger] rooms[i]).users.no_duplicates() by {
                    if i == before.len() as int {
                        assert(rooms[i].users =~= Seq::<Seq<char>>::empty());
                    }
                }
            }
            Ok(result)
        }
    }

    /// The names of the registered rooms, in order of creation.
    pub fn list_rooms(&self) -> (r: Vec<String>)
        ensures
            names_of(r@) == self.rooms().map_values(|v: RoomView| v.name),
    {
        let mut r: Vec<String> = Vec::new();
        let mut i: usize = 0;
        while i < self.rooms.len()
            invariant
                i <= self.rooms@.len(),
                names_of(r@) == self.rooms().subrange(0, i as int).map_values(|v: RoomView| v.name),
            decreases self.rooms.len() - i,
        {
            let ghost prev = r@;
            r.push(self.rooms[i].name());
            proof {
                assert(names_of(r@) =~= names_of(prev).push(self.rooms()[i as int].name));
                assert(self.rooms().subrange(0, i + 1).map_values(|v: RoomView| v.name)
                    =~= self.rooms().subrange(0, i as int).map_values(|v: RoomView| v.name).push(
                    self.rooms()[i as int].name,
                ));
            }
            i = i + 1;
        }
        assert(self.rooms().subrange(0, self.rooms@.len() as int) =~= self.rooms());
        r
    }

    /// Hands the visitor each room's name and members, room by room.
    pub fn get_room_data<T: Extractor>(&self, extractor: &mut T)
        requires
            old(extractor).inv(),
        ensures
            final(extractor).inv(),
            final(extractor).visits() == old(extractor).visits() + room_visits(self.rooms()),
    {
        let mut i: usize = 0;
        while i < self.rooms.len()
            invariant
                i <= self.rooms@.len(),
                extractor.inv(),
                extractor.visits() == old(extractor).visits() + room_visits(
                    self.rooms().subrange(0, i as int),
                ),
            decreases self.rooms.len() - i,
        {
            self.rooms[i].extract_room_data(extractor);
            proof {
                let s = self.rooms().subrange(0, i + 1);
                assert(s.drop_last() =~= self.rooms().subrange(0, i as int));
                assert(s.last() == self.rooms@[i as int].view());
            }
            i = i + 1;
        }
        assert(self.rooms().subrange(0, self.rooms@.len() as int) =~= self.rooms());
    }

    /// Each name of a comma-separated list, with whether a room could be
    /// created under it.
    pub fn check_name(&self, names: &str) -> (r: Vec<RoomAvailable>)
        ensures
            r@.len() == comma_fields(names@).len(),
            forall|i: int|
                0 <= i < r@.len() ==> (#[trigger] r@[i]).name@ == comma_fields(names@)[i]
                    && r@[i].available == !name_taken(self.rooms(), comma_fields(names@)[i]),
    {
        let values = split_commas(names);
        let mut response: Vec<RoomAvailable> = Vec::new();
        let mut i: usize = 0;
        while i < values.len()
            invariant
                i <= values@.len(),
                names_of(values@) == comma_fields(names@),
                response@.len() == i,
                forall|j: int|
                    0 <= j < i ==> (#[trigger] response@[j]).name@ == comma_fields(names@)[j]
                        && response@[j].available == !name_taken(self.rooms(), comma_fields(names@)[j]),
            decreases values.len() - i,
        {
            let v = values[i].clone();
            let available = self.name_is_available(&v);
            assert(v@ == comma_fields(names@)[i as int]);
            response.push(RoomAvailable { name: v, available });
            i = i + 1;
        }
        response
    }

    /// The index of the first room with the id `room_id`.
    fn find_room(&self, room_id: &String) -> (r: Option<usize>)
        ensures
            match r {
                Some(i) => first_with_id(self.rooms(), room_id@, i as int),
                None => !has_id(self.rooms(), room_id@),
            },
    {
        let mut i: usize = 0;
        while i < self.rooms.len()
            invariant
                i <= self.rooms@.len(),
                forall|j: int| 0 <= j < i ==> (#[trigger] self.rooms()[j]).id != room_id@,
            decreases self.rooms.len() - i,
        {
            if self.rooms[i].id_is(room_id) {
                return Some(i);
            }
            i = i + 1;
        }
        proof {
            false_has_id(self.rooms(), room_id@);
        }
        None
    }

    fn is_valid_room_id(&self, room_id: &String) -> (r: bool)
        ensures
            r == has_id(self.rooms(), room_id@),
    {
        match self.find_room(room_id) {
            Some(i) => {
                proof {
                    lemma_id_index(self.rooms(), room_id@, i as int);
                }
                true
            },
            None => false,
        }
    }

    /// Takes the room `room_id` out of the registry when `owner_id` owns it.
    pub fn remove_room(&mut self, room_id: &String, owner_id: &String) -> (r: Result<ChatData, Error>)
        requires
            old(self).wf(),
        ensures
            final(self).wf(),
            final(self).is_started() == old(self).is_started(),
            final(self).rooms() == after_delete(old(self).rooms(), room_id@, owner_id@),
            match r {
                Ok(d) => {
                    &&& delete_error(old(self).rooms(), room_id@, owner_id@) is None
                    &&& d.view() == old(self).rooms()[id_index(old(self).rooms(), room_id@)]
                    &&& d.wf()
                },
                Err(e) => delete_error(old(self).rooms(), room_id@, owner_id@) == Some(e),
            },
    {
        if self.is_valid_room_id(room_id) {
            self.try_to_delete_room(room_id, owner_id)
        } else {
            Err(Error::RoomNotFound)
        }
    }

    fn try_to_delete_room(&mut self, room_id: &String, owner_id: &String) -> (r: Result<ChatData, Error>)
        requires
            old(self).wf(),
            has_id(old(self).rooms(), room_id@),
        ensures
            final(self).wf(),
            final(self).is_started() == old(self).is_started(),
            final(self).rooms() == after_delete(old(self).rooms(), room_id@, owner_id@),
            match r {
                Ok(d) => {
                    &&& delete_error(old(self).rooms(), room_id@, owner_id@) is None
                    &&& d.view() == old(self).rooms()[id_index(old(self).rooms(), room_id@)]
                    &&& d.wf()
                },
                Err(e) => delete_error(old(self).rooms(), room_id@, owner_id@) == Some(e),
            },
    {
        let i = match self.find_room(room_id) {
            Some(i) => i,
            None => {
                return Err(Error::RoomNotFound);
            },
        };
        proof {
            lemma_id_index(self.rooms(), room_id@, i as int);
        }
        if self.rooms[i].is_owner(owner_id) {
            let ghost before = self.rooms();
            let removed = self.rooms.remove(i);
            proof {
                assert(self.rooms() =~= before.remove(i as int));
                let rooms = self.rooms();
                assert forall|a: int, b: int|
                    0 <= a < rooms.len() && 0 <= b < rooms.len() && a != b implies lower_of(
                        #[trigger] rooms[a].name,
                    ) != lower_of(#[trigger] rooms[b].name) by {
                    let a0 = if a < i { a } else { a + 1 };
                    let b0 = if b < i { b } else { b + 1 };
                    assert(rooms[a] == before[a0]);
                    assert(rooms[b] == before[b0]);
                }
                assert forall|a: int| 0 <= a < rooms.len() implies (
                #[trigger] rooms[a]).users.no_duplicates() by {
                    let a0 = if a < i { a } else { a + 1 };
                    assert(rooms[a] == before[a0]);
                }
            }
            Ok(removed)
        } else {
            Err(Error::NotOwner)
        }
    }

    /// Deletes the room `room_id` when `owner_id` owns it.
    pub fn delete_room(&mut self, room_id: String, owner_id: String) -> (r: Result<(), Error>)
        requires
            old(self).wf(),
        ensures
            final(self).wf(),
            final(self).is_started() == old(self).is_started(),
            final(self).rooms() == after_delete(old(self).rooms(), room_id@, owner_id@),
            match r {
                Ok(()) => delete_error(old(self).rooms(), room_id@, owner_id@) is None,
                Err(e) => delete_error(old(self).rooms(), room_id@, owner_id@) == Some(e),
            },
    {
        match self.remove_room(&room_id, &owner_id) {
            Ok(_) => Ok(()),
            Err(e) => Err(e),
        }
    }

    /// The index of a room whose name is exactly `name`.
    fn room_named(&self, name: &String) -> (r: Option<usize>)
        ensures
            match r {
                Some(i) => i < self.rooms().len() && self.rooms()[i as int].name == name@,
                None => forall|j: int| 0 <= j < self.rooms().len() ==> (#[trigger] self.rooms()[j]).name != name@,
            },
    {
        let mut i: usize = 0;
        while i < self.rooms.len()
            invariant
                i <= self.rooms@.len(),
                forall|j: int| 0 <= j < i ==> (#[trigger] self.rooms()[j]).name != name@,
            decreases self.rooms.len() - i,
        {
            if self.rooms[i].name_is(name) {
                return Some(i);
            }
            i = i + 1;
        }
        None
    }

    /// Where a raw connection whose first bytes are `request` goes: to the
    /// room whose name is exactly the requested one, or nowhere.
    pub fn route(&self, request: &[u8]) -> (r: RouteDecision)
        ensures
            match r {
                RouteDecision::Ignore => !is_room_request(request@),
                RouteDecision::Forward(id) => {
                    &&& is_room_request(request@)
                    &&& exists|key: Seq<char>, i: int|
                        #![trigger routing_key(request@, key), self.rooms()[i]]
                        routing_key(request@, key) && 0 <= i < self.rooms().len()
                            && self.rooms()[i].name == key && self.rooms()[i].id == id@
                },
                RouteDecision::NotFound => {
                    &&& is_room_request(request@)
                    &&& exists|key: Seq<char>|
                        #[trigger] routing_key(request@, key) && forall|i: int|
                            0 <= i < self.rooms().len() ==> (#[trigger] self.rooms()[i]).name != key
                },
            },
    {
        match get_room_name(request) {
            None => RouteDecision::Ignore,
            Some(name) => match self.room_named(&name) {
                Some(i) => RouteDecision::Forward(self.rooms[i].id()),
                None => RouteDecision::NotFound,
            },
        }
    }

    /// A member named `user_name` joins the room `room_id`. Returns the
    /// members that get the announcement, or `None` when no room has that id.
    pub fn join_room(&mut self, room_id: &String, user_name: String) -> (r: Option<Vec<String>>)
        requires
            old(self).wf(),
        ensures
            final(self).wf(),
            final(self).is_started() == old(self).is_started(),
            match r {
                None => !has_id(old(self).rooms(), room_id@) && final(self).rooms() == old(self).rooms(),
                Some(to) => {
                    let k = id_index(old(self).rooms(), room_id@);
                    &&& has_id(old(self).rooms(), room_id@)
                    &&& final(self).rooms() == old(self).rooms().update(
                        k,
                        RoomView {
                            users: with_member(old(self).rooms()[k].users, user_name@),
                            ..old(self).rooms()[k]
                        },
                    )
                    &&& names_of(to@) == final(self).rooms()[k].users
                },
            },
    {
        let i = match self.find_room(room_id) {
            Some(i) => i,
            None => {
                return None;
            },
        };
        proof {
            lemma_id_index(self.rooms(), room_id@, i as int);
        }
        let ghost before = self.rooms();
        let mut room = self.rooms.remove(i);
        assert(room.view() == before[i as int]);
        let to = room.join(user_name);
        let ghost changed = room.view();
        self.rooms.insert(i, room);
        proof {
            assert(self.rooms() =~= before.update(i as int, changed));
            self.lemma_update_keeps_wf(before, i as int, changed);
        }
        Some(to)
    }

    /// The room `room_id` takes in one frame from a member; see
    /// `ChatData::receive`. Returns `None` when no room has that id.
    pub fn receive_frame(&mut self, room_id: &String, frame: Frame, sender: Option<String>) -> (r: Option<Dispatch>)
        requires
            old(self).wf(),
        ensures
            final(self).wf(),
            final(self).is_started() == old(self).is_started(),
            match r {
                None => !has_id(old(self).rooms(), room_id@) && final(self).rooms() == old(self).rooms(),
                Some(d) => {
                    let k = id_index(old(self).rooms(), room_id@);
                    &&& has_id(old(self).rooms(), room_id@)
                    &&& final(self).rooms() == old(self).rooms().update(
                        k,
                        after_frame(old(self).rooms()[k], frame),
                    )
                    &&& names_of(d.recipients@) == forward_targets(
                        old(self).rooms()[k].users,
                        frame,
                        match sender {
                            Some(s) => Some(s@),
                            None => None,
                        },
                    )
                    &&& d.stop == (frame is Close)
                },
            },
    {
        let i = match self.find_room(room_id) {
            Some(i) => i,
            None => {
                return None;
            },
        };
        proof {
            lemma_id_index(self.rooms(), room_id@, i as int);
        }
        let ghost before = self.rooms();
        let mut room = self.rooms.remove(i);
        assert(room.view() == before[i as int]);
        let d = room.receive(frame, sender);
        let ghost changed = room.view();
        self.rooms.insert(i, room);
        proof {
            assert(self.rooms() =~= before.update(i as int, changed));
            self.lemma_update_keeps_wf(before, i as int, changed);
        }
        Some(d)
    }

    /// Changing one room's members or history, keeping its name and its
    /// members unique, keeps the registry's invariant.
    proof fn lemma_update_keeps_wf(&self, before: Seq<RoomView>, i: int, changed: RoomView)
        requires
            registry_wf(before),
            0 <= i < before.len(),
            changed.name == before[i].name,
            changed.users.no_duplicates(),
            self.rooms() == before.update(i, changed),
        ensures
            registry_wf(self.rooms()),
    {
        let rooms = self.rooms();
        assert forall|a: int, b: int|
            0 <= a < rooms.len() && 0 <= b < rooms.len() && a != b implies lower_of(
                #[trigger] rooms[a].name,
            ) != lower_of(#[trigger] rooms[b].name) by {
            assert(rooms[a].name == before[a].name);
            assert(rooms[b].name == before[b].name);
        }
        assert forall|a: int| 0 <= a < rooms.len() implies (#[trigger] rooms[a]).users.no_duplicates() by {
            if a != i {
                assert(rooms[a] == before[a]);
            }
        }
    }
}

/// The rooms after each creation of `requests` in turn, each request being
/// a name, an owner and the id the room would get.
pub open spec fn after_creates(
    rooms: Seq<RoomView>,
    requests: Seq<(Seq<char>, Seq<char>, Seq<char>)>,
) -> Seq<RoomView>
    decreases requests.len(),
{
    if requests.len() == 0 {
        rooms
    } else {
        let (name, owner, id) = requests.last();
        after_create(after_creates(rooms, requests.drop_last()), name, owner, id)
    }
}

/// Whatever rooms are created, in any number and order, the registry never
/// holds more than `ROOM_LIMIT` rooms; and once it holds that many, every
/// further creation is refused with `TooManyRooms`.
pub proof fn lemma_capacity_never_exceeded(
    rooms: Seq<RoomView>,
    requests: Seq<(Seq<char>, Seq<char>, Seq<char>)>,
    next: Seq<char>,
)
    requires
        rooms.len() <= ROOM_LIMIT,
    ensures
        after_creates(rooms, requests).len() <= ROOM_LIMIT,
        after_creates(rooms, requests).len() == ROOM_LIMIT ==> create_error(
            after_creates(rooms, requests),
            next,
        ) == Some(Error::TooManyRooms),
    decreases requests.len(),
{
    if requests.len() > 0 {
        lemma_capacity_never_exceeded(rooms, requests.drop_last(), next);
    }
}

/// After a room named `name` is created, creating another whose name is the
/// same up to case is refused with `NameTaken` (while capacity remains).
pub proof fn lemma_case_variant_taken(
    rooms: Seq<RoomView>,
    name: Seq<char>,
    owner: Seq<char>,
    id: Seq<char>,
    variant: Seq<char>,
)
    requires
        create_error(rooms, name) is None,
        rooms.len() + 1 < ROOM_LIMIT,
        lower_of(variant) == lower_of(name),
    ensures
        create_error(after_create(rooms, name, owner, id), variant) == Some(Error::NameTaken),
{
    let after = after_create(rooms, name, owner, id);
    assert(after[rooms.len() as int].name == name);
}

/// A name is unavailable exactly when it equals some registered room's name
/// up to case.
pub proof fn lemma_availability(rooms: Seq<RoomView>, name: Seq<char>)
    ensures
        (forall|i: int| 0 <= i < rooms.len() ==> lower_of(#[trigger] rooms[i].name) != lower_of(name))
            ==> !name_taken(rooms, name),
        (exists|i: int| 0 <= i < rooms.len() && lower_of(#[trigger] rooms[i].name) == lower_of(name))
            ==> name_taken(rooms, name),
{
}

/// Deleting succeeds exactly when the id is registered and the caller is
/// the owner of the room it names; a second deletion of the same id then
/// finds no room.
pub proof fn lemma_delete_by_owner(rooms: Seq<RoomView>, id: Seq<char>, caller: Seq<char>, again: Seq<char>)
    requires
        ids_distinct(rooms),
    ensures
        (delete_error(rooms, id, caller) is None) <==> (exists|i: int|
            0 <= i < rooms.len() && #[trigger] rooms[i].id == id && rooms[i].owner == caller),
        delete_error(rooms, id, caller) is None ==> delete_error(
            after_delete(rooms, id, caller),
            id,
            again,
        ) == Some(Error::RoomNotFound),
{
    if has_id(rooms, id) {
        let k = choose|i: int| 0 <= i < rooms.len() && (#[trigger] rooms[i]).id == id;
        assert(first_with_id(rooms, id, k));
        lemma_id_index(rooms, id, k);
        if exists|i: int| 0 <= i < rooms.len() && #[trigger] rooms[i].id == id && rooms[i].owner == caller {
            let j = choose|i: int| 0 <= i < rooms.len() && #[trigger] rooms[i].id == id && rooms[i].owner == caller;
            assert(j == k);
        }
        if delete_error(rooms, id, caller) is None {
            let after = rooms.remove(k);
            assert forall|i: int| 0 <= i < after.len() implies (#[trigger] after[i]).id != id by {
                if i < k {
                    assert(after[i] == rooms[i]);
                } else {
                    assert(after[i] == rooms[i + 1]);
                }
            }
        }
    }
}

/// Whether the router may start, given whether it has started before.
pub open spec fn start_allowed(started: bool) -> bool {
    !started
}

/// Starting the router on a manager whose router was started is refused:
/// a second start is never allowed.
pub proof fn lemma_second_start_refused(m: ChatManager)
    requires
        m.is_started(),
    ensures
        !start_allowed(m.is_started()),
{
}

/// When no room up to `rooms.len()` has the id, the registry lacks it.
proof fn false_has_id(rooms: Seq<RoomView>, id: Seq<char>)
    requires
        forall|j: int| 0 <= j < rooms.len() ==> (#[trigger] rooms[j]).id != id,
    ensures
        !has_id(rooms, id),
{
}

} // verus!
