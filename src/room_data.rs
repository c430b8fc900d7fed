//! The state of one room: its identity, its members, its history, and the
//! rules by which the room's broadcast loop forwards frames.
use vstd::prelude::*;
use vstd::string::*;
use crate::chat_data::ChatMessage;

verus! {

/// A close frame's status code and reason.
#[derive(Debug, Clone)]
pub struct CloseInfo {
    pub code: u16,
    pub reason: String,
}

/// A frame read from a member's socket.
#[derive(Debug, Clone)]
pub enum Frame {
    Text(String),
    Binary(Vec<u8>),
    Ping(Vec<u8>),
    Pong(Vec<u8>),
    Close(Option<CloseInfo>),
}

/// What the broadcast loop does with one frame: the members whose mailboxes
/// get it, and whether the loop ends.
#[derive(Debug, Clone)]
pub struct Dispatch {
    pub recipients: Vec<String>,
    pub stop: bool,
}

/// One thing a visitor of room data was handed.
pub enum Visit {
    Name(Seq<char>),
    Users(Seq<Seq<char>>),
}

/// A visitor of room data: it receives a room's name, then its members.
pub trait Extractor {
    /// Everything this visitor was handed, in order.
    spec fn visits(&self) -> Seq<Visit>;

    /// What the visitor keeps true between calls.
    spec fn inv(&self) -> bool;

    fn pass_name(&mut self, name: String)
        requires
            old(self).inv(),
        ensures
            final(self).inv(),
            final(self).visits() == old(self).visits().push(Visit::Name(name@)),
    ;

    fn handle_users(&mut self, users: &Vec<String>)
        requires
            old(self).inv(),
        ensures
            final(self).inv(),
            final(self).visits() == old(self).visits().push(Visit::Users(names_of(users@))),
    ;
}

/// The texts of a sequence of strings.
pub open spec fn names_of(v: Seq<String>) -> Seq<Seq<char>> {
    v.map_values(|s: String| s@)
}

/// The members of `users` other than `excluded`, in order.
pub open spec fn others(users: Seq<Seq<char>>, excluded: Seq<char>) -> Seq<Seq<char>>
    decreases users.len(),
{
    if users.len() == 0 {
        seq![]
    } else {
        let rest = others(users.drop_last(), excluded);
        if users.last() == excluded {
            rest
        } else {
            rest.push(users.last())
        }
    }
}

/// The members that a frame is forwarded to. `sender` is the `from` of a
/// text frame that decodes as a chat message, and `None` for one that does
/// not.
pub open spec fn forward_targets(
    users: Seq<Seq<char>>,
    frame: Frame,
    sender: Option<Seq<char>>,
) -> Seq<Seq<char>> {
    match frame {
        Frame::Text(_) => match sender {
            Some(from) => others(users, from),
            None => seq![],
        },
        Frame::Close(_) => users,
        _ => seq![],
    }
}

/// The members after `name` joins: a name already present stays once.
pub open spec fn with_member(users: Seq<Seq<char>>, name: Seq<char>) -> Seq<Seq<char>> {
    if users.contains(name) {
        users
    } else {
        users.push(name)
    }
}

/// A room as plain values.
pub struct RoomView {
    pub id: Seq<char>,
    pub name: Seq<char>,
    pub owner: Seq<char>,
    pub users: Seq<Seq<char>>,
    pub history: Seq<Frame>,
}

/// A room as it stands right after its creation.
pub open spec fn fresh_room(id: Seq<char>, name: Seq<char>, owner: Seq<char>) -> RoomView {
    RoomView { id, name, owner, users: seq![], history: seq![] }
}

/// The room after its broadcast loop has taken in `frame`.
pub open spec fn after_frame(r: RoomView, frame: Frame) -> RoomView {
    RoomView { history: r.history.push(frame), ..r }
}

/// The room after its broadcast loop has taken in `frames`, in order.
pub open spec fn after_frames(r: RoomView, frames: Seq<Frame>) -> RoomView
    decreases frames.len(),
{
    if frames.len() == 0 {
        r
    } else {
        after_frame(after_frames(r, frames.drop_last()), frames.last())
    }
}

/// The text of the announcement of a new member.
pub open spec fn joined_text(name: Seq<char>) -> Seq<char> {
    "New user, "@ + name + ", joined the chat!"@
}

/// Relies on `uuid::Uuid::new_v4` and the `Display` of `uuid::Uuid`: a random
/// id, written hyphenated, which is 36 characters.
#[verifier::external_body]
fn fresh_room_id() -> (r: String)
    ensures
        r@.len() == 36,
{
    uuid::Uuid::new_v4().to_string()
}

/// The members of `users` other than `excluded` (all of them when there is
/// none), in order.
pub fn recipients(users: &Vec<String>, excluded: Option<&String>) -> (r: Vec<String>)
    ensures
        names_of(r@) == match excluded {
            Some(ex) => others(names_of(users@), ex@),
            None => names_of(users@),
        },
{
    let mut r: Vec<String> = Vec::new();
    let mut i: usize = 0;
    while i < users.len()
        invariant
            i <= users@.len(),
            names_of(r@) == match excluded {
                Some(ex) => others(names_of(users@.subrange(0, i as int)), ex@),
                None => names_of(users@.subrange(0, i as int)),
            },
        decreases users.len() - i,
    {
        let ghost before = users@.subrange(0, i as int);
        let u = users[i].clone();
        let keep = match excluded {
            Some(ex) => !(u == *ex),
            None => true,
        };
        proof {
            assert(users@.subrange(0, i + 1) =~= before.push(users@[i as int]));
            assert(names_of(users@.subrange(0, i + 1)) =~= names_of(before).push(users@[i as int]@));
            assert(names_of(users@.subrange(0, i + 1)).drop_last() =~= names_of(before));
        }
        if keep {
            let ghost prev = r@;
            r.push(u);
            proof {
                assert(names_of(r@) =~= names_of(prev).push(u@));
            }
        }
        i = i + 1;
    }
    assert(users@.subrange(0, users@.len() as int) =~= users@);
    r
}

/// The announcement sent to a room's members when `name` joins.
pub fn new_user_joined_msg(name: &String) -> (m: ChatMessage)
    ensures
        m.from@ == "Admin"@,
        m.msg@ == joined_text(name@),
{
    let from = String::from_str("Admin");
    let mut msg = String::from_str("New user, ");
    msg.append(name.as_str());
    msg.append(", joined the chat!");
    ChatMessage { from, msg }
}

/// A member other than `excluded` is among the others exactly when it is
/// among the members.
pub proof fn lemma_others_contains(users: Seq<Seq<char>>, excluded: Seq<char>, x: Seq<char>)
    ensures
        others(users, excluded).contains(x) <==> (users.contains(x) && x != excluded),
    decreases users.len(),
{
    if users.len() > 0 {
        let init = users.drop_last();
        lemma_others_contains(init, excluded, x);
        assert(users =~= init.push(users.last()));
        if users.contains(x) && !init.contains(x) {
            assert(x == users.last()) by {
                let j = choose|j: int| 0 <= j < users.len() && users[j] == x;
                if j < init.len() {
                    assert(init[j] == x);
                }
            }
        }
        if init.contains(x) {
            let j = choose|j: int| 0 <= j < init.len() && init[j] == x;
            assert(users[j] == x);
        }
        let rest = others(init, excluded);
        if rest.contains(x) {
            let j = choose|j: int| 0 <= j < rest.len() && rest[j] == x;
            assert(rest.push(users.last())[j] == x);
        }
        if users.last() != excluded {
            assert(rest.push(users.last())[rest.len() as int] == users.last());
            if rest.push(users.last()).contains(x) && x != users.last() {
                let j = choose|j: int| 0 <= j < rest.len() + 1 && rest.push(users.last())[j] == x;
                assert(rest[j] == x);
            }
        }
    } else {
        assert(!users.contains(x));
    }
}

/// With no member named `excluded`, the others are all the members.
pub proof fn lemma_others_all(users: Seq<Seq<char>>, excluded: Seq<char>)
    requires
        !users.contains(excluded),
    ensures
        others(users, excluded) == users,
    decreases users.len(),
{
    if users.len() > 0 {
        let init = users.drop_last();
        if init.contains(excluded) {
            let j = choose|j: int| 0 <= j < init.len() && init[j] == excluded;
            assert(users[j] == excluded);
        }
        lemma_others_all(init, excluded);
        assert(users.last() != excluded) by {
            assert(users[users.len() - 1] == users.last());
        }
        assert(users =~= init.push(users.last()));
    }
}

/// In a room with members `a` and `b`, a chat message from `a` is forwarded
/// to `b` and not back to `a`.
pub proof fn lemma_chat_skips_sender(users: Seq<Seq<char>>, a: Seq<char>, b: Seq<char>, frame: Frame)
    requires
        users.contains(a),
        users.contains(b),
        a != b,
        frame is Text,
    ensures
        forward_targets(users, frame, Some(a)).contains(b),
        !forward_targets(users, frame, Some(a)).contains(a),
{
    lemma_others_contains(users, a, b);
    lemma_others_contains(users, a, a);
}

/// A chat message whose sender is no member is forwarded to every member.
pub proof fn lemma_unknown_sender_reaches_all(users: Seq<Seq<char>>, from: Seq<char>, frame: Frame)
    requires
        !users.contains(from),
        frame is Text,
    ensures
        forward_targets(users, frame, Some(from)) == users,
{
    lemma_others_all(users, from);
}

/// After a room takes in `frames`, whatever they hold and whether or not
/// they decode, its history has grown by exactly those frames.
pub proof fn lemma_history_counts_frames(r: RoomView, frames: Seq<Frame>)
    ensures
        after_frames(r, frames).history == r.history + frames,
        after_frames(r, frames).history.len() == r.history.len() + frames.len(),
    decreases frames.len(),
{
    if frames.len() > 0 {
        lemma_history_counts_frames(r, frames.drop_last());
        assert(r.history + frames =~= (r.history + frames.drop_last()).push(frames.last()));
    } else {
        assert(r.history + frames =~= r.history);
    }
}

/// Appending an item that is absent keeps a sequence free of duplicates.
pub proof fn lemma_push_keeps_unique(s: Seq<Seq<char>>, x: Seq<char>)
    requires
        s.no_duplicates(),
        !s.contains(x),
    ensures
        s.push(x).no_duplicates(),
{
    let t = s.push(x);
    assert forall|i: int, j: int| 0 <= i < t.len() && 0 <= j < t.len() && i != j implies t[i] != t[j] by {
        if i == s.len() as int {
            assert(s.contains(t[j]));
        } else if j == s.len() as int {
            assert(s.contains(t[i]));
        }
    }
}

/// Adds `item` at the end of `v` unless a string with the same text is
/// already there.
pub fn insert_unique(v: &mut Vec<String>, item: String)
    ensures
        names_of(final(v)@) == with_member(names_of(old(v)@), item@),
{
    let mut i: usize = 0;
    while i < v.len()
        invariant
            i <= v@.len(),
            forall|j: int| 0 <= j < i ==> v@[j]@ != item@,
        decreases v.len() - i,
    {
        if v[i] == item {
            proof {
                assert(names_of(v@)[i as int] == item@);
            }
            return;
        }
        i = i + 1;
    }
    let ghost before = names_of(v@);
    proof {
        assert(!before.contains(item@)) by {
            if before.contains(item@) {
                let j = choose|j: int| 0 <= j < before.len() && before[j] == item@;
                assert(v@[j]@ == item@);
            }
        }
    }
    v.push(item);
    proof {
        assert(names_of(v@) =~= before.push(item@));
    }
}

/// A room: identity, members, and the log of every frame taken in.
#[derive(Debug, Clone)]
pub struct ChatData {
    room_id: String,
    room_name: String,
    owner_id: String,
    users: Vec<String>,
    history: Vec<Frame>,
}

impl ChatData {
    pub closed spec fn view(&self) -> RoomView {
        RoomView {
            id: self.room_id@,
            name: self.room_name@,
            owner: self.owner_id@,
            users: names_of(self.users@),
            history: self.history@,
        }
    }

    /// Member names are unique.
    pub open spec fn wf(&self) -> bool {
        self.view().users.no_duplicates()
    }

    /// A new empty room under a fresh id.
    pub fn new(name: String, owner_id: String) -> (d: ChatData)
        ensures
            d.wf(),
            d.view() == fresh_room(d.view().id, name@, owner_id@),
            d.view().id.len() == 36,
    {
        let d = ChatData {
            room_id: fresh_room_id(),
            room_name: name,
            owner_id,
            users: Vec::new(),
            history: Vec::new(),
        };
        assert(d.view().users =~= Seq::<Seq<char>>::empty());
        d
    }

    pub fn id(&self) -> (r: String)
        ensures
            r@ == self.view().id,
    {
        self.room_id.clone()
    }

    pub fn name(&self) -> (r: String)
        ensures
            r@ == self.view().name,
    {
        self.room_name.clone()
    }

    /// Appends a frame to the history.
    pub fn add_message(&mut self, new_msg: Frame)
        ensures
            final(self).view() == after_frame(old(self).view(), new_msg),
    {
        self.history.push(new_msg);
        assert(self.view().users =~= old(self).view().users);
    }

    /// The frames taken in so far, oldest first.
    pub fn history(&self) -> (r: &Vec<Frame>)
        ensures
            r@ == self.view().history,
    {
        &self.history
    }

    /// The member names.
    pub fn users(&self) -> (r: Vec<String>)
        ensures
            names_of(r@) == self.view().users,
    {
        self.users.clone()
    }

    /// Registers a member; a name already present is kept once.
    pub fn add_user(&mut self, user_name: String)
        requires
            old(self).wf(),
        ensures
            final(self).wf(),
            final(self).view() == (RoomView {
                users: with_member(old(self).view().users, user_name@),
                ..old(self).view()
            }),
    {
        let ghost before = names_of(self.users@);
        insert_unique(&mut self.users, user_name);
        proof {
            if !before.contains(user_name@) {
                lemma_push_keeps_unique(before, user_name@);
            }
        }
    }

    /// Whether this room's id is `id`.
    pub fn id_is(&self, id: &String) -> (r: bool)
        ensures
            r == (self.view().id == id@),
    {
        self.room_id == *id
    }

    /// Whether this room's name is exactly `name`.
    pub fn name_is(&self, name: &String) -> (r: bool)
        ensures
            r == (self.view().name == name@),
    {
        self.room_name == *name
    }

    pub fn is_owner(&self, owner_id: &String) -> (r: bool)
        ensures
            r == (self.view().owner == owner_id@),
    {
        self.owner_id == *owner_id
    }

    /// Hands the visitor this room's name, then its member names.
    pub fn extract_room_data<T: Extractor>(&self, extractor: &mut T)
        requires
            old(extractor).inv(),
        ensures
            final(extractor).inv(),
            final(extractor).visits() == old(extractor).visits().push(
                Visit::Name(self.view().name),
            ).push(Visit::Users(self.view().users)),
    {
        extractor.pass_name(self.room_name.clone());
        let users = self.users();
        extractor.handle_users(&users);
    }

    /// A member joins: registers the name and names the members that get the
    /// announcement, which is all of them, the newcomer included.
    pub fn join(&mut self, user_name: String) -> (announce_to: Vec<String>)
        requires
            old(self).wf(),
        ensures
            final(self).wf(),
            final(self).view() == (RoomView {
                users: with_member(old(self).view().users, user_name@),
                ..old(self).view()
            }),
            names_of(announce_to@) == final(self).view().users,
    {
        self.add_user(user_name);
        self.users()
    }

    /// Takes in one frame from a member: logs it, whatever it holds, and
    /// says whom it goes to. `sender` is the `from` of a text frame that
    /// decodes as a chat message, and `None` for one that does not.
    pub fn receive(&mut self, frame: Frame, sender: Option<String>) -> (d: Dispatch)
        requires
            old(self).wf(),
        ensures
            final(self).wf(),
            final(self).view() == after_frame(old(self).view(), frame),
            names_of(d.recipients@) == forward_targets(
                old(self).view().users,
                frame,
                match sender {
                    Some(s) => Some(s@),
                    None => None,
                },
            ),
            d.stop == (frame is Close),
    {
        let ghost f = frame;
        let d = match &frame {
            Frame::Text(_) => match &sender {
                Some(from) => Dispatch { recipients: recipients(&self.users, Some(from)), stop: false },
                None => Dispatch { recipients: Vec::new(), stop: false },
            },
            Frame::Close(_) => Dispatch { recipients: recipients(&self.users, None), stop: true },
            _ => Dispatch { recipients: Vec::new(), stop: false },
        };
        assert(names_of(Seq::<String>::empty()) =~= Seq::<Seq<char>>::empty());
        self.add_message(frame);
        d
    }
}

} // verus!
