//! A member of a room, as known to the room's session pump.
use vstd::prelude::*;

verus! {

/// A member's display name, chosen at the join handshake.
#[derive(Debug, Clone)]
pub struct User {
    name: String,
}

impl User {
    pub closed spec fn view(&self) -> Seq<char> {
        self.name@
    }

    pub fn new(name: String) -> (u: User)
        ensures
            u.view() == name@,
    {
        User { name }
    }

    pub fn name(&self) -> (r: String)
        ensures
            r@ == self.view(),
    {
        self.name.clone()
    }
}

} // verus!
