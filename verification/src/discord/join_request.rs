use vstd::prelude::*;

verus! {

/// A user who asks to join the player's game.
#[derive(Default, Clone, Hash, PartialEq, Debug)]
pub struct JoinRequest {
    pub user_id: String,
    pub username: String,
    pub discriminator: String,
    pub avatar: String,
}

/// The answer to a join request.
#[derive(Clone, Copy, Hash, PartialEq, Eq, Structural, Debug)]
pub enum JoinRequestReply {
    No,
    Yes,
    Ignore,
}

} // verus!
