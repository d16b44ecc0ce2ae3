//! The values that cross the service's own interface.

use vstd::prelude::*;
use vstd::std_specs::convert::FromSpecImpl;
use crate::database::Session;
use crate::discord::CurrentUserResponse;
use crate::text::opt_text;

verus! {

/// The body of a request to create a group.
#[derive(Debug, PartialEq, Eq)]
pub struct CreateGroupRequest {
    pub guild_id: String,
    pub group_name: String,
    pub group_description: Option<String>,
    pub group_image: Option<String>,
}

/// An identity: who a session belongs to.
#[derive(Debug, PartialEq, Eq)]
pub struct User {
    pub id: String,
    pub name: String,
    pub avatar: Option<String>,
}

/// The mathematical value of a [`User`].
pub struct UserView {
    pub id: Seq<char>,
    pub name: Seq<char>,
    pub avatar: Option<Seq<char>>,
}

impl View for User {
    type V = UserView;

    open spec fn view(&self) -> UserView {
        UserView { id: self.id@, name: self.name@, avatar: opt_text(self.avatar) }
    }
}

impl From<Session> for User {
    fn from(session: Session) -> (user: User) {
        User { id: session.discord_id, name: session.discord_name, avatar: session.discord_avatar }
    }
}

impl FromSpecImpl<Session> for User {
    open spec fn obeys_from_spec() -> bool {
        true
    }

    open spec fn from_spec(session: Session) -> User {
        User { id: session.discord_id, name: session.discord_name, avatar: session.discord_avatar }
    }
}

impl From<CurrentUserResponse> for User {
    fn from(user: CurrentUserResponse) -> (r: User) {
        User { id: user.id, name: user.username, avatar: user.avatar }
    }
}

impl FromSpecImpl<CurrentUserResponse> for User {
    open spec fn obeys_from_spec() -> bool {
        true
    }

    open spec fn from_spec(user: CurrentUserResponse) -> User {
        User { id: user.id, name: user.username, avatar: user.avatar }
    }
}

} // verus!
