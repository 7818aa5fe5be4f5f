//! The plain data of a session: peers, users, participants and their views.

use vstd::prelude::*;

verus! {

/// A transient, connection-scoped address. A participant gets a new one with
/// every connection, so it must never be used as a stable identity.
#[derive(Clone, Copy, Debug, PartialEq, Eq, Structural, Hash)]
pub struct PeerId {
    pub owner_id: u32,
    pub id: u32,
}

/// Where a participant currently is, as far as the session knows.
#[derive(Clone, Copy, Debug, PartialEq, Eq, Structural, Hash)]
pub enum Location {
    NotSharing,
    SharedProject { project_id: u64 },
    UnsharedProject,
}

/// What the avatar of a participant signals about their microphone.
#[derive(Clone, Copy, Debug, PartialEq, Eq, Structural, Hash)]
pub enum Indicator {
    Speaking,
    Muted,
    Idle,
}

/// One field of a participant that the session may overwrite.
#[derive(Clone, Copy, Debug, PartialEq, Eq, Structural, Hash)]
pub enum Change {
    Location(Location),
    Speaking(bool),
    Muted(bool),
}

/// The displayable identity of a user.
#[derive(Debug, PartialEq, Eq, Hash)]
pub struct User {
    /// Stable identity, unique across the roster.
    pub id: u64,
    /// Display handle.
    pub handle: String,
    /// Reference to the avatar image.
    pub avatar: String,
}

/// Mathematical value of a [`User`].
pub struct UserView {
    pub id: u64,
    pub handle: Seq<char>,
    pub avatar: Seq<char>,
}

impl View for User {
    type V = UserView;

    open spec fn view(&self) -> UserView {
        UserView { id: self.id, handle: self.handle@, avatar: self.avatar@ }
    }
}

impl Clone for User {
    fn clone(&self) -> (copy: Self)
        ensures
            copy@ == self@,
    {
        User { id: self.id, handle: self.handle.clone(), avatar: self.avatar.clone() }
    }
}

/// One user currently associated with the session, local or remote.
#[derive(Debug, PartialEq, Eq, Hash)]
pub struct Participant {
    pub user: User,
    pub peer: PeerId,
    /// Session rank: the key of the display order.
    pub rank: u32,
    pub location: Location,
    pub speaking: bool,
    pub muted: bool,
}

/// Mathematical value of a [`Participant`].
pub struct ParticipantView {
    pub user: UserView,
    pub peer: PeerId,
    pub rank: u32,
    pub location: Location,
    pub speaking: bool,
    pub muted: bool,
}

impl View for Participant {
    type V = ParticipantView;

    open spec fn view(&self) -> ParticipantView {
        ParticipantView {
            user: self.user@,
            peer: self.peer,
            rank: self.rank,
            location: self.location,
            speaking: self.speaking,
            muted: self.muted,
        }
    }
}

impl Clone for Participant {
    fn clone(&self) -> (copy: Self)
        ensures
            copy@ == self@,
    {
        Participant {
            user: self.user.clone(),
            peer: self.peer,
            rank: self.rank,
            location: self.location,
            speaking: self.speaking,
            muted: self.muted,
        }
    }
}

/// Whether `location` lies in `project`. No location lies in an absent
/// project.
pub open spec fn present_in(location: Location, project: Option<u64>) -> bool {
    match project {
        Some(id) => location == (Location::SharedProject { project_id: id }),
        None => false,
    }
}

/// The indicator for the given microphone state: speaking wins over muted.
pub open spec fn indicator_of(speaking: bool, muted: bool) -> Indicator {
    if speaking {
        Indicator::Speaking
    } else if muted {
        Indicator::Muted
    } else {
        Indicator::Idle
    }
}

/// `q` with `change` written into it.
pub open spec fn changed(q: ParticipantView, change: Change) -> ParticipantView {
    match change {
        Change::Location(location) => ParticipantView { location, ..q },
        Change::Speaking(speaking) => ParticipantView { speaking, ..q },
        Change::Muted(muted) => ParticipantView { muted, ..q },
    }
}

impl Participant {
    /// A participant who has just connected: not sharing, silent, not muted.
    pub fn new(user: User, peer: PeerId, rank: u32) -> (participant: Self)
        ensures
            participant@ == (ParticipantView {
                user: user@,
                peer,
                rank,
                location: Location::NotSharing,
                speaking: false,
                muted: false,
            }),
    {
        Participant {
            user,
            peer,
            rank,
            location: Location::NotSharing,
            speaking: false,
            muted: false,
        }
    }

    /// Whether this participant's location lies in `project`.
    pub fn is_present_in(&self, project: Option<u64>) -> (present: bool)
        ensures
            present == present_in(self@.location, project),
    {
        match project {
            Some(id) => self.location == (Location::SharedProject { project_id: id }),
            None => false,
        }
    }

    /// Overwrites the one field that `change` names.
    pub fn amend(&mut self, change: Change)
        ensures
            final(self)@ == changed(old(self)@, change),
    {
        match change {
            Change::Location(location) => {
                self.location = location;
            },
            Change::Speaking(speaking) => {
                self.speaking = speaking;
            },
            Change::Muted(muted) => {
                self.muted = muted;
            },
        }
    }

    /// What this participant's avatar signals.
    pub fn indicator(&self) -> (indicator: Indicator)
        ensures
            indicator == indicator_of(self@.speaking, self@.muted),
    {
        if self.speaking {
            Indicator::Speaking
        } else if self.muted {
            Indicator::Muted
        } else {
            Indicator::Idle
        }
    }
}

} // verus!
