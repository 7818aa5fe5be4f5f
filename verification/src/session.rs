//! The mathematical model of a session: its events, its state, and the
//! snapshot that a front end reads from that state.

use crate::follows::{added, followers_in, removed, FollowEdge};
use crate::model::{
    present_in, Change, Location, Participant, ParticipantView, PeerId, User, UserView,
};
use crate::roster::RosterView;
use vstd::prelude::*;

verus! {

/// One notification from the session service.
#[derive(Debug, PartialEq, Eq)]
pub enum Event {
    ParticipantJoined { participant: Participant },
    ParticipantLeft { peer: PeerId },
    LocationChanged { peer: PeerId, location: Location },
    SpeakingChanged { peer: PeerId, speaking: bool },
    MutedChanged { peer: PeerId, muted: bool },
    FollowerAdded { project_id: u64, followed: PeerId, follower: PeerId },
    FollowerRemoved { project_id: u64, followed: PeerId, follower: PeerId },
}

/// Mathematical value of an [`Event`].
pub enum EventView {
    ParticipantJoined { participant: ParticipantView },
    ParticipantLeft { peer: PeerId },
    LocationChanged { peer: PeerId, location: Location },
    SpeakingChanged { peer: PeerId, speaking: bool },
    MutedChanged { peer: PeerId, muted: bool },
    FollowerAdded { project_id: u64, followed: PeerId, follower: PeerId },
    FollowerRemoved { project_id: u64, followed: PeerId, follower: PeerId },
}

impl View for Event {
    type V = EventView;

    open spec fn view(&self) -> EventView {
        match *self {
            Event::ParticipantJoined { participant } => EventView::ParticipantJoined {
                participant: participant@,
            },
            Event::ParticipantLeft { peer } => EventView::ParticipantLeft { peer },
            Event::LocationChanged { peer, location } => EventView::LocationChanged {
                peer,
                location,
            },
            Event::SpeakingChanged { peer, speaking } => EventView::SpeakingChanged {
                peer,
                speaking,
            },
            Event::MutedChanged { peer, muted } => EventView::MutedChanged { peer, muted },
            Event::FollowerAdded { project_id, followed, follower } => EventView::FollowerAdded {
                project_id,
                followed,
                follower,
            },
            Event::FollowerRemoved {
                project_id,
                followed,
                follower,
            } => EventView::FollowerRemoved { project_id, followed, follower },
        }
    }
}

impl Clone for Event {
    fn clone(&self) -> (copy: Self)
        ensures
            copy@ == self@,
    {
        match self {
            Event::ParticipantJoined { participant } => Event::ParticipantJoined {
                participant: participant.clone(),
            },
            Event::ParticipantLeft { peer } => Event::ParticipantLeft { peer: *peer },
            Event::LocationChanged { peer, location } => Event::LocationChanged {
                peer: *peer,
                location: *location,
            },
            Event::SpeakingChanged { peer, speaking } => Event::SpeakingChanged {
                peer: *peer,
                speaking: *speaking,
            },
            Event::MutedChanged { peer, muted } => Event::MutedChanged { peer: *peer, muted: *muted },
            Event::FollowerAdded { project_id, followed, follower } => Event::FollowerAdded {
                project_id: *project_id,
                followed: *followed,
                follower: *follower,
            },
            Event::FollowerRemoved { project_id, followed, follower } => Event::FollowerRemoved {
                project_id: *project_id,
                followed: *followed,
                follower: *follower,
            },
        }
    }
}

/// One line of a snapshot: a participant, whether they are present in the
/// project asked about, and the identities of those who follow them there.
#[derive(Debug, PartialEq, Eq)]
pub struct Entry {
    pub participant: Participant,
    pub is_present: bool,
    pub followers: Vec<User>,
}

/// Mathematical value of an [`Entry`].
pub struct EntryView {
    pub participant: ParticipantView,
    pub is_present: bool,
    pub followers: Seq<UserView>,
}

/// The views of a sequence of users.
pub open spec fn user_views(s: Seq<User>) -> Seq<UserView> {
    s.map_values(|u: User| u@)
}

/// The views of a sequence of entries.
pub open spec fn entry_views(s: Seq<Entry>) -> Seq<EntryView> {
    s.map_values(|e: Entry| e@)
}

impl View for Entry {
    type V = EntryView;

    open spec fn view(&self) -> EntryView {
        EntryView {
            participant: self.participant@,
            is_present: self.is_present,
            followers: user_views(self.followers@),
        }
    }
}

impl Clone for Entry {
    fn clone(&self) -> (copy: Self)
        ensures
            copy@ == self@,
    {
        let followers = self.followers.clone();
        assert(user_views(followers@) =~= user_views(self.followers@));
        Entry { participant: self.participant.clone(), is_present: self.is_present, followers }
    }
}

/// Resolution of peer addresses against `roster`.
pub open spec fn resolver(roster: RosterView) -> spec_fn(PeerId) -> Option<UserView> {
    |peer: PeerId| roster.resolve(peer)
}

/// The state of a session: its roster, its follow relation, and whether it has
/// ended.
pub struct Session {
    pub roster: RosterView,
    pub follows: Seq<FollowEdge>,
    pub ended: bool,
}

impl Session {
    /// The roster is valid, no follow edge is recorded twice, and a session
    /// that has ended holds neither remote participants nor edges.
    pub open spec fn wf(self) -> bool {
        &&& self.roster.wf()
        &&& self.follows.no_duplicates()
        &&& self.ended ==> self.roster.remotes.len() == 0 && self.follows.len() == 0
    }

    /// The session that only `local` has entered.
    pub open spec fn fresh(local: ParticipantView) -> Session {
        Session {
            roster: RosterView { local, remotes: Seq::empty() },
            follows: Seq::empty(),
            ended: false,
        }
    }

    /// The session after it was torn down: the remote participants and the
    /// follow relation are discarded.
    pub open spec fn torn_down(self) -> Session {
        Session {
            roster: RosterView { local: self.roster.local, remotes: Seq::empty() },
            follows: Seq::empty(),
            ended: true,
        }
    }

    /// The session after `event`. A session that has ended takes no event.
    pub open spec fn apply(self, event: EventView) -> Session {
        if self.ended {
            self
        } else {
            match event {
                EventView::ParticipantJoined { participant } => Session {
                    roster: self.roster.joined(participant),
                    ..self
                },
                EventView::ParticipantLeft { peer } => Session {
                    roster: self.roster.left(peer),
                    ..self
                },
                EventView::LocationChanged { peer, location } => Session {
                    roster: self.roster.touched(peer, Change::Location(location)),
                    ..self
                },
                EventView::SpeakingChanged { peer, speaking } => Session {
                    roster: self.roster.touched(peer, Change::Speaking(speaking)),
                    ..self
                },
                EventView::MutedChanged { peer, muted } => Session {
                    roster: self.roster.touched(peer, Change::Muted(muted)),
                    ..self
                },
                EventView::FollowerAdded { project_id, followed, follower } => Session {
                    follows: added(self.follows, FollowEdge { project_id, followed, follower }),
                    ..self
                },
                EventView::FollowerRemoved { project_id, followed, follower } => Session {
                    follows: removed(self.follows, FollowEdge { project_id, followed, follower }),
                    ..self
                },
            }
        }
    }

    /// The identities of those who follow `followed` within `project`: each
    /// follower address is resolved against the roster, and an address that
    /// resolves to nobody is dropped. Nobody follows within an absent project.
    pub open spec fn followers(self, project: Option<u64>, followed: PeerId) -> Seq<UserView> {
        match project {
            Some(id) => followers_in(self.follows, id, followed).filter_map(resolver(self.roster)),
            None => Seq::empty(),
        }
    }

    /// The snapshot line of the local user. The local user is always marked
    /// present: the snapshot is taken for the project that they have before
    /// them, whatever their recorded location and whether or not the project
    /// has an id.
    pub open spec fn local_entry(self, project: Option<u64>) -> EntryView {
        EntryView {
            participant: self.roster.local,
            is_present: true,
            followers: self.followers(project, self.roster.local.peer),
        }
    }

    /// The snapshot line of the remote participant `p` with respect to
    /// `project`: present exactly if located in that project, and so absent
    /// from an absent project.
    pub open spec fn remote_entry(self, p: ParticipantView, project: Option<u64>) -> EntryView {
        EntryView {
            participant: p,
            is_present: present_in(p.location, project),
            followers: self.followers(project, p.peer),
        }
    }

    /// The line of every remote participant with respect to `project`.
    pub open spec fn liner(self, project: Option<u64>) -> spec_fn(ParticipantView) -> EntryView {
        |p: ParticipantView| self.remote_entry(p, project)
    }

    /// The snapshot with respect to `project`: the local user first, then the
    /// remote participants in the order of the roster, which is ascending rank.
    pub open spec fn snapshot(self, project: Option<u64>) -> Seq<EntryView> {
        seq![self.local_entry(project)] + self.roster.remotes.map_values(self.liner(project))
    }
}

} // verus!
