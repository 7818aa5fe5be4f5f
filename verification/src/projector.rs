//! The presence projector: it takes the events of the session service one by
//! one and answers, at any moment, with a consistent snapshot of the session.

use crate::follows::{FollowEdge, FollowRelation};
use crate::model::{Change, Participant, PeerId, User};
use crate::roster::Roster;
use crate::session::{entry_views, resolver, user_views, Entry, Event, Session};
use vstd::prelude::*;

verus! {

/// Why the projector refused a call.
#[derive(Clone, Copy, Debug, PartialEq, Eq, Structural, Hash)]
pub enum ProjectorError {
    /// The session was torn down. Nothing will change that: do not retry.
    SessionEnded,
}

/// A request to the session service.
#[derive(Clone, Copy, Debug, PartialEq, Eq, Structural, Hash)]
pub enum Command {
    Share { project: u64 },
    Unshare { project: u64 },
    SetMuted(bool),
    SetDeafened(bool),
    Follow(PeerId),
}

impl Session {
    /// Whether `command` may go out to the session service. Only a request to
    /// follow can be stale: its target must resolve to someone on the roster.
    pub open spec fn admits(self, command: Command) -> bool {
        match command {
            Command::Follow(peer) => self.roster.resolve(peer) is Some,
            _ => true,
        }
    }

    /// What becomes of `command`: refused once the session has ended,
    /// forwarded if admitted, and dropped silently otherwise.
    pub open spec fn mediate(self, command: Command) -> Result<Option<Command>, ProjectorError> {
        if self.ended {
            Err(ProjectorError::SessionEnded)
        } else if self.admits(command) {
            Ok(Some(command))
        } else {
            Ok(None)
        }
    }
}

/// The presence projector of one session.
pub struct Projector {
    roster: Roster,
    follows: FollowRelation,
    ended: bool,
}

impl View for Projector {
    type V = Session;

    closed spec fn view(&self) -> Session {
        Session { roster: self.roster@, follows: self.follows@, ended: self.ended }
    }
}

impl Projector {
    /// Validity of a projector: that of its session.
    pub open spec fn wf(&self) -> bool {
        self@.wf()
    }

    /// The projector of a session that only `local` has entered.
    pub fn new(local: Participant) -> (projector: Self)
        ensures
            projector.wf(),
            projector@ == Session::fresh(local@),
    {
        Projector { roster: Roster::new(local), follows: FollowRelation::new(), ended: false }
    }

    /// Whether the session was torn down.
    pub fn is_ended(&self) -> (ended: bool)
        ensures
            ended == self@.ended,
    {
        self.ended
    }

    /// Tears the session down: the remote participants and the follow relation
    /// are discarded, and every later call is refused.
    pub fn end(&mut self)
        requires
            old(self).wf(),
        ensures
            final(self).wf(),
            final(self)@ == old(self)@.torn_down(),
    {
        let local = self.roster.local().clone();
        self.roster = Roster::new(local);
        self.follows = FollowRelation::new();
        self.ended = true;
    }

    /// Takes one event of the session service.
    pub fn apply(&mut self, event: Event) -> (outcome: Result<(), ProjectorError>)
        requires
            old(self).wf(),
        ensures
            final(self).wf(),
            final(self)@ == old(self)@.apply(event@),
            outcome == if old(self)@.ended {
                Err::<(), ProjectorError>(ProjectorError::SessionEnded)
            } else {
                Ok::<(), ProjectorError>(())
            },
    {
        if self.ended {
            return Err(ProjectorError::SessionEnded);
        }
        match event {
            Event::ParticipantJoined { participant } => {
                self.roster.join(participant);
            },
            Event::ParticipantLeft { peer } => {
                self.roster.leave(peer);
            },
            Event::LocationChanged { peer, location } => {
                self.roster.touch(peer, Change::Location(location));
            },
            Event::SpeakingChanged { peer, speaking } => {
                self.roster.touch(peer, Change::Speaking(speaking));
            },
            Event::MutedChanged { peer, muted } => {
                self.roster.touch(peer, Change::Muted(muted));
            },
            Event::FollowerAdded { project_id, followed, follower } => {
                self.follows.add(FollowEdge { project_id, followed, follower });
            },
            Event::FollowerRemoved { project_id, followed, follower } => {
                self.follows.remove(FollowEdge { project_id, followed, follower });
            },
        }
        Ok(())
    }

    /// The identity behind `peer`, if the address belongs to anyone in the
    /// session.
    pub fn resolve(&self, peer: PeerId) -> (found: Result<Option<User>, ProjectorError>)
        ensures
            match found {
                Ok(Some(user)) => !self@.ended && self@.roster.resolve(peer) == Some(user@),
                Ok(None) => !self@.ended && self@.roster.resolve(peer) is None,
                Err(error) => self@.ended && error == ProjectorError::SessionEnded,
            },
    {
        if self.ended {
            return Err(ProjectorError::SessionEnded);
        }
        match self.roster.resolve(peer) {
            Some(user) => Ok(Some(user.clone())),
            None => Ok(None),
        }
    }

    /// The identities of those who follow `followed` within `project`.
    fn followers(&self, project: Option<u64>, followed: PeerId) -> (followers: Vec<User>)
        ensures
            user_views(followers@) == self@.followers(project, followed),
    {
        let mut followers: Vec<User> = Vec::new();
        match project {
            None => {
                assert(user_views(followers@) =~= Seq::empty());
            },
            Some(id) => {
                let peers = self.follows.followers(id, followed);
                let mut i: usize = 0;
                assert(user_views(followers@) =~= Seq::empty());
                while i < peers.len()
                    invariant
                        i <= peers.len(),
                        user_views(followers@) == peers@.take(i as int).filter_map(
                            resolver(self.roster@),
                        ),
                    decreases peers.len() - i,
                {
                    proof {
                        peers@.lemma_filter_map_take_succ(resolver(self.roster@), i as int);
                    }
                    let ghost earlier = user_views(followers@);
                    match self.roster.resolve(peers[i]) {
                        Some(user) => {
                            followers.push(user.clone());
                            assert(user_views(followers@) =~= earlier + seq![user@]);
                        },
                        None => {},
                    }
                    i += 1;
                }
                assert(peers@.take(i as int) =~= peers@);
            },
        }
        followers
    }

    /// The snapshot line of the local user.
    fn local_entry(&self, project: Option<u64>) -> (entry: Entry)
        ensures
            entry@ == self@.local_entry(project),
    {
        let local = self.roster.local();
        Entry {
            participant: local.clone(),
            is_present: true,
            followers: self.followers(project, local.peer),
        }
    }

    /// The snapshot line of the remote participant `p` with respect to
    /// `project`.
    fn remote_entry(&self, p: &Participant, project: Option<u64>) -> (entry: Entry)
        ensures
            entry@ == self@.remote_entry(p@, project),
    {
        Entry {
            participant: p.clone(),
            is_present: p.is_present_in(project),
            followers: self.followers(project, p.peer),
        }
    }

    /// A consistent view of the session with respect to `project`: the local
    /// user first, always marked present, then the remote participants in
    /// ascending rank, each with their presence in `project`; every line has
    /// the identities of those who follow its participant there. The result
    /// is a copy; later events do not reach it.
    pub fn snapshot(&self, project: Option<u64>) -> (outcome: Result<Vec<Entry>, ProjectorError>)
        requires
            self.wf(),
        ensures
            match outcome {
                Ok(entries) => {
                    &&& !self@.ended
                    &&& entry_views(entries@) == self@.snapshot(project)
                    &&& forall|i: int, j: int|
                        1 <= i < j < entries@.len() ==> entries@[i].participant.rank
                            <= entries@[j].participant.rank
                },
                Err(error) => self@.ended && error == ProjectorError::SessionEnded,
            },
    {
        if self.ended {
            return Err(ProjectorError::SessionEnded);
        }
        let mut entries: Vec<Entry> = Vec::new();
        entries.push(self.local_entry(project));
        let count = self.roster.remote_count();
        let mut i: usize = 0;
        assert(entry_views(entries@) =~= seq![self@.local_entry(project)]);
        while i < count
            invariant
                i <= count,
                count == self@.roster.remotes.len(),
                entries@.len() == i + 1,
                entry_views(entries@) == seq![self@.local_entry(project)]
                    + self@.roster.remotes.take(i as int).map_values(self@.liner(project)),
            decreases count - i,
        {
            let ghost earlier = entry_views(entries@);
            let entry = self.remote_entry(self.roster.remote(i), project);
            entries.push(entry);
            assert(entry_views(entries@) =~= earlier.push(entry@));
            assert(self@.roster.remotes.take(i + 1).map_values(self@.liner(project))
                =~= self@.roster.remotes.take(i as int).map_values(self@.liner(project)).push(
                entry@,
            ));
            i += 1;
        }
        assert(self@.roster.remotes.take(i as int) =~= self@.roster.remotes);
        assert forall|i: int, j: int| 1 <= i < j < entries@.len() implies entries@[i].participant.rank
            <= entries@[j].participant.rank by {
            assert(entry_views(entries@)[i].participant == self@.roster.remotes[i - 1]);
            assert(entry_views(entries@)[j].participant == self@.roster.remotes[j - 1]);
        }
        Ok(entries)
    }

    /// Passes `command` on to the session service, or drops it.
    pub fn dispatch(&self, command: Command) -> (outcome: Result<Option<Command>, ProjectorError>)
        ensures
            outcome == self@.mediate(command),
    {
        if self.ended {
            return Err(ProjectorError::SessionEnded);
        }
        match command {
            Command::Follow(peer) => match self.roster.resolve(peer) {
                Some(_) => Ok(Some(command)),
                None => Ok(None),
            },
            _ => Ok(Some(command)),
        }
    }

    /// A request to follow `peer`, unless the address has gone stale.
    pub fn follow(&self, peer: PeerId) -> (outcome: Result<Option<Command>, ProjectorError>)
        ensures
            outcome == self@.mediate(Command::Follow(peer)),
    {
        self.dispatch(Command::Follow(peer))
    }

    /// A request to share `project`.
    pub fn share(&self, project: u64) -> (outcome: Result<Option<Command>, ProjectorError>)
        ensures
            outcome == self@.mediate(Command::Share { project }),
    {
        self.dispatch(Command::Share { project })
    }

    /// A request to stop sharing `project`.
    pub fn unshare(&self, project: u64) -> (outcome: Result<Option<Command>, ProjectorError>)
        ensures
            outcome == self@.mediate(Command::Unshare { project }),
    {
        self.dispatch(Command::Unshare { project })
    }

    /// A request to mute or unmute the local microphone.
    pub fn set_muted(&self, muted: bool) -> (outcome: Result<Option<Command>, ProjectorError>)
        ensures
            outcome == self@.mediate(Command::SetMuted(muted)),
    {
        self.dispatch(Command::SetMuted(muted))
    }

    /// A request to deafen or undeafen the local user.
    pub fn set_deafened(&self, deafened: bool) -> (outcome: Result<
        Option<Command>,
        ProjectorError,
    >)
        ensures
            outcome == self@.mediate(Command::SetDeafened(deafened)),
    {
        self.dispatch(Command::SetDeafened(deafened))
    }
}

} // verus!
