//! The remote part of the roster: a sequence of participants kept in
//! ascending rank, in which no peer address and no identity occurs twice.

use crate::model::{changed, Change, Participant, ParticipantView, PeerId, User, UserView};
use crate::seq_facts::{
    lemma_filter_drops_all, lemma_filter_keeps_all, lemma_filter_order, lemma_filter_source,
    lemma_filter_step,
};
use vstd::prelude::*;

verus! {

/// The views of a sequence of participants.
pub open spec fn views(s: Seq<Participant>) -> Seq<ParticipantView> {
    s.map_values(|p: Participant| p@)
}

/// Ranks never decrease along `s`.
pub open spec fn ranked(s: Seq<ParticipantView>) -> bool {
    forall|i: int, j: int| 0 <= i < j < s.len() ==> s[i].rank <= s[j].rank
}

/// No peer address and no identity occurs twice in `s`.
pub open spec fn distinct(s: Seq<ParticipantView>) -> bool {
    forall|i: int, j: int|
        0 <= i < j < s.len() ==> s[i].peer != s[j].peer && s[i].user.id != s[j].user.id
}

/// Neither `peer` nor `identity` occurs in `s`.
pub open spec fn vacant(s: Seq<ParticipantView>, peer: PeerId, identity: u64) -> bool {
    forall|i: int| 0 <= i < s.len() ==> s[i].peer != peer && s[i].user.id != identity
}

/// The participants that neither hold `peer` nor, where one is given, have
/// `identity`.
pub open spec fn apart_from(peer: PeerId, identity: Option<u64>) -> spec_fn(
    ParticipantView,
) -> bool {
    |q: ParticipantView| q.peer != peer && (identity matches Some(id) ==> q.user.id != id)
}

/// The participants whose rank is at most `rank`.
pub open spec fn up_to(rank: u32) -> spec_fn(ParticipantView) -> bool {
    |q: ParticipantView| q.rank <= rank
}

/// The participants that hold `peer`.
pub open spec fn held_by(peer: PeerId) -> spec_fn(ParticipantView) -> bool {
    |q: ParticipantView| q.peer == peer
}

/// Writes `change` into the participant that holds `peer` and leaves every
/// other participant as it is.
pub open spec fn touch(peer: PeerId, change: Change) -> spec_fn(ParticipantView) -> ParticipantView {
    |q: ParticipantView|
        if q.peer == peer {
            changed(q, change)
        } else {
            q
        }
}

/// `s` without the participants that hold `peer` or have `identity`.
pub open spec fn without(s: Seq<ParticipantView>, peer: PeerId, identity: Option<u64>) -> Seq<
    ParticipantView,
> {
    s.filter(apart_from(peer, identity))
}

/// The place of a newcomer of rank `rank`: behind everyone of that rank or
/// less.
pub open spec fn slot(s: Seq<ParticipantView>, rank: u32) -> int {
    s.filter(up_to(rank)).len() as int
}

/// `s` with `p` in its place.
pub open spec fn seated(s: Seq<ParticipantView>, p: ParticipantView) -> Seq<ParticipantView> {
    s.insert(slot(s, p.rank), p)
}

/// The roster after `p` has joined: whoever held the peer address or the
/// identity of `p` has made way, and `p` stands at the place of its rank.
pub open spec fn enrolled(s: Seq<ParticipantView>, p: ParticipantView) -> Seq<ParticipantView> {
    seated(without(s, p.peer, Some(p.user.id)), p)
}

/// The participant of `s` that holds `peer`, if there is one.
pub open spec fn holder(s: Seq<ParticipantView>, peer: PeerId) -> Option<ParticipantView> {
    let found = s.filter(held_by(peer));
    if found.len() > 0 {
        Some(found[0])
    } else {
        None
    }
}

/// In a ranked roster the slot of a rank parts those of at most that rank
/// from those above it.
pub proof fn lemma_slot_parts(s: Seq<ParticipantView>, rank: u32)
    requires
        ranked(s),
    ensures
        0 <= slot(s, rank) <= s.len(),
        forall|i: int| 0 <= i < slot(s, rank) ==> (#[trigger] s[i]).rank <= rank,
        forall|i: int| slot(s, rank) <= i < s.len() ==> (#[trigger] s[i]).rank > rank,
    decreases s.len(),
{
    reveal(Seq::filter);
    if s.len() > 0 {
        if s.last().rank <= rank {
            assert forall|i: int| 0 <= i < s.len() implies up_to(rank)(#[trigger] s[i]) by {
                if i < s.len() - 1 {
                    assert(s[i].rank <= s[s.len() - 1].rank);
                }
            }
            lemma_filter_keeps_all(s, up_to(rank));
        } else {
            let front = s.drop_last();
            assert(ranked(front)) by {
                assert forall|i: int, j: int| 0 <= i < j < front.len() implies front[i].rank
                    <= front[j].rank by {
                    assert(s[i].rank <= s[j].rank);
                }
            }
            lemma_slot_parts(front, rank);
            assert forall|i: int| 0 <= i < slot(s, rank) implies (#[trigger] s[i]).rank <= rank by {
                assert(front[i].rank <= rank);
            }
            assert forall|i: int| slot(s, rank) <= i < s.len() implies (#[trigger] s[i]).rank
                > rank by {
                if i < s.len() - 1 {
                    assert(front[i].rank > rank);
                }
            }
        }
    }
}

/// The one index that parts a ranked roster at `rank` is the slot of `rank`.
pub proof fn lemma_slot_found(s: Seq<ParticipantView>, rank: u32, at: int)
    requires
        ranked(s),
        0 <= at <= s.len(),
        forall|i: int| 0 <= i < at ==> (#[trigger] s[i]).rank <= rank,
        at < s.len() ==> s[at].rank > rank,
    ensures
        at == slot(s, rank),
{
    lemma_slot_parts(s, rank);
    let k = slot(s, rank);
    if at < k {
        assert(s[at].rank <= rank);
    }
    if k < at {
        assert(s[k].rank <= rank);
        assert(s[k].rank > rank);
    }
}

/// Seating a participant keeps the roster ranked.
pub proof fn lemma_seated_ranked(s: Seq<ParticipantView>, p: ParticipantView)
    requires
        ranked(s),
    ensures
        ranked(seated(s, p)),
{
    lemma_slot_parts(s, p.rank);
    let k = slot(s, p.rank);
    let t = seated(s, p);
    assert forall|i: int, j: int| 0 <= i < j < t.len() implies t[i].rank <= t[j].rank by {
        if j < k {
            assert(t[i] == s[i] && t[j] == s[j]);
        } else if j == k {
            assert(t[i] == s[i]);
        } else if i < k {
            assert(t[i] == s[i] && t[j] == s[j - 1]);
            if i < j - 1 {
                assert(s[i].rank <= s[j - 1].rank);
            }
        } else if i == k {
            assert(t[j] == s[j - 1]);
        } else {
            assert(t[i] == s[i - 1] && t[j] == s[j - 1]);
            assert(s[i - 1].rank <= s[j - 1].rank);
        }
    }
}

/// Seating a participant whose peer address and identity are not in use keeps
/// the roster distinct.
pub proof fn lemma_seated_distinct(s: Seq<ParticipantView>, p: ParticipantView)
    requires
        distinct(s),
        vacant(s, p.peer, p.user.id),
    ensures
        distinct(seated(s, p)),
{
    s.lemma_filter_len(up_to(p.rank));
    let k = slot(s, p.rank);
    let t = seated(s, p);
    assert forall|i: int, j: int| 0 <= i < j < t.len() implies t[i].peer != t[j].peer
        && t[i].user.id != t[j].user.id by {
        let a = if i < k { i } else { i - 1 };
        let b = if j < k { j } else { j - 1 };
        if i != k && j != k {
            assert(t[i] == s[a] && t[j] == s[b]);
            assert(a < b);
        } else if i == k {
            assert(t[j] == s[b]);
        } else {
            assert(t[i] == s[a]);
        }
    }
}

/// Seating a participant leaves vacant what neither the roster nor the
/// newcomer uses.
pub proof fn lemma_seated_vacant(
    s: Seq<ParticipantView>,
    p: ParticipantView,
    peer: PeerId,
    identity: u64,
)
    requires
        vacant(s, peer, identity),
        p.peer != peer,
        p.user.id != identity,
    ensures
        vacant(seated(s, p), peer, identity),
{
    s.lemma_filter_len(up_to(p.rank));
    let k = slot(s, p.rank);
    let t = seated(s, p);
    assert forall|i: int| 0 <= i < t.len() implies t[i].peer != peer && t[i].user.id
        != identity by {
        if i < k {
            assert(t[i] == s[i]);
        } else if i > k {
            assert(t[i] == s[i - 1]);
        }
    }
}

/// Removing participants keeps a roster ranked and distinct, and whoever is
/// removed for a peer address and an identity leaves both vacant.
pub proof fn lemma_without_keeps(s: Seq<ParticipantView>, peer: PeerId, identity: Option<u64>)
    ensures
        ranked(s) ==> ranked(without(s, peer, identity)),
        distinct(s) ==> distinct(without(s, peer, identity)),
        forall|i: int|
            0 <= i < without(s, peer, identity).len() ==> (#[trigger] without(
                s,
                peer,
                identity,
            )[i]).peer != peer,
        identity matches Some(id) ==> vacant(without(s, peer, identity), peer, id),
        forall|other: PeerId, id: u64|
            vacant(s, other, id) ==> vacant(without(s, peer, identity), other, id),
{
    let keep = apart_from(peer, identity);
    let t = without(s, peer, identity);
    assert forall|i: int| 0 <= i < t.len() implies (#[trigger] t[i]).peer != peer && (
    identity matches Some(id) ==> t[i].user.id != id) by {
        s.lemma_filter_pred(keep, i);
    }
    if ranked(s) {
        assert forall|i: int, j: int| 0 <= i < j < t.len() implies t[i].rank <= t[j].rank by {
            let at = lemma_filter_order(s, keep, i, j);
            assert(s[at.0].rank <= s[at.1].rank);
        }
    }
    if distinct(s) {
        assert forall|i: int, j: int| 0 <= i < j < t.len() implies t[i].peer != t[j].peer
            && t[i].user.id != t[j].user.id by {
            let at = lemma_filter_order(s, keep, i, j);
            assert(s[at.0].peer != s[at.1].peer);
        }
    }
    assert forall|other: PeerId, id: u64| vacant(s, other, id) implies vacant(t, other, id) by {
        assert forall|i: int| 0 <= i < t.len() implies t[i].peer != other && t[i].user.id
            != id by {
            let a = lemma_filter_source(s, keep, i);
            assert(s[a].peer != other);
        }
    }
}

/// Writing a field changes neither the order nor who is on the roster.
pub proof fn lemma_touch_keeps(s: Seq<ParticipantView>, peer: PeerId, change: Change)
    ensures
        ranked(s) ==> ranked(s.map_values(touch(peer, change))),
        distinct(s) ==> distinct(s.map_values(touch(peer, change))),
        forall|other: PeerId, id: u64|
            vacant(s, other, id) ==> vacant(s.map_values(touch(peer, change)), other, id),
{
    let t = s.map_values(touch(peer, change));
    assert forall|i: int| 0 <= i < t.len() implies (#[trigger] t[i]).rank == s[i].rank
        && t[i].peer == s[i].peer && t[i].user == s[i].user by {}
    if ranked(s) {
        assert forall|i: int, j: int| 0 <= i < j < t.len() implies t[i].rank <= t[j].rank by {
            assert(s[i].rank <= s[j].rank);
        }
    }
    if distinct(s) {
        assert forall|i: int, j: int| 0 <= i < j < t.len() implies t[i].peer != t[j].peer
            && t[i].user.id != t[j].user.id by {
            assert(s[i].peer != s[j].peer);
        }
    }
    assert forall|other: PeerId, id: u64| vacant(s, other, id) implies vacant(t, other, id) by {
        assert forall|i: int| 0 <= i < t.len() implies t[i].peer != other && t[i].user.id
            != id by {
            assert(s[i].peer != other);
        }
    }
}

/// The holder of a peer address is the first participant with that address.
pub proof fn lemma_holder_first(s: Seq<ParticipantView>, peer: PeerId, at: int)
    requires
        0 <= at <= s.len(),
        forall|i: int| 0 <= i < at ==> (#[trigger] s[i]).peer != peer,
        at < s.len() ==> s[at].peer == peer,
    ensures
        holder(s, peer) == if at < s.len() {
            Some(s[at])
        } else {
            None
        },
{
    let head = s.take(at);
    let tail = s.skip(at);
    assert(s =~= head + tail);
    Seq::filter_distributes_over_add(head, tail, held_by(peer));
    assert forall|i: int| 0 <= i < head.len() implies !held_by(peer)(#[trigger] head[i]) by {
        assert(head[i] == s[i]);
    }
    lemma_filter_drops_all(head, held_by(peer));
    if at < s.len() {
        let rest = tail.skip(1);
        assert(tail =~= seq![s[at]] + rest);
        rest.lemma_filter_prepend(s[at], held_by(peer));
        assert(s.filter(held_by(peer)) =~= seq![s[at]] + rest.filter(held_by(peer)));
    } else {
        assert(tail =~= Seq::<ParticipantView>::empty());
        lemma_filter_drops_all(tail, held_by(peer));
    }
}

/// The participants of a session: the local user, who is always there, and
/// the remote participants in ascending rank.
pub struct Roster {
    local: Participant,
    remotes: Vec<Participant>,
}

/// Mathematical value of a [`Roster`].
pub struct RosterView {
    pub local: ParticipantView,
    pub remotes: Seq<ParticipantView>,
}

impl RosterView {
    /// Peer addresses and identities are unique over the whole roster, and the
    /// remote participants stand in ascending rank.
    pub open spec fn wf(self) -> bool {
        &&& ranked(self.remotes)
        &&& distinct(self.remotes)
        &&& vacant(self.remotes, self.local.peer, self.local.user.id)
    }

    /// Whether `p` claims the peer address or the identity of the local user.
    pub open spec fn shadows_local(self, p: ParticipantView) -> bool {
        p.peer == self.local.peer || p.user.id == self.local.user.id
    }

    /// The roster after `p` has joined. A participant who claims the peer
    /// address or the identity of the local user is not admitted.
    pub open spec fn joined(self, p: ParticipantView) -> RosterView {
        if self.shadows_local(p) {
            self
        } else {
            RosterView { remotes: enrolled(self.remotes, p), ..self }
        }
    }

    /// The roster after the remote participant at `peer` has left.
    pub open spec fn left(self, peer: PeerId) -> RosterView {
        RosterView { remotes: without(self.remotes, peer, None), ..self }
    }

    /// The roster after `change` was written into whoever holds `peer`.
    pub open spec fn touched(self, peer: PeerId, change: Change) -> RosterView {
        RosterView {
            local: touch(peer, change)(self.local),
            remotes: self.remotes.map_values(touch(peer, change)),
        }
    }

    /// The identity behind `peer`: that of the remote participant who holds the
    /// address, else that of the local user if the address is theirs.
    pub open spec fn resolve(self, peer: PeerId) -> Option<UserView> {
        match holder(self.remotes, peer) {
            Some(p) => Some(p.user),
            None => if self.local.peer == peer {
                Some(self.local.user)
            } else {
                None
            },
        }
    }
}

impl View for Roster {
    type V = RosterView;

    closed spec fn view(&self) -> RosterView {
        RosterView { local: self.local@, remotes: views(self.remotes@) }
    }
}

/// Removes from `remotes` whoever holds `peer` or, where one is given, has
/// `identity`.
fn evict(remotes: &mut Vec<Participant>, peer: PeerId, identity: Option<u64>)
    ensures
        views(final(remotes)@) == without(views(old(remotes)@), peer, identity),
{
    let ghost before = views(remotes@);
    let ghost keep = apart_from(peer, identity);
    let ghost mut judged: int = 0;
    let mut i: usize = 0;
    while i < remotes.len()
        invariant
            keep == apart_from(peer, identity),
            0 <= judged <= before.len(),
            i <= remotes.len(),
            remotes.len() - i == before.len() - judged,
            i == before.take(judged).filter(keep).len(),
            views(remotes@) == before.take(judged).filter(keep) + before.skip(judged),
        decreases remotes.len() - i,
    {
        proof {
            lemma_filter_step(before, judged, keep);
            assert(views(remotes@)[i as int] == before[judged]);
        }
        let stays = remotes[i].peer != peer && match identity {
            Some(id) => remotes[i].user.id != id,
            None => true,
        };
        let ghost earlier = views(remotes@);
        let ghost kept = before.take(judged).filter(keep);
        proof {
            assert(remotes@[i as int]@ == before[judged]);
            assert(stays == keep(before[judged]));
            assert(before.skip(judged) =~= seq![before[judged]] + before.skip(judged + 1));
        }
        if stays {
            i += 1;
            assert(earlier =~= kept.push(before[judged]) + before.skip(judged + 1));
        } else {
            let _ = remotes.remove(i);
            assert(views(remotes@) =~= earlier.remove(i as int));
            assert(earlier.remove(i as int) =~= kept + before.skip(judged + 1));
        }
        proof {
            judged = judged + 1;
        }
    }
    assert(before.take(judged) =~= before);
    assert(views(remotes@) =~= before.filter(keep));
}

/// Puts `p` at the place of its rank.
fn seat(remotes: &mut Vec<Participant>, p: Participant)
    requires
        ranked(views(old(remotes)@)),
    ensures
        views(final(remotes)@) == seated(views(old(remotes)@), p@),
{
    let ghost before = views(remotes@);
    let mut at: usize = 0;
    while at < remotes.len() && remotes[at].rank <= p.rank
        invariant
            at <= remotes.len(),
            forall|i: int| 0 <= i < at ==> (#[trigger] views(remotes@)[i]).rank <= p.rank,
        decreases remotes.len() - at,
    {
        at += 1;
    }
    proof {
        lemma_slot_found(before, p.rank, at as int);
    }
    remotes.insert(at, p);
    assert(views(remotes@) =~= before.insert(at as int, p@));
}

/// Writes `change` into every entry of `remotes` that holds `peer`.
fn retouch(remotes: &mut Vec<Participant>, peer: PeerId, change: Change)
    ensures
        views(final(remotes)@) == views(old(remotes)@).map_values(touch(peer, change)),
{
    let ghost before = views(remotes@);
    let mut i: usize = 0;
    while i < remotes.len()
        invariant
            i <= remotes.len(),
            remotes.len() == before.len(),
            forall|k: int|
                0 <= k < i ==> (#[trigger] views(remotes@)[k]) == touch(peer, change)(before[k]),
            forall|k: int| i <= k < remotes.len() ==> (#[trigger] views(remotes@)[k]) == before[k],
        decreases remotes.len() - i,
    {
        let ghost earlier = remotes@;
        if remotes[i].peer == peer {
            remotes[i].amend(change);
        }
        assert forall|k: int| 0 <= k < remotes.len() implies (#[trigger] views(remotes@)[k]) == (
        if k == i {
            touch(peer, change)(before[k])
        } else {
            views(earlier)[k]
        }) by {
            if k != i {
                assert(remotes@[k] == earlier[k]);
            } else {
                assert(views(earlier)[k] == before[k]);
            }
        }
        i += 1;
    }
    assert(views(remotes@) =~= before.map_values(touch(peer, change)));
}

impl Roster {
    /// Validity of a roster: that of its value.
    pub open spec fn wf(&self) -> bool {
        self@.wf()
    }

    /// The roster of a session that only the local user has entered.
    pub fn new(local: Participant) -> (roster: Self)
        ensures
            roster.wf(),
            roster@ == (RosterView { local: local@, remotes: Seq::empty() }),
    {
        let roster = Roster { local, remotes: Vec::new() };
        assert(views(roster.remotes@) =~= Seq::empty());
        roster
    }

    /// The local user.
    pub fn local(&self) -> (local: &Participant)
        ensures
            local@ == self@.local,
    {
        &self.local
    }

    /// The number of remote participants.
    pub fn remote_count(&self) -> (count: usize)
        ensures
            count == self@.remotes.len(),
    {
        self.remotes.len()
    }

    /// The remote participant at place `i` of the rank order.
    pub fn remote(&self, i: usize) -> (remote: &Participant)
        requires
            i < self@.remotes.len(),
        ensures
            remote@ == self@.remotes[i as int],
    {
        &self.remotes[i]
    }

    /// Admits `p` to the roster.
    pub fn join(&mut self, p: Participant)
        requires
            old(self).wf(),
        ensures
            final(self).wf(),
            final(self)@ == old(self)@.joined(p@),
    {
        if p.peer == self.local.peer || p.user.id == self.local.user.id {
            return ;
        }
        let ghost before = self@;
        evict(&mut self.remotes, p.peer, Some(p.user.id));
        proof {
            lemma_without_keeps(before.remotes, p@.peer, Some(p@.user.id));
            let rest = without(before.remotes, p@.peer, Some(p@.user.id));
            lemma_seated_ranked(rest, p@);
            lemma_seated_distinct(rest, p@);
            lemma_seated_vacant(rest, p@, before.local.peer, before.local.user.id);
        }
        seat(&mut self.remotes, p);
    }

    /// Lets the remote participant at `peer` go. The local user stays.
    pub fn leave(&mut self, peer: PeerId)
        requires
            old(self).wf(),
        ensures
            final(self).wf(),
            final(self)@ == old(self)@.left(peer),
    {
        proof {
            lemma_without_keeps(self@.remotes, peer, None);
        }
        evict(&mut self.remotes, peer, None);
    }

    /// Writes `change` into whoever holds `peer`, local or remote.
    pub fn touch(&mut self, peer: PeerId, change: Change)
        requires
            old(self).wf(),
        ensures
            final(self).wf(),
            final(self)@ == old(self)@.touched(peer, change),
    {
        proof {
            lemma_touch_keeps(self@.remotes, peer, change);
        }
        if self.local.peer == peer {
            self.local.amend(change);
        }
        retouch(&mut self.remotes, peer, change);
    }

    /// The identity behind `peer`, if the address belongs to anyone here.
    pub fn resolve(&self, peer: PeerId) -> (found: Option<&User>)
        ensures
            match found {
                Some(user) => self@.resolve(peer) == Some(user@),
                None => self@.resolve(peer) is None,
            },
    {
        let mut at: usize = 0;
        while at < self.remotes.len() && self.remotes[at].peer != peer
            invariant
                at <= self.remotes.len(),
                forall|i: int| 0 <= i < at ==> (#[trigger] views(self.remotes@)[i]).peer != peer,
            decreases self.remotes.len() - at,
        {
            at += 1;
        }
        proof {
            lemma_holder_first(views(self.remotes@), peer, at as int);
        }
        if at < self.remotes.len() {
            Some(&self.remotes[at].user)
        } else if self.local.peer == peer {
            Some(&self.local.user)
        } else {
            None
        }
    }
}

} // verus!
