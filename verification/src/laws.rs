//! What holds of every session, whatever events it has seen.

use crate::follows::{followers_in, lemma_added, lemma_removed, other_than, FollowEdge};
use crate::model::{Change, Location, ParticipantView, PeerId};
use crate::roster::{
    apart_from, enrolled, held_by, lemma_seated_distinct, lemma_seated_ranked,
    lemma_seated_vacant, lemma_touch_keeps, lemma_without_keeps, ranked, slot, up_to, without,
    RosterView,
};
use crate::seq_facts::{
    lemma_filter_drops_all, lemma_filter_insert, lemma_filter_map_skips, lemma_filter_narrowed,
    lemma_filter_source, lemma_filter_twice,
};
use crate::session::{resolver, EventView, Session};
use vstd::prelude::*;

verus! {

/// Every event leaves a valid session valid.
pub proof fn law_apply_keeps_valid(s: Session, event: EventView)
    requires
        s.wf(),
    ensures
        s.apply(event).wf(),
{
    if !s.ended {
        let r = s.roster;
        match event {
            EventView::ParticipantJoined { participant } => {
                if !r.shadows_local(participant) {
                    let p = participant;
                    lemma_without_keeps(r.remotes, p.peer, Some(p.user.id));
                    let rest = without(r.remotes, p.peer, Some(p.user.id));
                    lemma_seated_ranked(rest, p);
                    lemma_seated_distinct(rest, p);
                    lemma_seated_vacant(rest, p, r.local.peer, r.local.user.id);
                }
            },
            EventView::ParticipantLeft { peer } => {
                lemma_without_keeps(r.remotes, peer, None);
            },
            EventView::LocationChanged { peer, location } => {
                lemma_touch_keeps(r.remotes, peer, Change::Location(location));
            },
            EventView::SpeakingChanged { peer, speaking } => {
                lemma_touch_keeps(r.remotes, peer, Change::Speaking(speaking));
            },
            EventView::MutedChanged { peer, muted } => {
                lemma_touch_keeps(r.remotes, peer, Change::Muted(muted));
            },
            EventView::FollowerAdded { project_id, followed, follower } => {
                lemma_added(s.follows, FollowEdge { project_id, followed, follower });
            },
            EventView::FollowerRemoved { project_id, followed, follower } => {
                lemma_removed(s.follows, FollowEdge { project_id, followed, follower });
            },
        }
    }
}

/// The local user is always on the roster: no event changes who they are,
/// where they connect from, or their rank.
pub proof fn law_local_user_stays(s: Session, event: EventView)
    ensures
        s.apply(event).roster.local.user == s.roster.local.user,
        s.apply(event).roster.local.peer == s.roster.local.peer,
        s.apply(event).roster.local.rank == s.roster.local.rank,
        s.apply(event).ended == s.ended,
{
}

/// Whether `event` lets somebody join or leave.
pub open spec fn alters_roster(event: EventView) -> bool {
    event is ParticipantJoined || event is ParticipantLeft
}

/// While nobody joins or leaves, every snapshot lists the same participants at
/// the same places.
pub proof fn law_order_stable(s: Session, event: EventView, project: Option<u64>)
    requires
        !alters_roster(event),
    ensures
        s.apply(event).snapshot(project).len() == s.snapshot(project).len(),
        forall|k: int|
            0 <= k < s.snapshot(project).len() ==> {
                let before = (#[trigger] s.snapshot(project)[k]).participant;
                let after = s.apply(event).snapshot(project)[k].participant;
                after.user == before.user && after.peer == before.peer && after.rank == before.rank
            },
{
}

/// A participant who joins twice in a row is on the roster as if they had
/// joined once.
pub proof fn lemma_enrolled_twice(s: Seq<ParticipantView>, p: ParticipantView)
    ensures
        enrolled(enrolled(s, p), p) == enrolled(s, p),
{
    let keep = apart_from(p.peer, Some(p.user.id));
    let rest = without(s, p.peer, Some(p.user.id));
    rest.lemma_filter_len(up_to(p.rank));
    lemma_filter_insert(rest, slot(rest, p.rank), p, keep);
    lemma_filter_twice(s, keep);
}

/// Writing the same change twice is writing it once.
pub proof fn lemma_touched_twice(r: RosterView, peer: PeerId, change: Change)
    ensures
        r.touched(peer, change).touched(peer, change) == r.touched(peer, change),
{
    let once = r.touched(peer, change);
    assert(once.touched(peer, change).remotes =~= once.remotes);
}

/// Applying the same event twice leaves the session, and so every snapshot of
/// it, as applying it once.
pub proof fn law_apply_idempotent(s: Session, event: EventView)
    ensures
        s.apply(event).apply(event) == s.apply(event),
        forall|project: Option<u64>|
            s.apply(event).apply(event).snapshot(project) == s.apply(event).snapshot(project),
{
    if !s.ended {
        match event {
            EventView::ParticipantJoined { participant } => {
                lemma_enrolled_twice(s.roster.remotes, participant);
            },
            EventView::ParticipantLeft { peer } => {
                lemma_filter_twice(s.roster.remotes, apart_from(peer, None));
            },
            EventView::LocationChanged { peer, location } => {
                lemma_touched_twice(s.roster, peer, Change::Location(location));
            },
            EventView::SpeakingChanged { peer, speaking } => {
                lemma_touched_twice(s.roster, peer, Change::Speaking(speaking));
            },
            EventView::MutedChanged { peer, muted } => {
                lemma_touched_twice(s.roster, peer, Change::Muted(muted));
            },
            EventView::FollowerAdded { project_id, followed, follower } => {
                let edge = FollowEdge { project_id, followed, follower };
                if !s.follows.contains(edge) {
                    assert(s.follows.push(edge)[s.follows.len() as int] == edge);
                }
            },
            EventView::FollowerRemoved { project_id, followed, follower } => {
                lemma_filter_twice(s.follows, other_than(FollowEdge { project_id, followed, follower }));
            },
        }
    }
}

/// Whether two changes write the same field.
pub open spec fn same_field(a: Change, b: Change) -> bool {
    match (a, b) {
        (Change::Location(_), Change::Location(_)) => true,
        (Change::Speaking(_), Change::Speaking(_)) => true,
        (Change::Muted(_), Change::Muted(_)) => true,
        _ => false,
    }
}

/// Two changes that write different fields, or the fields of different
/// participants, can be written in either order.
pub proof fn lemma_touches_commute(r: RosterView, pa: PeerId, a: Change, pb: PeerId, b: Change)
    requires
        !same_field(a, b) || pa != pb,
    ensures
        r.touched(pa, a).touched(pb, b) == r.touched(pb, b).touched(pa, a),
{
    assert(r.touched(pa, a).touched(pb, b).remotes =~= r.touched(pb, b).touched(pa, a).remotes);
}

/// A change of the muted flag and a change of the speaking flag of the same
/// peer give the same session, and so the same snapshots, in either order.
pub proof fn law_muted_speaking_commute(s: Session, peer: PeerId, muted: bool, speaking: bool)
    ensures
        s.apply(EventView::MutedChanged { peer, muted }).apply(
            EventView::SpeakingChanged { peer, speaking },
        ) == s.apply(EventView::SpeakingChanged { peer, speaking }).apply(
            EventView::MutedChanged { peer, muted },
        ),
        forall|project: Option<u64>|
            s.apply(EventView::MutedChanged { peer, muted }).apply(
                EventView::SpeakingChanged { peer, speaking },
            ).snapshot(project) == s.apply(EventView::SpeakingChanged { peer, speaking }).apply(
                EventView::MutedChanged { peer, muted },
            ).snapshot(project),
{
    lemma_touches_commute(s.roster, peer, Change::Muted(muted), peer, Change::Speaking(speaking));
}

/// A snapshot has one line for the local user and one for each remote
/// participant, in the order of the roster. It marks the local user present
/// whatever is asked about, and a remote participant present exactly if a
/// project is asked about and the participant is located in it.
pub proof fn law_snapshot_lines(s: Session, project: Option<u64>)
    ensures
        s.snapshot(project).len() == s.roster.remotes.len() + 1,
        s.snapshot(project)[0].participant == s.roster.local,
        s.snapshot(project)[0].is_present,
        forall|k: int|
            1 <= k <= s.roster.remotes.len() ==> (#[trigger] s.snapshot(project)[k]).participant
                == s.roster.remotes[k - 1],
        forall|k: int|
            1 <= k <= s.roster.remotes.len() ==> ((#[trigger] s.snapshot(project)[k]).is_present <==> (
            project matches Some(id) && s.snapshot(project)[k].participant.location == (
            Location::SharedProject { project_id: id }))),
        forall|k: int|
            0 <= k <= s.roster.remotes.len() ==> (#[trigger] s.snapshot(project)[k]).followers
                == s.followers(project, s.snapshot(project)[k].participant.peer),
{
}

/// The local user's line is the first of every snapshot and is marked
/// present, whatever project is asked about, also none, and wherever the
/// local user is recorded to be. On a valid roster no remote line has the
/// peer address or the identity of the local user.
pub proof fn law_local_line(s: Session, project: Option<u64>)
    requires
        s.wf(),
    ensures
        s.snapshot(project)[0].participant == s.roster.local,
        s.snapshot(project)[0].is_present,
        forall|k: int|
            1 <= k < s.snapshot(project).len() ==> (#[trigger] s.snapshot(project)[k]).participant.peer
                != s.roster.local.peer && s.snapshot(project)[k].participant.user.id
                != s.roster.local.user.id,
{
    law_snapshot_lines(s, project);
    assert forall|k: int| 1 <= k < s.snapshot(project).len() implies (#[trigger] s.snapshot(
        project,
    )[k]).participant.peer != s.roster.local.peer && s.snapshot(project)[k].participant.user.id
        != s.roster.local.user.id by {
        assert(s.roster.remotes[k - 1].peer != s.roster.local.peer);
    }
}

/// A participant located in project `a` is marked present by the snapshot of
/// `a`; a remote participant located there is marked absent by the snapshot
/// of any other project; and the snapshot of no project marks every remote
/// participant absent.
pub proof fn law_presence(s: Session, k: int, a: u64, b: u64)
    requires
        0 <= k <= s.roster.remotes.len(),
        a != b,
        s.snapshot(Some(a))[k].participant.location == (Location::SharedProject { project_id: a }),
    ensures
        s.snapshot(Some(a))[k].is_present,
        k >= 1 ==> !s.snapshot(Some(b))[k].is_present,
        forall|j: int| 1 <= j <= s.roster.remotes.len() ==> !(#[trigger] s.snapshot(None)[j]).is_present,
{
    law_snapshot_lines(s, Some(a));
    law_snapshot_lines(s, Some(b));
    law_snapshot_lines(s, None);
}

/// The remote lines of a snapshot stand in ascending rank.
pub proof fn law_snapshot_ranked(s: Session, project: Option<u64>)
    requires
        s.wf(),
    ensures
        forall|i: int, j: int|
            1 <= i < j < s.snapshot(project).len() ==> s.snapshot(project)[i].participant.rank
                <= s.snapshot(project)[j].participant.rank,
{
    law_snapshot_lines(s, project);
    assert forall|i: int, j: int| 1 <= i < j < s.snapshot(project).len() implies s.snapshot(
        project,
    )[i].participant.rank <= s.snapshot(project)[j].participant.rank by {
        assert(s.roster.remotes[i - 1].rank <= s.roster.remotes[j - 1].rank);
    }
}

/// Once the remote participant at `gone` has left, the address resolves to
/// nobody, and every other address resolves as before.
pub proof fn lemma_left_resolves(r: RosterView, gone: PeerId, peer: PeerId)
    requires
        gone != r.local.peer,
    ensures
        r.left(gone).resolve(gone) is None,
        peer != gone ==> r.left(gone).resolve(peer) == r.resolve(peer),
{
    let rest = without(r.remotes, gone, None);
    assert forall|i: int| 0 <= i < rest.len() implies !held_by(gone)(#[trigger] rest[i]) by {
        r.remotes.lemma_filter_pred(apart_from(gone, None), i);
    }
    lemma_filter_drops_all(rest, held_by(gone));
    if peer != gone {
        lemma_filter_narrowed(r.remotes, apart_from(gone, None), held_by(peer));
    }
}

/// The follower addresses other than `gone`.
pub open spec fn not_at(gone: PeerId) -> spec_fn(PeerId) -> bool {
    |peer: PeerId| peer != gone
}

/// Whoever is resolved as a follower is on the roster: a remote participant or
/// the local user.
pub proof fn lemma_follower_on_roster(
    s: Session,
    project: Option<u64>,
    followed: PeerId,
    k: int,
) -> (peer: PeerId)
    requires
        0 <= k < s.followers(project, followed).len(),
    ensures
        s.roster.resolve(peer) == Some(s.followers(project, followed)[k]),
        project matches Some(id) && followers_in(s.follows, id, followed).contains(peer),
{
    let id = project->Some_0;
    let peers = followers_in(s.follows, id, followed);
    let user = s.followers(project, followed)[k];
    assert(peers.filter_map(resolver(s.roster)).contains(user));
    peers.lemma_filter_map_contains(resolver(s.roster), user);
    choose|t: PeerId| #[trigger] peers.contains(t) && resolver(s.roster)(t) == Some(user)
}

/// A follower who has left is dropped: once the remote participant at `gone`
/// has left, nobody's resolved followers include that participant, whatever
/// edges still name the address, and the other followers are resolved as
/// before.
pub proof fn law_departed_follower_dropped(
    s: Session,
    gone: PeerId,
    project: Option<u64>,
    followed: PeerId,
)
    requires
        s.wf(),
        !s.ended,
        gone != s.roster.local.peer,
    ensures
        ({
            let after = s.apply(EventView::ParticipantLeft { peer: gone });
            &&& after.follows == s.follows
            &&& after.roster.resolve(gone) is None
            &&& project matches Some(id) ==> after.followers(project, followed) == followers_in(
                s.follows,
                id,
                followed,
            ).filter(not_at(gone)).filter_map(resolver(s.roster))
            &&& s.roster.resolve(gone) matches Some(user) ==> forall|k: int|
                0 <= k < after.followers(project, followed).len() ==> (#[trigger] after.followers(
                    project,
                    followed,
                )[k]).id != user.id
        }),
{
    let after = s.apply(EventView::ParticipantLeft { peer: gone });
    lemma_left_resolves(s.roster, gone, gone);
    if let Some(id) = project {
        let peers = followers_in(s.follows, id, followed);
        let keep = not_at(gone);
        assert forall|peer: PeerId| #[trigger] keep(peer) implies resolver(after.roster)(peer)
            == resolver(s.roster)(peer) by {
            lemma_left_resolves(s.roster, gone, peer);
        }
        assert forall|peer: PeerId| !(#[trigger] keep(peer)) implies resolver(after.roster)(
            peer,
        ) is None by {}
        lemma_filter_map_skips(peers, keep, resolver(after.roster), resolver(s.roster));
    }
    if let Some(user) = s.roster.resolve(gone) {
        let g = lemma_filter_source(s.roster.remotes, held_by(gone), 0);
        assert forall|k: int| 0 <= k < after.followers(project, followed).len() implies (
        #[trigger] after.followers(project, followed)[k]).id != user.id by {
            let peer = lemma_follower_on_roster(after, project, followed, k);
            lemma_left_resolves(s.roster, gone, peer);
            let hits = s.roster.remotes.filter(held_by(peer));
            if hits.len() > 0 {
                let h = lemma_filter_source(s.roster.remotes, held_by(peer), 0);
                assert(s.roster.remotes[h].peer != s.roster.remotes[g].peer);
                if h < g {
                    assert(s.roster.remotes[h].user.id != s.roster.remotes[g].user.id);
                } else {
                    assert(s.roster.remotes[g].user.id != s.roster.remotes[h].user.id);
                }
            }
        }
    }
}

/// No rank occurs twice in `s`.
pub open spec fn ranks_differ(s: Seq<ParticipantView>) -> bool {
    forall|i: int, j: int| 0 <= i < j < s.len() ==> s[i].rank != s[j].rank
}

/// Two ranked sequences without a repeated rank that hold the same
/// participants are the same sequence.
pub proof fn lemma_rank_order_unique(a: Seq<ParticipantView>, b: Seq<ParticipantView>)
    requires
        ranked(a),
        ranked(b),
        ranks_differ(a),
        ranks_differ(b),
        forall|p: ParticipantView| a.contains(p) <==> b.contains(p),
    ensures
        a == b,
    decreases a.len(),
{
    if a.len() == 0 {
        if b.len() > 0 {
            assert(b.contains(b[0]));
        }
        assert(a =~= b);
    } else {
        let top = a.last();
        assert(a.contains(top));
        let j = choose|j: int| 0 <= j < b.len() && b[j] == top;
        assert(b.contains(b.last()));
        let i = choose|i: int| 0 <= i < a.len() && a[i] == b.last();
        if i < a.len() - 1 {
            assert(a[i].rank <= a[a.len() - 1].rank);
            assert(a[i].rank != a[a.len() - 1].rank);
            if j < b.len() - 1 {
                assert(b[j].rank <= b[b.len() - 1].rank);
            }
        }
        assert(b.last() == top);
        let fa = a.drop_last();
        let fb = b.drop_last();
        assert forall|p: ParticipantView| fa.contains(p) <==> fb.contains(p) by {
            if fa.contains(p) {
                let x = choose|x: int| 0 <= x < fa.len() && fa[x] == p;
                assert(a[x] == p);
                assert(a[x].rank != a[a.len() - 1].rank);
                assert(a.contains(p));
                let y = choose|y: int| 0 <= y < b.len() && b[y] == p;
                assert(fb[y] == p);
            }
            if fb.contains(p) {
                let y = choose|y: int| 0 <= y < fb.len() && fb[y] == p;
                assert(b[y] == p);
                assert(b[y].rank != b[b.len() - 1].rank);
                assert(b.contains(p));
                let x = choose|x: int| 0 <= x < a.len() && a[x] == p;
                assert(fa[x] == p);
            }
        }
        assert(ranked(fa)) by {
            assert forall|x: int, y: int| 0 <= x < y < fa.len() implies fa[x].rank <= fa[y].rank by {
                assert(a[x].rank <= a[y].rank);
            }
        }
        assert(ranked(fb)) by {
            assert forall|x: int, y: int| 0 <= x < y < fb.len() implies fb[x].rank <= fb[y].rank by {
                assert(b[x].rank <= b[y].rank);
            }
        }
        assert(ranks_differ(fa)) by {
            assert forall|x: int, y: int| 0 <= x < y < fa.len() implies fa[x].rank != fa[y].rank by {
                assert(a[x].rank != a[y].rank);
            }
        }
        assert(ranks_differ(fb)) by {
            assert forall|x: int, y: int| 0 <= x < y < fb.len() implies fb[x].rank != fb[y].rank by {
                assert(b[x].rank != b[y].rank);
            }
        }
        lemma_rank_order_unique(fa, fb);
        assert(a =~= fa.push(top));
        assert(b =~= fb.push(top));
    }
}

/// The order of a snapshot does not depend on the order in which the
/// participants joined: two valid sessions with the same local user, the same
/// follow relation and the same remote participants, no two of them of one
/// rank, give the same snapshots.
pub proof fn law_order_independent_of_arrival(s: Session, t: Session, project: Option<u64>)
    requires
        s.wf(),
        t.wf(),
        s.roster.local == t.roster.local,
        s.follows == t.follows,
        s.ended == t.ended,
        ranks_differ(s.roster.remotes),
        forall|p: ParticipantView| s.roster.remotes.contains(p) <==> t.roster.remotes.contains(p),
    ensures
        s.roster.remotes == t.roster.remotes,
        s.snapshot(project) == t.snapshot(project),
{
    let a = s.roster.remotes;
    let b = t.roster.remotes;
    assert forall|i: int, j: int| 0 <= i < j < b.len() implies b[i].rank != b[j].rank by {
        assert(b.contains(b[i]) && b.contains(b[j]));
        let x = choose|x: int| 0 <= x < a.len() && a[x] == b[i];
        let y = choose|y: int| 0 <= y < a.len() && a[y] == b[j];
        assert(b[i].peer != b[j].peer);
        if x < y {
            assert(a[x].rank != a[y].rank);
        } else if y < x {
            assert(a[y].rank != a[x].rank);
        }
    }
    lemma_rank_order_unique(a, b);
}

/// Who is on the roster after `p` has joined: `p`, and whoever was there
/// before and holds neither the peer address nor the identity of `p`.
pub proof fn lemma_enrolled_member(s: Seq<ParticipantView>, p: ParticipantView, q: ParticipantView)
    ensures
        enrolled(s, p).contains(q) <==> (q == p || (s.contains(q) && q.peer != p.peer && q.user.id
            != p.user.id)),
{
    let keep = apart_from(p.peer, Some(p.user.id));
    let rest = without(s, p.peer, Some(p.user.id));
    rest.lemma_filter_len(up_to(p.rank));
    let k = slot(rest, p.rank);
    let t = enrolled(s, p);
    assert(t[k] == p);
    if t.contains(q) {
        let i = choose|i: int| 0 <= i < t.len() && t[i] == q;
        if i != k {
            let j = if i < k {
                i
            } else {
                i - 1
            };
            assert(rest[j] == q);
            let a = lemma_filter_source(s, keep, j);
        }
    }
    if s.contains(q) && q.peer != p.peer && q.user.id != p.user.id {
        let a = choose|a: int| 0 <= a < s.len() && s[a] == q;
        s.lemma_filter_contains(keep, a);
        let j = choose|j: int| 0 <= j < rest.len() && rest[j] == q;
        if j < k {
            assert(t[j] == q);
        } else {
            assert(t[j + 1] == q);
        }
    }
}

/// Two participants who claim neither the same peer address nor the same
/// identity may join in either order: where the roster that results holds no
/// rank twice, it is the same roster, and so are the snapshots.
pub proof fn law_joins_commute(s: Session, a: ParticipantView, b: ParticipantView)
    requires
        s.wf(),
        a.peer != b.peer,
        a.user.id != b.user.id,
        ranks_differ(
            s.apply(EventView::ParticipantJoined { participant: a }).apply(
                EventView::ParticipantJoined { participant: b },
            ).roster.remotes,
        ),
    ensures
        s.apply(EventView::ParticipantJoined { participant: a }).apply(
            EventView::ParticipantJoined { participant: b },
        ) == s.apply(EventView::ParticipantJoined { participant: b }).apply(
            EventView::ParticipantJoined { participant: a },
        ),
{
    let ja = EventView::ParticipantJoined { participant: a };
    let jb = EventView::ParticipantJoined { participant: b };
    let ab = s.apply(ja).apply(jb);
    let ba = s.apply(jb).apply(ja);
    law_apply_keeps_valid(s, ja);
    law_apply_keeps_valid(s.apply(ja), jb);
    law_apply_keeps_valid(s, jb);
    law_apply_keeps_valid(s.apply(jb), ja);
    if !s.ended && !s.roster.shadows_local(a) && !s.roster.shadows_local(b) {
        let r = s.roster.remotes;
        assert forall|p: ParticipantView|
            ab.roster.remotes.contains(p) <==> ba.roster.remotes.contains(p) by {
            lemma_enrolled_member(r, a, p);
            lemma_enrolled_member(enrolled(r, a), b, p);
            lemma_enrolled_member(r, b, p);
            lemma_enrolled_member(enrolled(r, b), a, p);
        }
        law_order_independent_of_arrival(ab, ba, None);
    }
}

} // verus!
