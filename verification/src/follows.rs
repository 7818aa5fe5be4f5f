//! The follow relation: who mirrors whose navigation, per shared project.
//!
//! An edge may name a follower who has since disconnected. Edges are never
//! pruned when a participant leaves; whoever reads the relation resolves each
//! follower against the roster and drops those that no longer resolve.

use crate::model::PeerId;
use crate::seq_facts::{lemma_filter_order, lemma_filter_step};
use vstd::prelude::*;

verus! {

/// One edge of the follow relation: within `project_id`, `follower` follows
/// `followed`.
#[derive(Clone, Copy, Debug, PartialEq, Eq, Structural, Hash)]
pub struct FollowEdge {
    pub project_id: u64,
    pub followed: PeerId,
    pub follower: PeerId,
}

/// The edges other than `edge`.
pub open spec fn other_than(edge: FollowEdge) -> spec_fn(FollowEdge) -> bool {
    |e: FollowEdge| e != edge
}

/// The follower of an edge, if the edge leads to `followed` within
/// `project_id`.
pub open spec fn follower_under(project_id: u64, followed: PeerId) -> spec_fn(FollowEdge) -> Option<
    PeerId,
> {
    |e: FollowEdge|
        if e.project_id == project_id && e.followed == followed {
            Some(e.follower)
        } else {
            None
        }
}

/// The relation with `edge` in it: an edge that is already there is not
/// recorded a second time.
pub open spec fn added(edges: Seq<FollowEdge>, edge: FollowEdge) -> Seq<FollowEdge> {
    if edges.contains(edge) {
        edges
    } else {
        edges.push(edge)
    }
}

/// The relation without `edge`.
pub open spec fn removed(edges: Seq<FollowEdge>, edge: FollowEdge) -> Seq<FollowEdge> {
    edges.filter(other_than(edge))
}

/// The peer addresses that follow `followed` within `project_id`, in the order
/// in which their edges were recorded.
pub open spec fn followers_in(edges: Seq<FollowEdge>, project_id: u64, followed: PeerId) -> Seq<
    PeerId,
> {
    edges.filter_map(follower_under(project_id, followed))
}

/// Adding an edge keeps the relation free of duplicates and puts the edge in.
pub proof fn lemma_added(edges: Seq<FollowEdge>, edge: FollowEdge)
    requires
        edges.no_duplicates(),
    ensures
        added(edges, edge).no_duplicates(),
        forall|e: FollowEdge| added(edges, edge).contains(e) <==> (e == edge || edges.contains(e)),
{
    let after = added(edges, edge);
    if !edges.contains(edge) {
        assert forall|i: int, j: int| 0 <= i < after.len() && 0 <= j < after.len() && i
            != j implies after[i] != after[j] by {
            if i < edges.len() && j < edges.len() {
                assert(edges[i] != edges[j]);
            } else if i < edges.len() {
                assert(edges.contains(edges[i]));
            } else {
                assert(edges.contains(edges[j]));
            }
        }
        assert(after[edges.len() as int] == edge);
        assert forall|e: FollowEdge| after.contains(e) implies e == edge || edges.contains(e) by {
            let i = choose|i: int| 0 <= i < after.len() && after[i] == e;
            if i < edges.len() {
                assert(edges[i] == e);
            }
        }
        assert forall|e: FollowEdge| edges.contains(e) implies after.contains(e) by {
            let i = choose|i: int| 0 <= i < edges.len() && edges[i] == e;
            assert(after[i] == e);
        }
    }
}

/// Removing an edge keeps the relation free of duplicates and takes out that
/// edge alone.
pub proof fn lemma_removed(edges: Seq<FollowEdge>, edge: FollowEdge)
    ensures
        edges.no_duplicates() ==> removed(edges, edge).no_duplicates(),
        forall|e: FollowEdge| removed(edges, edge).contains(e) <==> (e != edge && edges.contains(e)),
{
    let keep = other_than(edge);
    let after = removed(edges, edge);
    if edges.no_duplicates() {
        assert forall|i: int, j: int| 0 <= i < after.len() && 0 <= j < after.len() && i
            != j implies after[i] != after[j] by {
            if i < j {
                let at = lemma_filter_order(edges, keep, i, j);
                assert(edges[at.0] != edges[at.1]);
            } else {
                let at = lemma_filter_order(edges, keep, j, i);
                assert(edges[at.0] != edges[at.1]);
            }
        }
    }
    assert forall|e: FollowEdge| after.contains(e) implies e != edge && edges.contains(e) by {
        let i = choose|i: int| 0 <= i < after.len() && after[i] == e;
        edges.lemma_filter_pred(keep, i);
        edges.lemma_filter_contains_rev(keep, e);
    }
    assert forall|e: FollowEdge| e != edge && edges.contains(e) implies after.contains(e) by {
        let i = choose|i: int| 0 <= i < edges.len() && edges[i] == e;
        edges.lemma_filter_contains(keep, i);
    }
}

/// The follow relation of a session.
pub struct FollowRelation {
    edges: Vec<FollowEdge>,
}

impl View for FollowRelation {
    type V = Seq<FollowEdge>;

    closed spec fn view(&self) -> Seq<FollowEdge> {
        self.edges@
    }
}

impl FollowRelation {
    /// No edge is recorded twice.
    pub open spec fn wf(&self) -> bool {
        self@.no_duplicates()
    }

    /// The empty relation.
    pub fn new() -> (relation: Self)
        ensures
            relation.wf(),
            relation@ == Seq::<FollowEdge>::empty(),
    {
        FollowRelation { edges: Vec::new() }
    }

    /// Whether `edge` is recorded.
    pub fn contains(&self, edge: FollowEdge) -> (found: bool)
        ensures
            found == self@.contains(edge),
    {
        let mut i: usize = 0;
        while i < self.edges.len()
            invariant
                i <= self.edges.len(),
                forall|k: int| 0 <= k < i ==> self.edges@[k] != edge,
            decreases self.edges.len() - i,
        {
            if self.edges[i] == edge {
                return true;
            }
            i += 1;
        }
        false
    }

    /// Records `edge`.
    pub fn add(&mut self, edge: FollowEdge)
        requires
            old(self).wf(),
        ensures
            final(self).wf(),
            final(self)@ == added(old(self)@, edge),
    {
        proof {
            lemma_added(self@, edge);
        }
        if !self.contains(edge) {
            self.edges.push(edge);
        }
    }

    /// Forgets `edge`.
    pub fn remove(&mut self, edge: FollowEdge)
        requires
            old(self).wf(),
        ensures
            final(self).wf(),
            final(self)@ == removed(old(self)@, edge),
    {
        let ghost before = self.edges@;
        let ghost mut judged: int = 0;
        let mut i: usize = 0;
        proof {
            lemma_removed(before, edge);
        }
        while i < self.edges.len()
            invariant
                0 <= judged <= before.len(),
                i <= self.edges.len(),
                self.edges.len() - i == before.len() - judged,
                i == before.take(judged).filter(other_than(edge)).len(),
                self.edges@ == before.take(judged).filter(other_than(edge)) + before.skip(judged),
            decreases self.edges.len() - i,
        {
            let ghost earlier = self.edges@;
            let ghost kept = before.take(judged).filter(other_than(edge));
            proof {
                lemma_filter_step(before, judged, other_than(edge));
                assert(earlier[i as int] == before[judged]);
                assert(before.skip(judged) =~= seq![before[judged]] + before.skip(judged + 1));
            }
            if self.edges[i] == edge {
                let _ = self.edges.remove(i);
                assert(self.edges@ =~= kept + before.skip(judged + 1));
            } else {
                i += 1;
                assert(earlier =~= kept.push(before[judged]) + before.skip(judged + 1));
            }
            proof {
                judged = judged + 1;
            }
        }
        assert(before.take(judged) =~= before);
        assert(self.edges@ =~= before.filter(other_than(edge)));
    }

    /// The peer addresses that follow `followed` within `project_id`, stale or
    /// not, in the order in which their edges were recorded.
    pub fn followers(&self, project_id: u64, followed: PeerId) -> (followers: Vec<PeerId>)
        ensures
            followers@ == followers_in(self@, project_id, followed),
    {
        let mut followers: Vec<PeerId> = Vec::new();
        let mut i: usize = 0;
        while i < self.edges.len()
            invariant
                i <= self.edges.len(),
                followers@ == followers_in(self.edges@.take(i as int), project_id, followed),
            decreases self.edges.len() - i,
        {
            proof {
                self.edges@.lemma_filter_map_take_succ(
                    follower_under(project_id, followed),
                    i as int,
                );
            }
            let edge = self.edges[i];
            if edge.project_id == project_id && edge.followed == followed {
                followers.push(edge.follower);
            }
            i += 1;
        }
        assert(self.edges@.take(i as int) =~= self.edges@);
        followers
    }
}

} // verus!
