use collab_presence::model::{Indicator, Location, Participant, PeerId, User};
use collab_presence::projector::{Command, Projector, ProjectorError};
use collab_presence::session::{Entry, Event};

fn peer(id: u32) -> PeerId {
    PeerId { owner_id: 0, id }
}

fn user(id: u64, handle: &str) -> User {
    User { id, handle: handle.to_string(), avatar: format!("https://avatars.test/{handle}") }
}

fn member(id: u32, handle: &str, rank: u32) -> Participant {
    Participant::new(user(id as u64, handle), peer(id), rank)
}

fn join(id: u32, handle: &str, rank: u32) -> Event {
    Event::ParticipantJoined { participant: member(id, handle, rank) }
}

fn fresh() -> Projector {
    Projector::new(member(1, "local", 0))
}

fn handles(entries: &[Entry]) -> Vec<String> {
    entries.iter().map(|e| e.participant.user.handle.clone()).collect()
}

fn follower_handles(entry: &Entry) -> Vec<String> {
    entry.followers.iter().map(|u| u.handle.clone()).collect()
}

#[test]
fn new_projector_holds_only_the_local_user() {
    let projector = fresh();
    assert!(!projector.is_ended());
    let snapshot = projector.snapshot(Some(7)).unwrap();
    assert_eq!(snapshot.len(), 1);
    assert_eq!(snapshot[0].participant, member(1, "local", 0));
    assert!(snapshot[0].is_present);
    assert!(snapshot[0].followers.is_empty());
}

#[test]
fn a_new_participant_is_not_sharing_silent_and_unmuted() {
    let p = Participant::new(user(9, "nine"), PeerId { owner_id: 3, id: 4 }, 5);
    assert_eq!(p.user.id, 9);
    assert_eq!(p.user.handle, "nine");
    assert_eq!(p.peer, PeerId { owner_id: 3, id: 4 });
    assert_eq!(p.rank, 5);
    assert_eq!(p.location, Location::NotSharing);
    assert!(!p.speaking);
    assert!(!p.muted);
}

#[test]
fn every_event_applied_twice_gives_the_snapshot_of_once() {
    let events = vec![
        join(2, "ada", 2),
        join(3, "bob", 1),
        Event::LocationChanged { peer: peer(2), location: Location::SharedProject { project_id: 7 } },
        Event::SpeakingChanged { peer: peer(2), speaking: true },
        Event::MutedChanged { peer: peer(3), muted: true },
        Event::FollowerAdded { project_id: 7, followed: peer(2), follower: peer(3) },
        Event::FollowerAdded { project_id: 7, followed: peer(2), follower: peer(1) },
        Event::FollowerRemoved { project_id: 7, followed: peer(2), follower: peer(3) },
        Event::ParticipantLeft { peer: peer(3) },
    ];
    let mut once = fresh();
    let mut twice = fresh();
    for event in events {
        assert_eq!(once.apply(event.clone()), Ok(()));
        assert_eq!(twice.apply(event.clone()), Ok(()));
        assert_eq!(twice.apply(event), Ok(()));
        for project in [None, Some(7), Some(8)] {
            assert_eq!(once.snapshot(project).unwrap(), twice.snapshot(project).unwrap());
        }
    }
    let last = once.snapshot(Some(7)).unwrap();
    assert_eq!(handles(&last), vec!["local", "ada"]);
    assert_eq!(follower_handles(&last[1]), vec!["local"]);
}

#[test]
fn muted_and_speaking_changes_commute() {
    let mut first = fresh();
    let mut second = fresh();
    for projector in [&mut first, &mut second] {
        projector.apply(join(2, "ada", 1)).unwrap();
    }
    first.apply(Event::MutedChanged { peer: peer(2), muted: true }).unwrap();
    first.apply(Event::SpeakingChanged { peer: peer(2), speaking: true }).unwrap();
    second.apply(Event::SpeakingChanged { peer: peer(2), speaking: true }).unwrap();
    second.apply(Event::MutedChanged { peer: peer(2), muted: true }).unwrap();
    let a = first.snapshot(None).unwrap();
    let b = second.snapshot(None).unwrap();
    assert_eq!(a, b);
    assert!(a[1].participant.muted);
    assert!(a[1].participant.speaking);
}

#[test]
fn the_last_write_of_a_field_wins() {
    let mut projector = fresh();
    projector.apply(join(2, "ada", 1)).unwrap();
    projector.apply(Event::MutedChanged { peer: peer(2), muted: true }).unwrap();
    projector.apply(Event::MutedChanged { peer: peer(2), muted: false }).unwrap();
    projector
        .apply(Event::LocationChanged { peer: peer(2), location: Location::UnsharedProject })
        .unwrap();
    let snapshot = projector.snapshot(None).unwrap();
    assert!(!snapshot[1].participant.muted);
    assert_eq!(snapshot[1].participant.location, Location::UnsharedProject);
    assert_eq!(snapshot[0].participant, member(1, "local", 0));
}

#[test]
fn a_change_for_the_local_address_reaches_the_local_user() {
    let mut projector = fresh();
    projector.apply(join(2, "ada", 1)).unwrap();
    projector.apply(Event::SpeakingChanged { peer: peer(1), speaking: true }).unwrap();
    projector
        .apply(Event::LocationChanged {
            peer: peer(1),
            location: Location::SharedProject { project_id: 7 },
        })
        .unwrap();
    let snapshot = projector.snapshot(Some(7)).unwrap();
    assert!(snapshot[0].participant.speaking);
    assert!(snapshot[0].is_present);
    assert!(!snapshot[1].participant.speaking);
    assert!(!snapshot[1].is_present);
}

#[test]
fn a_change_for_an_unknown_address_is_dropped() {
    let mut projector = fresh();
    projector.apply(join(2, "ada", 1)).unwrap();
    let before = projector.snapshot(Some(7)).unwrap();
    assert_eq!(projector.apply(Event::MutedChanged { peer: peer(99), muted: true }), Ok(()));
    assert_eq!(projector.apply(Event::ParticipantLeft { peer: peer(99) }), Ok(()));
    assert_eq!(projector.snapshot(Some(7)).unwrap(), before);
}

#[test]
fn presence_follows_the_project_asked_about() {
    let mut projector = fresh();
    projector.apply(join(2, "ada", 1)).unwrap();
    projector.apply(join(3, "bob", 2)).unwrap();
    projector
        .apply(Event::LocationChanged {
            peer: peer(2),
            location: Location::SharedProject { project_id: 10 },
        })
        .unwrap();
    projector
        .apply(Event::LocationChanged { peer: peer(3), location: Location::UnsharedProject })
        .unwrap();
    let in_a = projector.snapshot(Some(10)).unwrap();
    assert!(in_a[1].is_present);
    assert!(!in_a[2].is_present);
    let in_b = projector.snapshot(Some(11)).unwrap();
    assert!(!in_b[1].is_present);
    assert!(!in_b[2].is_present);
    let nowhere = projector.snapshot(None).unwrap();
    assert_eq!(nowhere.len(), 3);
    assert!(nowhere[1..].iter().all(|entry| !entry.is_present));
    assert!(nowhere[0].is_present);
}

#[test]
fn the_local_user_is_marked_present_whatever_is_asked_about() {
    let mut projector = fresh();
    projector.apply(join(2, "ada", 1)).unwrap();
    for location in [
        Location::NotSharing,
        Location::UnsharedProject,
        Location::SharedProject { project_id: 10 },
    ] {
        projector.apply(Event::LocationChanged { peer: peer(1), location }).unwrap();
        projector.apply(Event::LocationChanged { peer: peer(2), location }).unwrap();
        for project in [None, Some(10), Some(11)] {
            let snapshot = projector.snapshot(project).unwrap();
            assert_eq!(snapshot[0].participant.user, user(1, "local"));
            assert_eq!(snapshot[0].participant.location, location);
            assert!(snapshot[0].is_present);
            let there = project == Some(10) && location == Location::SharedProject { project_id: 10 };
            assert_eq!(snapshot[1].is_present, there);
        }
    }
}

#[test]
fn the_local_line_carries_the_microphone_state_of_the_local_user() {
    let mut projector = fresh();
    projector.apply(join(2, "ada", 1)).unwrap();
    projector.apply(Event::SpeakingChanged { peer: peer(1), speaking: true }).unwrap();
    projector.apply(Event::MutedChanged { peer: peer(1), muted: true }).unwrap();
    let snapshot = projector.snapshot(None).unwrap();
    assert!(snapshot[0].participant.speaking);
    assert!(snapshot[0].participant.muted);
    assert!(snapshot[0].is_present);
    assert!(snapshot[1..].iter().all(|entry| entry.participant.user.id != 1));
    assert!(snapshot[1..].iter().all(|entry| entry.participant.peer != peer(1)));
}

#[test]
fn is_present_in_compares_location_and_project() {
    let mut p = member(2, "ada", 1);
    assert!(!p.is_present_in(Some(5)));
    p.location = Location::SharedProject { project_id: 5 };
    assert!(p.is_present_in(Some(5)));
    assert!(!p.is_present_in(Some(6)));
    assert!(!p.is_present_in(None));
    p.location = Location::UnsharedProject;
    assert!(!p.is_present_in(Some(5)));
}

#[test]
fn a_follower_who_left_is_dropped_from_the_resolved_followers() {
    let mut projector = fresh();
    projector.apply(join(2, "xena", 1)).unwrap();
    projector.apply(join(3, "yuri", 2)).unwrap();
    projector.apply(join(4, "zoe", 3)).unwrap();
    projector
        .apply(Event::FollowerAdded { project_id: 7, followed: peer(2), follower: peer(3) })
        .unwrap();
    projector
        .apply(Event::FollowerAdded { project_id: 7, followed: peer(2), follower: peer(4) })
        .unwrap();
    let before = projector.snapshot(Some(7)).unwrap();
    assert_eq!(follower_handles(&before[1]), vec!["yuri", "zoe"]);
    projector.apply(Event::ParticipantLeft { peer: peer(3) }).unwrap();
    let after = projector.snapshot(Some(7)).unwrap();
    assert_eq!(handles(&after), vec!["local", "xena", "zoe"]);
    assert_eq!(follower_handles(&after[1]), vec!["zoe"]);
    assert_eq!(projector.resolve(peer(3)), Ok(None));
}

#[test]
fn a_stale_edge_comes_back_to_life_when_the_address_resolves_again() {
    let mut projector = fresh();
    projector.apply(join(2, "xena", 1)).unwrap();
    projector
        .apply(Event::FollowerAdded { project_id: 7, followed: peer(2), follower: peer(3) })
        .unwrap();
    assert!(projector.snapshot(Some(7)).unwrap()[1].followers.is_empty());
    projector.apply(join(3, "yuri", 2)).unwrap();
    assert_eq!(follower_handles(&projector.snapshot(Some(7)).unwrap()[1]), vec!["yuri"]);
}

#[test]
fn followers_are_scoped_to_the_project_and_the_followed_peer() {
    let mut projector = fresh();
    projector.apply(join(2, "xena", 1)).unwrap();
    projector.apply(join(3, "yuri", 2)).unwrap();
    projector
        .apply(Event::FollowerAdded { project_id: 7, followed: peer(2), follower: peer(3) })
        .unwrap();
    projector
        .apply(Event::FollowerAdded { project_id: 8, followed: peer(3), follower: peer(2) })
        .unwrap();
    let seven = projector.snapshot(Some(7)).unwrap();
    assert_eq!(follower_handles(&seven[1]), vec!["yuri"]);
    assert!(seven[2].followers.is_empty());
    let eight = projector.snapshot(Some(8)).unwrap();
    assert!(eight[1].followers.is_empty());
    assert_eq!(follower_handles(&eight[2]), vec!["xena"]);
    let none = projector.snapshot(None).unwrap();
    assert!(none.iter().all(|entry| entry.followers.is_empty()));
}

#[test]
fn the_local_user_resolves_as_a_follower_and_can_be_followed() {
    let mut projector = fresh();
    projector.apply(join(2, "xena", 1)).unwrap();
    projector
        .apply(Event::FollowerAdded { project_id: 7, followed: peer(2), follower: peer(1) })
        .unwrap();
    projector
        .apply(Event::FollowerAdded { project_id: 7, followed: peer(1), follower: peer(2) })
        .unwrap();
    let snapshot = projector.snapshot(Some(7)).unwrap();
    assert_eq!(snapshot[1].followers, vec![user(1, "local")]);
    assert_eq!(snapshot[0].followers, vec![user(2, "xena")]);
}

#[test]
fn a_removed_follower_edge_is_gone_and_the_others_stay() {
    let mut projector = fresh();
    projector.apply(join(2, "xena", 1)).unwrap();
    projector.apply(join(3, "yuri", 2)).unwrap();
    projector.apply(join(4, "zoe", 3)).unwrap();
    for follower in [3, 4, 3] {
        projector
            .apply(Event::FollowerAdded { project_id: 7, followed: peer(2), follower: peer(follower) })
            .unwrap();
    }
    assert_eq!(follower_handles(&projector.snapshot(Some(7)).unwrap()[1]), vec!["yuri", "zoe"]);
    projector
        .apply(Event::FollowerRemoved { project_id: 7, followed: peer(2), follower: peer(3) })
        .unwrap();
    assert_eq!(follower_handles(&projector.snapshot(Some(7)).unwrap()[1]), vec!["zoe"]);
    projector
        .apply(Event::FollowerRemoved { project_id: 7, followed: peer(2), follower: peer(3) })
        .unwrap();
    assert_eq!(follower_handles(&projector.snapshot(Some(7)).unwrap()[1]), vec!["zoe"]);
}

#[test]
fn remote_participants_come_out_in_rank_order_whatever_the_join_order() {
    let orders: [[u32; 3]; 6] =
        [[1, 2, 3], [1, 3, 2], [2, 1, 3], [2, 3, 1], [3, 1, 2], [3, 2, 1]];
    for order in orders {
        let mut projector = fresh();
        for rank in order {
            projector.apply(join(10 + rank, &format!("rank{rank}"), rank)).unwrap();
        }
        let snapshot = projector.snapshot(None).unwrap();
        assert_eq!(handles(&snapshot), vec!["local", "rank1", "rank2", "rank3"]);
        let ranks: Vec<u32> = snapshot[1..].iter().map(|e| e.participant.rank).collect();
        assert_eq!(ranks, vec![1, 2, 3]);
    }
}

#[test]
fn participants_of_one_rank_stay_in_order_of_arrival() {
    let mut projector = fresh();
    projector.apply(join(2, "first", 5)).unwrap();
    projector.apply(join(3, "second", 5)).unwrap();
    projector.apply(join(4, "low", 1)).unwrap();
    projector.apply(join(5, "third", 5)).unwrap();
    let snapshot = projector.snapshot(None).unwrap();
    assert_eq!(handles(&snapshot), vec!["local", "low", "first", "second", "third"]);
}

#[test]
fn a_snapshot_is_stable_while_nobody_joins_or_leaves() {
    let mut projector = fresh();
    projector.apply(join(2, "ada", 2)).unwrap();
    projector.apply(join(3, "bob", 1)).unwrap();
    let before = handles(&projector.snapshot(Some(7)).unwrap());
    projector.apply(Event::MutedChanged { peer: peer(2), muted: true }).unwrap();
    projector
        .apply(Event::FollowerAdded { project_id: 7, followed: peer(2), follower: peer(3) })
        .unwrap();
    assert_eq!(handles(&projector.snapshot(Some(7)).unwrap()), before);
    assert_eq!(before, vec!["local", "bob", "ada"]);
}

#[test]
fn a_snapshot_is_a_copy_that_later_events_do_not_reach() {
    let mut projector = fresh();
    projector.apply(join(2, "ada", 1)).unwrap();
    projector
        .apply(Event::LocationChanged {
            peer: peer(2),
            location: Location::SharedProject { project_id: 7 },
        })
        .unwrap();
    let held = projector.snapshot(Some(7)).unwrap();
    projector.apply(Event::LocationChanged { peer: peer(2), location: Location::NotSharing }).unwrap();
    projector.apply(Event::ParticipantLeft { peer: peer(2) }).unwrap();
    assert_eq!(held.len(), 2);
    assert!(held[1].is_present);
    assert_eq!(held[1].participant.location, Location::SharedProject { project_id: 7 });
    assert_eq!(projector.snapshot(Some(7)).unwrap().len(), 1);
}

#[test]
fn a_rejoin_under_a_new_address_replaces_the_old_connection() {
    let mut projector = fresh();
    projector.apply(join(2, "ada", 3)).unwrap();
    projector.apply(Event::MutedChanged { peer: peer(2), muted: true }).unwrap();
    let again = Participant::new(user(2, "ada"), peer(20), 1);
    projector.apply(Event::ParticipantJoined { participant: again }).unwrap();
    let snapshot = projector.snapshot(None).unwrap();
    assert_eq!(snapshot.len(), 2);
    assert_eq!(snapshot[1].participant.peer, peer(20));
    assert_eq!(snapshot[1].participant.rank, 1);
    assert!(!snapshot[1].participant.muted);
    assert_eq!(projector.resolve(peer(2)), Ok(None));
    assert_eq!(projector.resolve(peer(20)), Ok(Some(user(2, "ada"))));
}

#[test]
fn a_join_on_a_held_address_replaces_its_holder() {
    let mut projector = fresh();
    projector.apply(join(2, "ada", 1)).unwrap();
    let other = Participant::new(user(30, "eve"), peer(2), 4);
    projector.apply(Event::ParticipantJoined { participant: other }).unwrap();
    let snapshot = projector.snapshot(None).unwrap();
    assert_eq!(handles(&snapshot), vec!["local", "eve"]);
}

#[test]
fn nobody_joins_under_the_address_or_identity_of_the_local_user() {
    let mut projector = fresh();
    projector.apply(join(2, "ada", 1)).unwrap();
    let before = projector.snapshot(None).unwrap();
    let same_address = Participant::new(user(40, "imp"), peer(1), 2);
    assert_eq!(projector.apply(Event::ParticipantJoined { participant: same_address }), Ok(()));
    let same_identity = Participant::new(user(1, "local"), peer(41), 2);
    assert_eq!(projector.apply(Event::ParticipantJoined { participant: same_identity }), Ok(()));
    assert_eq!(projector.snapshot(None).unwrap(), before);
}

#[test]
fn the_local_user_does_not_leave() {
    let mut projector = fresh();
    projector.apply(join(2, "ada", 1)).unwrap();
    assert_eq!(projector.apply(Event::ParticipantLeft { peer: peer(1) }), Ok(()));
    assert_eq!(handles(&projector.snapshot(None).unwrap()), vec!["local", "ada"]);
}

#[test]
fn end_to_end_join_follow_and_leave() {
    let x = 2;
    let y = 3;
    let shared = 100;
    let mut projector = fresh();
    projector.apply(join(y, "y", 1)).unwrap();
    projector
        .apply(Event::LocationChanged {
            peer: peer(y),
            location: Location::SharedProject { project_id: shared },
        })
        .unwrap();
    projector
        .apply(Event::FollowerAdded { project_id: shared, followed: peer(x), follower: peer(y) })
        .unwrap();
    projector.apply(join(x, "x", 2)).unwrap();
    projector
        .apply(Event::LocationChanged {
            peer: peer(x),
            location: Location::SharedProject { project_id: shared },
        })
        .unwrap();

    let snapshot = projector.snapshot(Some(shared)).unwrap();
    assert_eq!(handles(&snapshot), vec!["local", "y", "x"]);
    assert!(snapshot[1].is_present);
    assert!(snapshot[1].followers.is_empty());
    assert!(snapshot[2].is_present);
    assert_eq!(snapshot[2].followers, vec![user(y as u64, "y")]);

    projector.apply(Event::ParticipantLeft { peer: peer(y) }).unwrap();
    let snapshot = projector.snapshot(Some(shared)).unwrap();
    assert_eq!(handles(&snapshot), vec!["local", "x"]);
    assert!(snapshot[1].is_present);
    assert!(snapshot[1].followers.is_empty());
}

#[test]
fn an_ended_session_refuses_every_call() {
    let mut projector = fresh();
    projector.apply(join(2, "ada", 1)).unwrap();
    projector
        .apply(Event::FollowerAdded { project_id: 7, followed: peer(2), follower: peer(1) })
        .unwrap();
    projector.end();
    assert!(projector.is_ended());
    assert_eq!(projector.apply(join(3, "bob", 2)), Err(ProjectorError::SessionEnded));
    assert_eq!(
        projector.apply(Event::ParticipantLeft { peer: peer(2) }),
        Err(ProjectorError::SessionEnded)
    );
    assert_eq!(projector.snapshot(Some(7)), Err(ProjectorError::SessionEnded));
    assert_eq!(projector.snapshot(None), Err(ProjectorError::SessionEnded));
    assert_eq!(projector.resolve(peer(1)), Err(ProjectorError::SessionEnded));
    assert_eq!(projector.follow(peer(2)), Err(ProjectorError::SessionEnded));
    assert_eq!(projector.share(5), Err(ProjectorError::SessionEnded));
    assert_eq!(projector.unshare(5), Err(ProjectorError::SessionEnded));
    assert_eq!(projector.set_muted(true), Err(ProjectorError::SessionEnded));
    assert_eq!(projector.set_deafened(true), Err(ProjectorError::SessionEnded));
    assert_eq!(projector.dispatch(Command::SetMuted(false)), Err(ProjectorError::SessionEnded));
    projector.end();
    assert!(projector.is_ended());
}

#[test]
fn follow_goes_out_only_for_an_address_that_resolves() {
    let mut projector = fresh();
    projector.apply(join(2, "ada", 1)).unwrap();
    assert_eq!(projector.follow(peer(2)), Ok(Some(Command::Follow(peer(2)))));
    assert_eq!(projector.follow(peer(9)), Ok(None));
    assert_eq!(projector.follow(peer(1)), Ok(Some(Command::Follow(peer(1)))));
    projector.apply(Event::ParticipantLeft { peer: peer(2) }).unwrap();
    assert_eq!(projector.follow(peer(2)), Ok(None));
    assert_eq!(projector.dispatch(Command::Follow(peer(2))), Ok(None));
}

#[test]
fn the_other_commands_are_forwarded_as_they_are() {
    let projector = fresh();
    assert_eq!(projector.share(5), Ok(Some(Command::Share { project: 5 })));
    assert_eq!(projector.unshare(5), Ok(Some(Command::Unshare { project: 5 })));
    assert_eq!(projector.set_muted(true), Ok(Some(Command::SetMuted(true))));
    assert_eq!(projector.set_muted(false), Ok(Some(Command::SetMuted(false))));
    assert_eq!(projector.set_deafened(true), Ok(Some(Command::SetDeafened(true))));
    assert_eq!(projector.share(5), projector.share(5));
    assert_eq!(
        projector.dispatch(Command::Unshare { project: 6 }),
        Ok(Some(Command::Unshare { project: 6 }))
    );
}

#[test]
fn resolve_finds_remote_participants_and_the_local_user() {
    let mut projector = fresh();
    projector.apply(join(2, "ada", 1)).unwrap();
    assert_eq!(projector.resolve(peer(2)), Ok(Some(user(2, "ada"))));
    assert_eq!(projector.resolve(peer(1)), Ok(Some(user(1, "local"))));
    assert_eq!(projector.resolve(peer(3)), Ok(None));
    assert_eq!(projector.resolve(PeerId { owner_id: 1, id: 2 }), Ok(None));
}

#[test]
fn the_indicator_prefers_speaking_over_muted() {
    let mut p = member(2, "ada", 1);
    assert_eq!(p.indicator(), Indicator::Idle);
    p.muted = true;
    assert_eq!(p.indicator(), Indicator::Muted);
    p.speaking = true;
    assert_eq!(p.indicator(), Indicator::Speaking);
    p.muted = false;
    assert_eq!(p.indicator(), Indicator::Speaking);
}

#[test]
fn clones_are_equal_to_what_was_cloned() {
    let p = member(2, "ada", 1);
    assert_eq!(p.clone(), p);
    assert_eq!(p.user.clone(), p.user);
    let event = join(2, "ada", 1);
    assert_eq!(event.clone(), event);
    let entry = Entry { participant: p, is_present: true, followers: vec![user(3, "bob")] };
    assert_eq!(entry.clone(), entry);
}
