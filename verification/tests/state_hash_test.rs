use cdda_render::session_log::SessionLog;
use cdda_render::state_hash::{
    canonical_edges, canonical_rows, check_divergence, compute_state_hash, record_state_hash,
    EntityState, Health, OwnershipLink, Position, StateHashLog,
};

fn actor(entity: u64, sim: u64, x: i32, ap: i32) -> EntityState {
    EntityState {
        entity,
        sim_id: Some(sim),
        position: Some(Position { x, y: 0, z: 0 }),
        action_points: Some(ap),
        health: Some(Health { current: 80, max: 100 }),
        stack: None,
    }
}

#[test]
fn state_changes_change_the_digest() {
    let world = vec![actor(10, 1, 0, 100)];
    let (turn, before) = compute_state_hash(0, &world, &[]);
    let moved = vec![actor(10, 1, 3, 0)];
    let (_, after) = compute_state_hash(0, &moved, &[]);
    assert_eq!(turn, 0);
    assert_ne!(before, after, "position/AP changes must change the digest");
}

#[test]
fn spawn_order_does_not_change_the_digest() {
    let a_first = vec![actor(10, 1, 0, 100), actor(11, 2, 5, 50)];
    let b_first = vec![actor(20, 2, 5, 50), actor(21, 1, 0, 100)];
    assert_eq!(compute_state_hash(0, &a_first, &[]).1, compute_state_hash(0, &b_first, &[]).1);
}

#[test]
fn containment_ownership_is_in_the_digest() {
    let carrier = actor(10, 1, 0, 100);
    let item = EntityState { entity: 11, sim_id: Some(9), position: None, action_points: None, health: None, stack: Some(2) };
    let world = vec![carrier, item];
    let (_, loose) = compute_state_hash(0, &world, &[]);
    let (_, held) = compute_state_hash(0, &world, &[OwnershipLink { item: 11, owner: 10 }]);
    assert_ne!(loose, held, "ownership edges belong in the digest");
}

#[test]
fn replay_mode_never_appends_to_the_expected_log() {
    let mut session = SessionLog::new(7);
    let mut live = StateHashLog::default();
    let world = vec![EntityState { entity: 1, sim_id: Some(1), position: None, action_points: Some(5), health: None, stack: None }];
    for _ in 0..2 {
        let (turn, digest) = compute_state_hash(0, &world, &[]);
        record_state_hash(&mut live, &mut session, true, turn, digest);
    }
    assert!(session.state_hashes.is_empty(), "replay must not mutate expected log");
    assert_eq!(live.hashes.len(), 2, "live history still maintained");
}

#[test]
fn recording_mode_populates_the_expected_log() {
    let mut session = SessionLog::new(7);
    let mut live = StateHashLog::default();
    let world = vec![EntityState { entity: 1, sim_id: Some(1), position: None, action_points: Some(5), health: None, stack: None }];
    let (turn, digest) = compute_state_hash(0, &world, &[]);
    record_state_hash(&mut live, &mut session, false, turn, digest);
    assert_eq!(session.state_hashes.len(), 1);
}

#[test]
fn turn_is_part_of_the_result_and_the_digest() {
    let world = vec![actor(10, 1, 0, 100)];
    let (t1, d1) = compute_state_hash(1, &world, &[]);
    let (t2, d2) = compute_state_hash(2, &world, &[]);
    assert_eq!((t1, t2), (1, 2));
    assert_ne!(d1, d2);
}

#[test]
fn canonical_rows_and_edges_are_sorted_by_stable_id() {
    let world = vec![actor(30, 7, 0, 0), actor(31, 2, 0, 0), EntityState { entity: 32, sim_id: None, position: None, action_points: None, health: None, stack: None }];
    let rows = canonical_rows(&world, &[100, 200, 300]);
    assert_eq!(rows, vec![(2, 200), (7, 100), (32, 300)]);
    let links = [OwnershipLink { item: 30, owner: 31 }, OwnershipLink { item: 31, owner: 999 }, OwnershipLink { item: 32, owner: 30 }];
    let edges = canonical_edges(&world, &links);
    assert_eq!(edges, vec![(7, 2), (32, 7)]);
}

#[test]
fn divergence_is_reported_only_for_differing_digests() {
    let mut session = SessionLog::new(0);
    session.state_hashes.push((4, 0xff));
    session.state_hashes.push((4, 0x11));
    let mut live = StateHashLog::default();
    live.hashes.push((4, 0xff));
    assert!(check_divergence(&live, &session, 4).is_none());
    assert!(check_divergence(&live, &session, 5).is_none());
    live.hashes.push((4, 0xab));
    let d = check_divergence(&live, &session, 4).expect("diverged");
    assert_eq!(d.turn, 4);
    assert_eq!(d.detail, "State hash mismatch at turn 4: live=ab, recorded=ff");
}

#[test]
fn the_same_world_in_another_order_has_the_same_digest() {
    let carrier = actor(10, 1, 0, 100);
    let helper = actor(12, 3, 4, 70);
    let item = EntityState { entity: 11, sim_id: Some(9), position: None, action_points: None, health: None, stack: Some(2) };
    let links = vec![OwnershipLink { item: 11, owner: 10 }, OwnershipLink { item: 12, owner: 10 }];
    let reversed_links = vec![OwnershipLink { item: 12, owner: 10 }, OwnershipLink { item: 11, owner: 10 }];
    let first = compute_state_hash(7, &[carrier, item, helper], &links);
    let second = compute_state_hash(7, &[helper, carrier, item], &reversed_links);
    assert_eq!(first, second);
    assert_eq!(first.0, 7);
}
