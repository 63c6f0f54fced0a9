use podracer::game::Game;
use podracer::vehicle::EngineOutput;
use rapier2d::dynamics::RigidBodyHandle;

#[test]
fn new_game_is_empty() {
    let g = Game::new();
    assert_eq!(g.tick, 0);
    assert!(g.player.is_none());
    assert_eq!(g.next_id(), 1);
}

#[test]
fn add_player_hands_out_increasing_ids() {
    let mut g = Game::new();
    let h1 = RigidBodyHandle::from_raw_parts(4, 0);
    let h2 = RigidBodyHandle::from_raw_parts(5, 0);
    assert_eq!(g.add_player(h1), 1);
    assert_eq!(g.add_player(h2), 2);
    assert_eq!(g.next_id(), 3);
    let v = g.player.as_ref().unwrap();
    assert_eq!(v.id, 2);
    assert_eq!(v.body_handle, h2);
    assert!(!v.left_thrust && !v.right_thrust && !v.is_ghost);
}

#[test]
fn remove_player_returns_its_body() {
    let mut g = Game::new();
    let h = RigidBodyHandle::from_raw_parts(7, 1);
    g.add_player(h);
    assert_eq!(g.remove_player(), Some(h));
    assert!(g.player.is_none());
    assert_eq!(g.remove_player(), None);
    assert_eq!(g.next_id(), 2);
}

#[test]
fn set_player_input_without_player_does_nothing() {
    let mut g = Game::new();
    g.set_player_input(true, true);
    assert!(g.player.is_none());
}

#[test]
fn set_player_input_sets_engines() {
    let mut g = Game::new();
    g.add_player(RigidBodyHandle::from_raw_parts(0, 0));
    g.set_player_input(true, false);
    let v = g.player.as_ref().unwrap();
    assert!(v.left_thrust && !v.right_thrust);
}

#[test]
fn step_advances_tick_and_reports_thrust() {
    let mut g = Game::new();
    assert_eq!(g.step(), None);
    assert_eq!(g.tick, 1);
    let h = RigidBodyHandle::from_raw_parts(3, 0);
    g.add_player(h);
    g.set_player_input(true, true);
    assert_eq!(g.step(), Some((h, EngineOutput { forward_force: 42, torque: 0 })));
    assert_eq!(g.tick, 2);
    g.set_player_input(false, true);
    assert_eq!(g.step(), Some((h, EngineOutput { forward_force: 5, torque: 10 })));
    assert_eq!(g.tick, 3);
}
