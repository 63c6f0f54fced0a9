use podracer::game::Game;
use podracer::protocol::ClientMessage;
use podracer::session::{ConnAction, ConnEvent, ConnPhase, Connection};
use podracer::vehicle::EngineOutput;
use rapier2d::dynamics::RigidBodyHandle;

fn input(left: bool, right: bool) -> ConnEvent {
    ConnEvent::Read(Some(ClientMessage::Input { left, right }))
}

fn joined(body: RigidBodyHandle) -> Connection {
    let mut c = Connection::new();
    assert_eq!(c.on_event(ConnEvent::Admitted { body }), ConnAction::SendJoined { id: 1 });
    assert_eq!(c.on_event(ConnEvent::Sent { ok: true }), ConnAction::WaitTick);
    c
}

#[test]
fn new_connection_waits_for_its_player() {
    let c = Connection::new();
    assert_eq!(c.phase(), ConnPhase::Joining);
    assert_eq!(c.game().tick(), 0);
    assert!(c.game().player().is_none());
}

#[test]
fn failed_handshake_closes_without_body() {
    let mut c = Connection::new();
    assert_eq!(c.on_event(ConnEvent::HandshakeFailed), ConnAction::Close { body: None });
    assert_eq!(c.phase(), ConnPhase::Closed);
}

#[test]
fn admitted_player_is_greeted_with_id_one() {
    let body = RigidBodyHandle::from_raw_parts(5, 0);
    let mut c = Connection::new();
    assert_eq!(c.on_event(ConnEvent::Admitted { body }), ConnAction::SendJoined { id: 1 });
    assert_eq!(c.phase(), ConnPhase::JoinSent);
    assert_eq!(c.game().player().as_ref().unwrap().body_handle, body);
}

#[test]
fn failed_greeting_closes_without_removing() {
    let body = RigidBodyHandle::from_raw_parts(5, 0);
    let mut c = Connection::new();
    c.on_event(ConnEvent::Admitted { body });
    assert_eq!(c.on_event(ConnEvent::Sent { ok: false }), ConnAction::Close { body: None });
    assert_eq!(c.phase(), ConnPhase::Closed);
}

#[test]
fn tick_applies_every_input_then_steps() {
    let body = RigidBodyHandle::from_raw_parts(2, 0);
    let mut c = joined(body);
    assert_eq!(c.on_event(ConnEvent::Ticked), ConnAction::ReadInput);
    assert_eq!(c.on_event(input(true, false)), ConnAction::ReadInput);
    assert_eq!(c.on_event(input(true, true)), ConnAction::ReadInput);
    assert_eq!(
        c.on_event(ConnEvent::Read(None)),
        ConnAction::StepAndSend { thrust: Some((body, EngineOutput { forward_force: 42, torque: 0 })) }
    );
    assert_eq!(c.game().tick(), 1);
    assert_eq!(c.on_event(ConnEvent::Sent { ok: true }), ConnAction::WaitTick);
    assert_eq!(c.phase(), ConnPhase::Idle);
}

#[test]
fn tick_without_input_keeps_previous_engines() {
    let body = RigidBodyHandle::from_raw_parts(2, 0);
    let mut c = joined(body);
    c.on_event(ConnEvent::Ticked);
    c.on_event(input(false, true));
    c.on_event(ConnEvent::Read(None));
    c.on_event(ConnEvent::Sent { ok: true });
    c.on_event(ConnEvent::Ticked);
    assert_eq!(
        c.on_event(ConnEvent::Read(None)),
        ConnAction::StepAndSend { thrust: Some((body, EngineOutput { forward_force: 5, torque: 10 })) }
    );
    assert_eq!(c.game().tick(), 2);
}

#[test]
fn failed_state_send_closes_and_removes_player() {
    let body = RigidBodyHandle::from_raw_parts(9, 1);
    let mut c = joined(body);
    c.on_event(ConnEvent::Ticked);
    c.on_event(ConnEvent::Read(None));
    assert_eq!(c.on_event(ConnEvent::Sent { ok: false }), ConnAction::Close { body: Some(body) });
    assert!(c.game().player().is_none());
    assert_eq!(c.phase(), ConnPhase::Closed);
}

#[test]
fn unexpected_events_are_ignored() {
    let body = RigidBodyHandle::from_raw_parts(1, 0);
    let mut c = Connection::new();
    assert_eq!(c.on_event(ConnEvent::Ticked), ConnAction::Ignore);
    assert_eq!(c.phase(), ConnPhase::Joining);
    let mut c = joined(body);
    assert_eq!(c.on_event(ConnEvent::Read(None)), ConnAction::Ignore);
    assert_eq!(c.on_event(ConnEvent::Sent { ok: false }), ConnAction::Ignore);
    assert_eq!(c.phase(), ConnPhase::Idle);
    assert_eq!(c.game().tick(), 0);
}

#[test]
fn session_matches_game_built_from_same_calls() {
    let body = RigidBodyHandle::from_raw_parts(3, 0);
    let ticks: Vec<Vec<(bool, bool)>> =
        vec![vec![(true, false)], vec![], vec![(false, true), (true, true)], vec![(false, false)]];
    let mut c = joined(body);
    let mut g = Game::new();
    g.add_player(body);
    for inputs in &ticks {
        c.on_event(ConnEvent::Ticked);
        for &(l, r) in inputs {
            c.on_event(input(l, r));
            g.set_player_input(l, r);
        }
        let act = c.on_event(ConnEvent::Read(None));
        let thrust = g.step();
        assert_eq!(act, ConnAction::StepAndSend { thrust });
        c.on_event(ConnEvent::Sent { ok: true });
        assert_eq!(c.game().tick(), g.tick());
        let (a, b) = (c.game().player().as_ref().unwrap(), g.player().as_ref().unwrap());
        assert_eq!((a.id, a.body_handle, a.left_thrust, a.right_thrust), (b.id, b.body_handle, b.left_thrust, b.right_thrust));
    }
}
