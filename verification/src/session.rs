use vstd::prelude::*;

use crate::game::{
    spec_add_player, spec_new_game, spec_remove_player, spec_set_player_input, spec_step, Game,
    GameView,
};
use crate::protocol::ClientMessage;
use crate::vehicle::EngineOutput;

verus! {

/// What happened on the connection since the last action.
#[derive(Debug, Clone, Copy, PartialEq, Eq)]
pub enum ConnEvent {
    /// The WebSocket handshake failed.
    HandshakeFailed,
    /// The player's body has been placed in the physics world.
    Admitted { body: rapier2d::dynamics::RigidBodyHandle },
    /// A message to the client has been sent, or failed to send.
    Sent { ok: bool },
    /// The tick timer fired.
    Ticked,
    /// A non-blocking read: the message that had arrived, or none.
    Read(Option<ClientMessage>),
}

/// What the connection asks to be done next.
#[derive(Debug, Clone, Copy, PartialEq, Eq)]
pub enum ConnAction {
    /// Send `Joined { id }` to the client.
    SendJoined { id: u32 },
    /// Wait for the next tick of the timer.
    WaitTick,
    /// Read the next input that has arrived, without waiting.
    ReadInput,
    /// Apply the thrust to the player's body, step the physics world, and
    /// send the state of the game to the client.
    StepAndSend { thrust: Option<(rapier2d::dynamics::RigidBodyHandle, EngineOutput)> },
    /// End the connection, removing this body from the physics world first.
    Close { body: Option<rapier2d::dynamics::RigidBodyHandle> },
    /// The event does not fit the connection's phase; nothing changed.
    Ignore,
}

/// Where a connection stands.
#[derive(Debug, Clone, Copy, PartialEq, Eq)]
pub enum ConnPhase {
    /// Waiting for the handshake and the player's body.
    Joining,
    /// `Joined` is being sent.
    JoinSent,
    /// Waiting for the next tick.
    Idle,
    /// Reading the inputs that have arrived during this tick.
    Draining,
    /// The state of this tick is being sent.
    StateSent,
    /// The connection is over.
    Closed,
}

/// A connection as contracts speak of it.
pub struct ConnView {
    pub game: GameView,
    pub phase: ConnPhase,
}

/// The decisions of a connection: from its state and an event, its next
/// state and the action to perform.
///
/// A player is admitted and greeted with `Joined`; a failed handshake or a
/// failed greeting ends the connection. At each tick every input that has
/// arrived is applied, then the game steps and its state is sent; the first
/// failed send of a state ends the connection and removes the player.
pub open spec fn conn_next(s: ConnView, ev: ConnEvent) -> (ConnView, ConnAction) {
    match s.phase {
        ConnPhase::Joining => match ev {
            ConnEvent::HandshakeFailed => (
                ConnView { game: s.game, phase: ConnPhase::Closed },
                ConnAction::Close { body: None },
            ),
            ConnEvent::Admitted { body } => {
                let (g, id) = spec_add_player(s.game, body);
                (ConnView { game: g, phase: ConnPhase::JoinSent }, ConnAction::SendJoined { id })
            },
            _ => (s, ConnAction::Ignore),
        },
        ConnPhase::JoinSent => match ev {
            ConnEvent::Sent { ok } => if ok {
                (ConnView { game: s.game, phase: ConnPhase::Idle }, ConnAction::WaitTick)
            } else {
                (ConnView { game: s.game, phase: ConnPhase::Closed }, ConnAction::Close { body: None })
            },
            _ => (s, ConnAction::Ignore),
        },
        ConnPhase::Idle => match ev {
            ConnEvent::Ticked => (ConnView { game: s.game, phase: ConnPhase::Draining }, ConnAction::ReadInput),
            _ => (s, ConnAction::Ignore),
        },
        ConnPhase::Draining => match ev {
            ConnEvent::Read(Some(ClientMessage::Input { left, right })) => (
                ConnView { game: spec_set_player_input(s.game, left, right), phase: ConnPhase::Draining },
                ConnAction::ReadInput,
            ),
            ConnEvent::Read(None) => {
                let (g, thrust) = spec_step(s.game);
                (ConnView { game: g, phase: ConnPhase::StateSent }, ConnAction::StepAndSend { thrust })
            },
            _ => (s, ConnAction::Ignore),
        },
        ConnPhase::StateSent => match ev {
            ConnEvent::Sent { ok } => if ok {
                (ConnView { game: s.game, phase: ConnPhase::Idle }, ConnAction::WaitTick)
            } else {
                let (g, body) = spec_remove_player(s.game);
                (ConnView { game: g, phase: ConnPhase::Closed }, ConnAction::Close { body })
            },
            _ => (s, ConnAction::Ignore),
        },
        ConnPhase::Closed => (s, ConnAction::Ignore),
    }
}

/// While joining, the session has handed out no id yet.
pub open spec fn conn_wf(s: ConnView) -> bool {
    s.phase is Joining ==> s.game.next_id == 1
}

/// The state after a run of events, taken in order.
pub open spec fn conn_run(s: ConnView, evs: Seq<ConnEvent>) -> ConnView
    decreases evs.len(),
{
    if evs.len() == 0 {
        s
    } else {
        conn_next(conn_run(s, evs.drop_last()), evs.last()).0
    }
}

/// The session after the given inputs are applied in order.
pub open spec fn apply_inputs(g: GameView, inputs: Seq<(bool, bool)>) -> GameView
    decreases inputs.len(),
{
    if inputs.len() == 0 {
        g
    } else {
        spec_set_player_input(apply_inputs(g, inputs.drop_last()), inputs.last().0, inputs.last().1)
    }
}

/// The session after one tick: its inputs are applied, then it steps.
pub open spec fn play_tick(g: GameView, inputs: Seq<(bool, bool)>) -> GameView {
    spec_step(apply_inputs(g, inputs)).0
}

/// The session after the given ticks, each with the inputs that arrived in it.
pub open spec fn play(g: GameView, ticks: Seq<Seq<(bool, bool)>>) -> GameView
    decreases ticks.len(),
{
    if ticks.len() == 0 {
        g
    } else {
        play_tick(play(g, ticks.drop_last()), ticks.last())
    }
}

/// The reads that deliver the given inputs.
pub open spec fn input_events(inputs: Seq<(bool, bool)>) -> Seq<ConnEvent> {
    inputs.map_values(|i: (bool, bool)| ConnEvent::Read(Some(ClientMessage::Input { left: i.0, right: i.1 })))
}

/// The events of one tick whose state is sent: the timer fires, the inputs
/// are read, the read finds nothing more, and the state goes out.
pub open spec fn tick_events(inputs: Seq<(bool, bool)>) -> Seq<ConnEvent> {
    seq![ConnEvent::Ticked] + input_events(inputs) + seq![ConnEvent::Read(None), ConnEvent::Sent { ok: true }]
}

/// The events of the given ticks, in order.
pub open spec fn ticks_events(ticks: Seq<Seq<(bool, bool)>>) -> Seq<ConnEvent>
    decreases ticks.len(),
{
    if ticks.len() == 0 {
        Seq::empty()
    } else {
        ticks_events(ticks.drop_last()) + tick_events(ticks.last())
    }
}

/// The events of a connection whose player is admitted with `body`, greeted,
/// and then plays the given ticks.
pub open spec fn session_events(body: rapier2d::dynamics::RigidBodyHandle, ticks: Seq<Seq<(bool, bool)>>) -> Seq<ConnEvent> {
    seq![ConnEvent::Admitted { body }, ConnEvent::Sent { ok: true }] + ticks_events(ticks)
}

/// A fresh connection.
pub open spec fn new_conn() -> ConnView {
    ConnView { game: spec_new_game(), phase: ConnPhase::Joining }
}

proof fn lemma_conn_run_append(s: ConnView, a: Seq<ConnEvent>, b: Seq<ConnEvent>)
    ensures
        conn_run(s, a + b) == conn_run(conn_run(s, a), b),
    decreases b.len(),
{
    if b.len() == 0 {
        assert(a + b =~= a);
    } else {
        assert((a + b).drop_last() =~= a + b.drop_last());
        assert((a + b).last() == b.last());
        lemma_conn_run_append(s, a, b.drop_last());
    }
}

proof fn lemma_conn_run_one(s: ConnView, e: ConnEvent)
    ensures
        conn_run(s, seq![e]) == conn_next(s, e).0,
{
    assert(seq![e].drop_last() =~= Seq::<ConnEvent>::empty());
    assert(conn_run(s, Seq::<ConnEvent>::empty()) == s);
    assert(seq![e].last() == e);
}

proof fn lemma_inputs_applied(g: GameView, inputs: Seq<(bool, bool)>)
    ensures
        conn_run((ConnView { game: g, phase: ConnPhase::Draining }), input_events(inputs)) == (ConnView {
            game: apply_inputs(g, inputs),
            phase: ConnPhase::Draining,
        }),
    decreases inputs.len(),
{
    if inputs.len() > 0 {
        assert(input_events(inputs).drop_last() =~= input_events(inputs.drop_last()));
        lemma_inputs_applied(g, inputs.drop_last());
    }
}

proof fn lemma_tick_played(g: GameView, inputs: Seq<(bool, bool)>)
    ensures
        conn_run((ConnView { game: g, phase: ConnPhase::Idle }), tick_events(inputs)) == (ConnView {
            game: play_tick(g, inputs),
            phase: ConnPhase::Idle,
        }),
{
    let s0 = ConnView { game: g, phase: ConnPhase::Idle };
    let first = seq![ConnEvent::Ticked];
    let ie = input_events(inputs);
    let last2 = seq![ConnEvent::Read(None), ConnEvent::Sent { ok: true }];
    lemma_conn_run_append(s0, first + ie, last2);
    lemma_conn_run_append(s0, first, ie);
    lemma_conn_run_one(s0, ConnEvent::Ticked);
    lemma_inputs_applied(g, inputs);
    let s2 = ConnView { game: apply_inputs(g, inputs), phase: ConnPhase::Draining };
    assert(last2.drop_last() =~= seq![ConnEvent::Read(None)]);
    lemma_conn_run_one(s2, ConnEvent::Read(None));
}

proof fn lemma_ticks_played(g: GameView, ticks: Seq<Seq<(bool, bool)>>)
    ensures
        conn_run((ConnView { game: g, phase: ConnPhase::Idle }), ticks_events(ticks)) == (ConnView {
            game: play(g, ticks),
            phase: ConnPhase::Idle,
        }),
    decreases ticks.len(),
{
    if ticks.len() > 0 {
        let s0 = ConnView { game: g, phase: ConnPhase::Idle };
        lemma_conn_run_append(s0, ticks_events(ticks.drop_last()), tick_events(ticks.last()));
        lemma_ticks_played(g, ticks.drop_last());
        lemma_tick_played(play(g, ticks.drop_last()), ticks.last());
    }
}

/// A connection plays the game that the same calls would build: after its
/// player is admitted with `body` and greeted, and after any number of ticks
/// whose states were sent, the connection is idle and its session equals a
/// fresh game on which `add_player(body)` was called and then, for each
/// tick, `set_player_input` for each input that arrived and `step`.
pub proof fn lemma_session_replays_calls(body: rapier2d::dynamics::RigidBodyHandle, ticks: Seq<Seq<(bool, bool)>>)
    ensures
        conn_run(new_conn(), session_events(body, ticks)) == (ConnView {
            game: play(spec_add_player(spec_new_game(), body).0, ticks),
            phase: ConnPhase::Idle,
        }),
{
    let head = seq![ConnEvent::Admitted { body }, ConnEvent::Sent { ok: true }];
    lemma_conn_run_append(new_conn(), head, ticks_events(ticks));
    assert(head.drop_last() =~= seq![ConnEvent::Admitted { body }]);
    lemma_conn_run_one(new_conn(), ConnEvent::Admitted { body });
    lemma_ticks_played(spec_add_player(spec_new_game(), body).0, ticks);
}

/// The first thing a connection sends is `Joined` with id 1; a failed
/// handshake or a failed greeting closes it without a body to remove.
pub proof fn lemma_join_first(body: rapier2d::dynamics::RigidBodyHandle)
    ensures
        conn_next(new_conn(), (ConnEvent::Admitted { body })).1 == (ConnAction::SendJoined { id: 1 }),
        conn_next(new_conn(), ConnEvent::HandshakeFailed).1 == (ConnAction::Close { body: None }),
        conn_next(conn_next(new_conn(), (ConnEvent::Admitted { body })).0, (ConnEvent::Sent { ok: false })).1
            == (ConnAction::Close { body: None }),
{
}

/// After a state fails to send, the connection closes and hands back the
/// player's body for removal; the session has no player left.
pub proof fn lemma_failed_state_removes_player(s: ConnView)
    requires
        s.phase == ConnPhase::StateSent,
        s.game.player is Some,
    ensures
        conn_next(s, (ConnEvent::Sent { ok: false })).1 == (ConnAction::Close {
            body: Some(s.game.player.unwrap().body_handle),
        }),
        conn_next(s, (ConnEvent::Sent { ok: false })).0.game.player is None,
        conn_next(s, (ConnEvent::Sent { ok: false })).0.phase == ConnPhase::Closed,
{
}

/// Every tick with a player hands the physics world the player's thrust: when
/// a draining connection finds no more input, it steps the game one tick
/// (keeping the player) and asks to apply, to the player's body, the output
/// of the engines as they now stand: 42 forward with both engines, 5 forward
/// and a turn of 10 (negative for the left engine) with one, and a zero
/// output once both are released, so a released craft stops pushing.
pub proof fn lemma_every_step_thrusts(s: ConnView)
    requires
        s.phase == ConnPhase::Draining,
        s.game.player is Some,
    ensures
        ({
            let v = s.game.player.unwrap();
            let l = v.left_thrust;
            let r = v.right_thrust;
            let next = conn_next(s, ConnEvent::Read(None));
            &&& next.1 == (ConnAction::StepAndSend {
                thrust: Some(
                    (
                        v.body_handle,
                        EngineOutput {
                            forward_force: if l && r {
                                42
                            } else if l || r {
                                5
                            } else {
                                0
                            },
                            torque: if l == r {
                                0
                            } else if l {
                                -10i32
                            } else {
                                10
                            },
                        },
                    ),
                ),
            })
            &&& next.0.phase == ConnPhase::StateSent
            &&& next.0.game.player == s.game.player
            &&& next.0.game.tick == s.game.tick + 1 || s.game.tick == u64::MAX
            &&& next.0.game.next_id == s.game.next_id
        }),
{
}

/// Within a tick the last input read decides the engines: applying inputs
/// keeps the player's identity and body and leaves its engines as the last
/// input set them, or as they were when no input arrived.
pub proof fn lemma_last_input_wins(g: GameView, inputs: Seq<(bool, bool)>)
    requires
        g.player is Some,
    ensures
        ({
            let v = g.player.unwrap();
            let w = apply_inputs(g, inputs).player;
            &&& w is Some
            &&& w.unwrap().id == v.id
            &&& w.unwrap().body_handle == v.body_handle
            &&& w.unwrap().is_ghost == v.is_ghost
            &&& inputs.len() == 0 ==> w == g.player
            &&& inputs.len() > 0 ==> w.unwrap().left_thrust == inputs.last().0 && w.unwrap().right_thrust
                == inputs.last().1
            &&& apply_inputs(g, inputs).tick == g.tick
        }),
    decreases inputs.len(),
{
    if inputs.len() > 0 {
        lemma_last_input_wins(g, inputs.drop_last());
    }
}

/// The player admitted at the start of a connection stays in its session
/// through every tick whose state was sent, with its id 1 and its body.
pub proof fn lemma_session_keeps_player(body: rapier2d::dynamics::RigidBodyHandle, ticks: Seq<Seq<(bool, bool)>>)
    ensures
        conn_run(new_conn(), session_events(body, ticks)).game.player is Some,
        conn_run(new_conn(), session_events(body, ticks)).game.player.unwrap().body_handle == body,
        conn_run(new_conn(), session_events(body, ticks)).game.player.unwrap().id == 1,
        conn_run(new_conn(), session_events(body, ticks)).phase == ConnPhase::Idle,
    decreases ticks.len(),
{
    lemma_session_replays_calls(body, ticks);
    lemma_play_keeps_player(spec_add_player(spec_new_game(), body).0, ticks);
}

proof fn lemma_play_keeps_player(g: GameView, ticks: Seq<Seq<(bool, bool)>>)
    requires
        g.player is Some,
    ensures
        play(g, ticks).player is Some,
        play(g, ticks).player.unwrap().body_handle == g.player.unwrap().body_handle,
        play(g, ticks).player.unwrap().id == g.player.unwrap().id,
    decreases ticks.len(),
{
    if ticks.len() > 0 {
        lemma_play_keeps_player(g, ticks.drop_last());
        lemma_last_input_wins(play(g, ticks.drop_last()), ticks.last());
    }
}

/// A connection's game session and where the connection stands.
pub struct Connection {
    game: Game,
    phase: ConnPhase,
}

impl View for Connection {
    type V = ConnView;

    closed spec fn view(&self) -> ConnView {
        ConnView { game: self.game@, phase: self.phase }
    }
}

impl Connection {
    /// A connection that waits for its player, with a fresh game session.
    pub fn new() -> (c: Connection)
        ensures
            c@.phase == ConnPhase::Joining,
            c@.game == spec_new_game(),
            conn_wf(c@),
    {
        Connection { game: Game::new(), phase: ConnPhase::Joining }
    }

    /// The connection's game session.
    pub fn game(&self) -> (g: &Game)
        ensures
            g@ == self@.game,
    {
        &self.game
    }

    /// Where the connection stands.
    pub fn phase(&self) -> (p: ConnPhase)
        ensures
            p == self@.phase,
    {
        self.phase
    }

    /// Takes the decision for one event.
    pub fn on_event(&mut self, ev: ConnEvent) -> (act: ConnAction)
        requires
            conn_wf(old(self)@),
            old(self)@.phase == ConnPhase::Draining && ev == ConnEvent::Read(None) ==> old(self)@.game.tick
                < u64::MAX,
        ensures
            (final(self)@, act) == conn_next(old(self)@, ev),
            conn_wf(final(self)@),
    {
        match self.phase {
            ConnPhase::Joining => match ev {
                ConnEvent::HandshakeFailed => {
                    self.phase = ConnPhase::Closed;
                    ConnAction::Close { body: None }
                },
                ConnEvent::Admitted { body } => {
                    let id = self.game.add_player(body);
                    self.phase = ConnPhase::JoinSent;
                    ConnAction::SendJoined { id }
                },
                _ => ConnAction::Ignore,
            },
            ConnPhase::JoinSent => match ev {
                ConnEvent::Sent { ok } => {
                    if ok {
                        self.phase = ConnPhase::Idle;
                        ConnAction::WaitTick
                    } else {
                        self.phase = ConnPhase::Closed;
                        ConnAction::Close { body: None }
                    }
                },
                _ => ConnAction::Ignore,
            },
            ConnPhase::Idle => match ev {
                ConnEvent::Ticked => {
                    self.phase = ConnPhase::Draining;
                    ConnAction::ReadInput
                },
                _ => ConnAction::Ignore,
            },
            ConnPhase::Draining => match ev {
                ConnEvent::Read(Some(ClientMessage::Input { left, right })) => {
                    self.game.set_player_input(left, right);
                    ConnAction::ReadInput
                },
                ConnEvent::Read(None) => {
                    let thrust = self.game.step();
                    self.phase = ConnPhase::StateSent;
                    ConnAction::StepAndSend { thrust }
                },
                _ => ConnAction::Ignore,
            },
            ConnPhase::StateSent => match ev {
                ConnEvent::Sent { ok } => {
                    if ok {
                        self.phase = ConnPhase::Idle;
                        ConnAction::WaitTick
                    } else {
                        let body = self.game.remove_player();
                        self.phase = ConnPhase::Closed;
                        ConnAction::Close { body }
                    }
                },
                _ => ConnAction::Ignore,
            },
            ConnPhase::Closed => ConnAction::Ignore,
        }
    }
}

} // verus!
