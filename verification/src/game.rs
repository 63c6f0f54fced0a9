use vstd::prelude::*;

use crate::vehicle::{spec_engine_output, spec_forward_force, spec_torque, EngineOutput, Vehicle};

verus! {

/// The bookkeeping of one game session: the simulation tick, the player's
/// vehicle (if one has joined) and the id the next player will receive.
/// The physics world that the vehicle's body lives in is kept beside it.
pub struct Game {
    pub tick: u64,
    pub player: Option<Vehicle>,
    next_id: u32,
}

/// The state of a session as contracts speak of it.
pub struct GameView {
    pub tick: u64,
    pub player: Option<Vehicle>,
    /// The id that the next call of `add_player` hands out.
    pub next_id: u32,
}

impl View for Game {
    type V = GameView;

    closed spec fn view(&self) -> GameView {
        GameView { tick: self.tick, player: self.player, next_id: self.next_id }
    }
}

/// A fresh session: tick 0, no player, and ids start at 1.
pub open spec fn spec_new_game() -> GameView {
    GameView { tick: 0, player: None, next_id: 1 }
}

/// Admitting a player whose body is `body`: the session and the id handed out.
pub open spec fn spec_add_player(g: GameView, body: rapier2d::dynamics::RigidBodyHandle) -> (GameView, u32) {
    (
        GameView {
            tick: g.tick,
            player: Some(
                Vehicle {
                    id: g.next_id,
                    body_handle: body,
                    left_thrust: false,
                    right_thrust: false,
                    is_ghost: false,
                },
            ),
            next_id: (g.next_id + 1) as u32,
        },
        g.next_id,
    )
}

/// Taking the player out: the session and the handle of the removed body.
pub open spec fn spec_remove_player(g: GameView) -> (GameView, Option<rapier2d::dynamics::RigidBodyHandle>) {
    (
        GameView { tick: g.tick, player: None, next_id: g.next_id },
        match g.player {
            Some(v) => Some(v.body_handle),
            None => None,
        },
    )
}

/// Setting the player's engines; without a player nothing changes.
pub open spec fn spec_set_player_input(g: GameView, left: bool, right: bool) -> GameView {
    GameView {
        tick: g.tick,
        player: match g.player {
            Some(v) => Some(Vehicle { left_thrust: left, right_thrust: right, ..v }),
            None => None,
        },
        next_id: g.next_id,
    }
}

/// One step: the session one tick later, and the thrust that the physics
/// world must apply to the player's body.
pub open spec fn spec_step(g: GameView) -> (GameView, Option<(rapier2d::dynamics::RigidBodyHandle, EngineOutput)>) {
    (
        GameView { tick: (g.tick + 1) as u64, player: g.player, next_id: g.next_id },
        match g.player {
            Some(v) => Some((v.body_handle, spec_engine_output(v.left_thrust, v.right_thrust))),
            None => None,
        },
    )
}

impl Game {
    /// A fresh session: tick 0, no player, and ids start at 1.
    pub fn new() -> (g: Game)
        ensures
            g@.tick == 0,
            g@.player is None,
            g@.next_id == 1,
            g@ == spec_new_game(),
    {
        Game { tick: 0, player: None, next_id: 1 }
    }

    /// The current tick.
    pub fn tick(&self) -> (t: u64)
        ensures
            t == self@.tick,
    {
        self.tick
    }

    /// The player's vehicle, if one has joined.
    pub fn player(&self) -> (p: &Option<Vehicle>)
        ensures
            *p == self@.player,
    {
        &self.player
    }

    /// The id that the next player will receive.
    pub fn next_id(&self) -> (id: u32)
        ensures
            id == self@.next_id,
    {
        self.next_id
    }

    /// Admits a player whose vehicle body has been placed at `body_handle`.
    /// The player gets the next id, with both engines off, and replaces any
    /// vehicle that was there before.
    pub fn add_player(&mut self, body_handle: rapier2d::dynamics::RigidBodyHandle) -> (id: u32)
        requires
            old(self)@.next_id < u32::MAX,
        ensures
            (final(self)@, id) == spec_add_player(old(self)@, body_handle),
            id == old(self)@.next_id,
            final(self)@.next_id == id + 1,
            final(self)@.player == Some(
                Vehicle {
                    id,
                    body_handle,
                    left_thrust: false,
                    right_thrust: false,
                    is_ghost: false,
                },
            ),
            final(self)@.tick == old(self)@.tick,
    {
        let id: u32 = self.next_id;
        self.next_id = self.next_id + 1;
        self.player = Some(Vehicle::new(id, body_handle, false));
        id
    }

    /// Takes the player out of the session and hands back the handle of its
    /// body, which the physics world then removes.
    pub fn remove_player(&mut self) -> (removed: Option<rapier2d::dynamics::RigidBodyHandle>)
        ensures
            (final(self)@, removed) == spec_remove_player(old(self)@),
            final(self)@.player is None,
            removed == (match old(self)@.player {
                Some(v) => Some(v.body_handle),
                None => None,
            }),
            final(self)@.tick == old(self)@.tick,
            final(self)@.next_id == old(self)@.next_id,
    {
        match &self.player {
            Some(v) => {
                let handle = v.body_handle;
                self.player = None;
                Some(handle)
            },
            None => None,
        }
    }

    /// Sets which engines of the player's vehicle fire; without a player
    /// nothing changes.
    pub fn set_player_input(&mut self, left: bool, right: bool)
        ensures
            final(self)@ == spec_set_player_input(old(self)@, left, right),
            final(self)@.player == (match old(self)@.player {
                Some(v) => Some(Vehicle { left_thrust: left, right_thrust: right, ..v }),
                None => None,
            }),
            final(self)@.tick == old(self)@.tick,
            final(self)@.next_id == old(self)@.next_id,
    {
        match &mut self.player {
            Some(v) => {
                v.left_thrust = left;
                v.right_thrust = right;
            },
            None => {},
        }
    }

    /// Advances the session by one tick and returns what the physics world
    /// must apply before it steps: the player's body and its engine output.
    pub fn step(&mut self) -> (thrust: Option<(rapier2d::dynamics::RigidBodyHandle, EngineOutput)>)
        requires
            old(self)@.tick < u64::MAX,
        ensures
            (final(self)@, thrust) == spec_step(old(self)@),
            final(self)@.tick == old(self)@.tick + 1,
            final(self)@.player == old(self)@.player,
            final(self)@.next_id == old(self)@.next_id,
            old(self)@.player is None ==> thrust is None,
            old(self)@.player matches Some(v) ==> {
                &&& thrust matches Some((h, out))
                &&& h == v.body_handle
                &&& out.forward_force == spec_forward_force(v.left_thrust, v.right_thrust)
                &&& out.torque == spec_torque(v.left_thrust, v.right_thrust)
            },
    {
        let thrust = match &self.player {
            Some(v) => Some((v.body_handle, v.engine_output())),
            None => None,
        };
        self.tick = self.tick + 1;
        thrust
    }
}

} // verus!
