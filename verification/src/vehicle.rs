use vstd::prelude::*;

verus! {

/// The handle of a rigid body in the physics engine's body set. A vehicle
/// only carries it; the physics world that it indexes lives outside.
#[verifier::external_type_specification]
#[verifier::external_body]
pub struct ExRigidBodyHandle(rapier2d::dynamics::RigidBodyHandle);

/// Forward force of each engine when both engines fire.
pub const BOTH_FORWARD_FORCE: u32 = 21;

/// Forward force when exactly one engine fires.
pub const SINGLE_FORWARD_FORCE: u32 = 5;

/// Torque produced when exactly one engine fires.
pub const TURN_TORQUE: i32 = 10;

/// What the engines ask of the physics engine for one step: a force along
/// the vehicle's forward axis, and a torque (positive turns to the left,
/// i.e. counter-clockwise).
#[derive(Clone, Copy, Debug, PartialEq, Eq)]
pub struct EngineOutput {
    pub forward_force: u32,
    pub torque: i32,
}

/// The forward force asked for by the given engine inputs.
pub open spec fn spec_forward_force(left: bool, right: bool) -> int {
    if left && right {
        2 * BOTH_FORWARD_FORCE
    } else if left || right {
        SINGLE_FORWARD_FORCE as int
    } else {
        0
    }
}

/// The torque asked for by the given engine inputs: the left engine alone
/// turns the craft clockwise, the right engine alone counter-clockwise.
pub open spec fn spec_torque(left: bool, right: bool) -> int {
    if left && !right {
        -TURN_TORQUE
    } else if right && !left {
        TURN_TORQUE as int
    } else {
        0
    }
}

/// The engine output for the given inputs, as one value.
pub open spec fn spec_engine_output(left: bool, right: bool) -> EngineOutput {
    EngineOutput {
        forward_force: spec_forward_force(left, right) as u32,
        torque: spec_torque(left, right) as i32,
    }
}

/// Computes the force and torque that the two engines produce.
pub fn engine_output(left: bool, right: bool) -> (out: EngineOutput)
    ensures
        out == spec_engine_output(left, right),
        out.forward_force == spec_forward_force(left, right),
        out.torque == spec_torque(left, right),
{
    let forward_force: u32 = if left && right {
        BOTH_FORWARD_FORCE * 2
    } else if left || right {
        SINGLE_FORWARD_FORCE
    } else {
        0
    };
    let torque: i32 = if left && !right {
        -TURN_TORQUE
    } else if right && !left {
        TURN_TORQUE
    } else {
        0
    };
    EngineOutput { forward_force, torque }
}

/// Mirror symmetry of the engines: swapping the two inputs keeps the
/// forward force and reverses the torque.
pub proof fn lemma_engines_mirror(left: bool, right: bool)
    ensures
        spec_forward_force(right, left) == spec_forward_force(left, right),
        spec_torque(right, left) == -spec_torque(left, right),
{
}

/// A vehicle turns exactly when one engine fires alone, and a single engine
/// pushes forward far less than both engines together.
pub proof fn lemma_single_engine_turns(left: bool, right: bool)
    ensures
        (spec_torque(left, right) != 0) <==> (left != right),
        left != right ==> spec_forward_force(left, right) < spec_forward_force(true, true),
        !left && !right ==> spec_forward_force(left, right) == 0,
{
}

/// A podracer: its identity, the handle of its body in the physics world,
/// and which of its two engines are firing.
pub struct Vehicle {
    pub id: u32,
    pub body_handle: rapier2d::dynamics::RigidBodyHandle,
    pub left_thrust: bool,
    pub right_thrust: bool,
    pub is_ghost: bool,
}

impl Vehicle {
    /// A vehicle whose engines are both off.
    pub fn new(id: u32, body_handle: rapier2d::dynamics::RigidBodyHandle, is_ghost: bool) -> (v: Vehicle)
        ensures
            v.id == id,
            v.body_handle == body_handle,
            !v.left_thrust,
            !v.right_thrust,
            v.is_ghost == is_ghost,
    {
        Vehicle { id, body_handle, left_thrust: false, right_thrust: false, is_ghost }
    }

    /// The force and torque that this vehicle's engines produce in a step.
    pub fn engine_output(&self) -> (out: EngineOutput)
        ensures
            out == spec_engine_output(self.left_thrust, self.right_thrust),
            out.forward_force == spec_forward_force(self.left_thrust, self.right_thrust),
            out.torque == spec_torque(self.left_thrust, self.right_thrust),
    {
        engine_output(self.left_thrust, self.right_thrust)
    }
}

} // verus!
