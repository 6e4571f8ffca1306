//! Launching a ball with the mouse: a press marks a point, the release
//! launches a sink from where the button was let go, with the drag
//! reversed as its velocity.
use vstd::prelude::*;
use crate::vector::{IVec3, sub_of};
use crate::gravity::position_ok;

verus! {

/// What the left mouse button did.
#[derive(Clone, Copy, Debug, PartialEq, Eq, Structural)]
pub enum ButtonState {
    Pressed,
    Released,
}

/// A ball to spawn.
#[derive(Clone, Copy, Debug, PartialEq, Eq, Structural)]
pub struct Launch {
    pub position: IVec3,
    pub velocity: IVec3,
}

/// Velocity of a launch: press point minus release point, in the plane.
pub open spec fn launch_velocity(press: IVec3, release: IVec3) -> (int, int, int) {
    let d = sub_of(press@, release@);
    (d.0, d.1, 0)
}

/// One button event: the pending press point afterwards, and the launch
/// it triggers, if any. A press records the mouse position; a release with
/// a pending press clears it and launches from the mouse position; a
/// release with none does nothing.
pub fn on_left_click(pending: Option<IVec3>, state: ButtonState, mouse: IVec3) -> (out: (
    Option<IVec3>,
    Option<Launch>,
))
    requires
        position_ok(mouse),
        pending matches Some(p) ==> position_ok(p),
    ensures
        state == ButtonState::Pressed ==> out == (Some(mouse), None::<Launch>),
        state == ButtonState::Released ==> out.0 is None,
        state == ButtonState::Released && pending is None ==> out.1 is None,
        state == ButtonState::Released && pending is Some ==> out.1 == Some(
            Launch {
                position: mouse,
                velocity: IVec3 {
                    x: launch_velocity(pending.unwrap(), mouse).0 as i64,
                    y: launch_velocity(pending.unwrap(), mouse).1 as i64,
                    z: 0,
                },
            },
        ),
{
    match state {
        ButtonState::Pressed => (Some(mouse), None),
        ButtonState::Released => match pending {
            Some(p) => {
                let velocity = IVec3 { x: p.x - mouse.x, y: p.y - mouse.y, z: 0 };
                (None, Some(Launch { position: mouse, velocity }))
            },
            None => (None, None),
        },
    }
}

} // verus!
