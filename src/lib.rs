//! A space-golf sandbox core: a gravity field over point bodies, the
//! mouse launch of a ball, and a cube-sphere mesher, all stated in exact
//! integer arithmetic.
use vstd::prelude::*;

pub mod vector;
pub mod mesh;
pub mod gravity;
pub mod launch;

verus! {

} // verus!
