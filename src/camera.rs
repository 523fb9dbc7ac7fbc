//! Directions in which the scene camera can be moved.

use vstd::prelude::*;

verus! {

/// A direction of camera movement, relative to where the camera looks.
#[derive(Debug, Clone, Copy, PartialEq, Eq, Structural)]
pub enum CameraDirection {
    Forward,
    Backward,
    Left,
    Right,
}

} // verus!
