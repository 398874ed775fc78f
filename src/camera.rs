//! Directions a 2D camera moves in, in screen space: y grows downward.
use vstd::prelude::*;

verus! {

#[derive(Clone, Copy, Debug, PartialEq, Eq, Structural)]
pub enum CameraMovement2D {
    Up,
    Down,
    Left,
    Right,
}

impl CameraMovement2D {
    /// The unit step of the move on each axis: up and left decrease a coordinate,
    /// down and right increase it.
    pub fn axis_step(self) -> (r: (i8, i8))
        ensures
            r == match self {
                CameraMovement2D::Up => (0i8, -1i8),
                CameraMovement2D::Down => (0i8, 1i8),
                CameraMovement2D::Left => (-1i8, 0i8),
                CameraMovement2D::Right => (1i8, 0i8),
            },
    {
        match self {
            CameraMovement2D::Up => (0, -1),
            CameraMovement2D::Down => (0, 1),
            CameraMovement2D::Left => (-1, 0),
            CameraMovement2D::Right => (1, 0),
        }
    }
}

} // verus!
