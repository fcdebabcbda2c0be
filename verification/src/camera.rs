use vstd::prelude::*;

use crate::ids::Id;

verus! {

/// What a camera component does in a frame.
#[derive(Debug, Clone, Copy, PartialEq, Eq)]
pub enum CameraStep {
    /// Nothing this frame.
    Idle,
    /// Shows (`true`) or hides (`false`) the cursor: the camera was frozen or thawed.
    SetCursorVisibility(bool),
    /// Follows the input: moves the camera, updates its buffer and recentres the cursor.
    Follow,
}

/// A camera's decision for a frame, and whether it is frozen afterwards. With no active
/// camera nothing happens. Escape freezes or thaws every camera, and the cursor is shown
/// while frozen. Otherwise only the active camera, when not frozen, follows the input.
pub open spec fn camera_decision(active: Option<Id>, own_id: Id, escape_pressed: bool, frozen: bool) -> (bool, CameraStep) {
    match active {
        None => (frozen, CameraStep::Idle),
        Some(a) => if escape_pressed {
            (!frozen, CameraStep::SetCursorVisibility(!frozen))
        } else if a != own_id || frozen {
            (frozen, CameraStep::Idle)
        } else {
            (frozen, CameraStep::Follow)
        },
    }
}

/// Decides what the camera `own_id` does this frame, given the active camera, whether Escape
/// was pressed and whether the camera is frozen; returns whether it is frozen afterwards and
/// what it does.
pub fn camera_step(active: Option<Id>, own_id: Id, escape_pressed: bool, frozen: bool) -> (r: (bool, CameraStep))
    ensures
        r == camera_decision(active, own_id, escape_pressed, frozen),
{
    match active {
        None => (frozen, CameraStep::Idle),
        Some(a) => {
            if escape_pressed {
                (!frozen, CameraStep::SetCursorVisibility(!frozen))
            } else if a != own_id || frozen {
                (frozen, CameraStep::Idle)
            } else {
                (frozen, CameraStep::Follow)
            }
        },
    }
}

} // verus!
