//! The loading of a map the client joins: its file is read and prepared in
//! a task; once the task has finished, the images become textures, the
//! buffers are uploaded and the game is created.
use vstd::prelude::*;

verus! {

/// Where the loading of a map stands.
#[derive(Copy, Clone, Debug, PartialEq, Eq, Structural)]
pub enum MapLoadState {
    /// No map.
    Empty,
    /// The task preparing the map file and its upload runs or has finished.
    Uploading,
    /// The map is loaded.
    Loaded,
}

/// What a loading step asks the caller to do.
#[derive(Copy, Clone, Debug, PartialEq, Eq, Structural)]
pub enum MapLoadAction {
    Nothing,
    /// Take the finished task's map file: create the images' textures,
    /// upload the map's buffers and create the game.
    Finish,
}

pub open spec fn spec_continue_loading(state: MapLoadState, task_finished: bool) -> (
    MapLoadState,
    MapLoadAction,
) {
    match state {
        MapLoadState::Uploading => if task_finished {
            (MapLoadState::Loaded, MapLoadAction::Finish)
        } else {
            (MapLoadState::Uploading, MapLoadAction::Nothing)
        },
        _ => (state, MapLoadAction::Nothing),
    }
}

/// One step of loading: an upload whose task has finished is finished and
/// the map is loaded; anything else stays as it is. The map can be used
/// after the step exactly when it is loaded (`is_fully_loaded`).
pub fn continue_loading(state: MapLoadState, task_finished: bool) -> (r: (MapLoadState, MapLoadAction))
    ensures
        r == spec_continue_loading(state, task_finished),
{
    match state {
        MapLoadState::Uploading => {
            if task_finished {
                (MapLoadState::Loaded, MapLoadAction::Finish)
            } else {
                (MapLoadState::Uploading, MapLoadAction::Nothing)
            }
        },
        _ => (state, MapLoadAction::Nothing),
    }
}

/// The map is loaded.
pub fn is_fully_loaded(state: MapLoadState) -> (r: bool)
    ensures
        r == (state == MapLoadState::Loaded),
{
    match state {
        MapLoadState::Loaded => true,
        _ => false,
    }
}

} // verus!
