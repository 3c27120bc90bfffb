//! The level flow around the flight: when a level counts as loaded, which
//! level a key selects, and when the loading screen shows.
use vstd::prelude::*;

verus! {

/// Whether the current level can be played.
#[derive(Clone, Copy, Debug, PartialEq, Eq, Structural)]
pub enum LoadingState {
    /// Everything is loaded and has stayed so long enough.
    LevelReady,
    /// Assets or pipelines are still on their way.
    LevelLoading,
}

impl Default for LoadingState {
    fn default() -> (r: LoadingState)
        ensures
            r == LoadingState::LevelReady,
    {
        LoadingState::LevelReady
    }
}

/// The count of frames in a row in which nothing was left to load.
#[derive(Clone, Copy, Debug, PartialEq, Eq, Structural)]
pub struct LoadingData {
    pub confirmation_frames_target: usize,
    pub confirmation_frames_count: usize,
}

/// The level that a key selects.
#[derive(Clone, Copy, Debug, PartialEq, Eq, Structural)]
pub enum Level {
    One,
    Two,
}

/// The state after a frame: `state`, unless the count of quiet frames has
/// just reached the target.
pub open spec fn state_after(data: LoadingData, state: LoadingState, busy: bool) -> LoadingState {
    if !busy && data.confirmation_frames_count + 1 == data.confirmation_frames_target {
        LoadingState::LevelReady
    } else {
        state
    }
}

/// The level selected in a frame: none while a level is loading; the first
/// where its key was pressed; else the second where its key was.
pub open spec fn selected(state: LoadingState, first: bool, second: bool) -> Option<Level> {
    if state != LoadingState::LevelReady {
        None
    } else if first {
        Some(Level::One)
    } else if second {
        Some(Level::Two)
    } else {
        None
    }
}

impl LoadingData {
    /// A fresh count toward `confirmation_frames_target` quiet frames.
    pub fn new(confirmation_frames_target: usize) -> (r: LoadingData)
        ensures
            r.confirmation_frames_target == confirmation_frames_target,
            r.confirmation_frames_count == 0,
    {
        LoadingData { confirmation_frames_target, confirmation_frames_count: 0 }
    }
}

/// One frame of the loading watch.
///
/// While assets are pending or the pipelines are not ready the count of quiet
/// frames starts over and the state stays. Else the frame is counted, and
/// when the count reaches the target the level is ready.
pub fn update_loading_data(
    data: &mut LoadingData,
    state: LoadingState,
    assets_pending: bool,
    pipelines_ready: bool,
) -> (r: LoadingState)
    requires
        !assets_pending && pipelines_ready ==> old(data).confirmation_frames_count < usize::MAX,
    ensures
        final(data).confirmation_frames_target == old(data).confirmation_frames_target,
        assets_pending || !pipelines_ready ==> final(data).confirmation_frames_count == 0,
        !assets_pending && pipelines_ready ==> final(data).confirmation_frames_count == old(
            data,
        ).confirmation_frames_count + 1,
        r == state_after(*old(data), state, assets_pending || !pipelines_ready),
{
    if assets_pending || !pipelines_ready {
        data.confirmation_frames_count = 0;
        state
    } else {
        data.confirmation_frames_count = data.confirmation_frames_count + 1;
        if data.confirmation_frames_count == data.confirmation_frames_target {
            LoadingState::LevelReady
        } else {
            state
        }
    }
}

/// The level to load in this frame, if any.
pub fn level_selection(state: LoadingState, first_pressed: bool, second_pressed: bool) -> (r:
    Option<Level>)
    ensures
        r == selected(state, first_pressed, second_pressed),
{
    match state {
        LoadingState::LevelReady => {
            if first_pressed {
                Some(Level::One)
            } else if second_pressed {
                Some(Level::Two)
            } else {
                None
            }
        },
        LoadingState::LevelLoading => None,
    }
}

/// Whether the loading screen shows: while a level is loading.
pub fn display_loading_screen(state: LoadingState) -> (visible: bool)
    ensures
        visible <==> state == LoadingState::LevelLoading,
{
    match state {
        LoadingState::LevelLoading => true,
        LoadingState::LevelReady => false,
    }
}

/// The state in which a level is left: loading, until the next one is ready.
pub fn unload_current_level() -> (r: LoadingState)
    ensures
        r == LoadingState::LevelLoading,
{
    LoadingState::LevelLoading
}

} // verus!
