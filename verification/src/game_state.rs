//! Game flow states and their transitions: menu, playing, paused.
//!
//! The overlays and cursor are the interface layer's business; the library
//! holds the state machine, and the transitions report whether the cursor
//! should be captured.

use vstd::prelude::*;

verus! {

/// Where the session stands.
#[derive(Clone, Copy, PartialEq, Eq, Structural, Debug, Hash)]
pub enum GameState {
    Menu,
    Playing,
    Paused,
}

impl Default for GameState {
    /// A session starts at the menu.
    fn default() -> (s: Self)
        ensures
            s == GameState::Menu,
    {
        GameState::Menu
    }
}

/// Menu transition: a start press begins play; anything else stays put.
pub fn menu_input(state: GameState, start_pressed: bool) -> (next: GameState)
    ensures
        next == if state == GameState::Menu && start_pressed {
            GameState::Playing
        } else {
            state
        },
{
    if matches!(state, GameState::Menu) && start_pressed {
        GameState::Playing
    } else {
        state
    }
}

/// Pause-screen transition: the pause key resumes play.
pub fn pause_input(state: GameState, pause_pressed: bool) -> (next: GameState)
    ensures
        next == if state == GameState::Paused && pause_pressed {
            GameState::Playing
        } else {
            state
        },
{
    if matches!(state, GameState::Paused) && pause_pressed {
        GameState::Playing
    } else {
        state
    }
}

/// The pause key toggles between playing and paused; the menu ignores it.
/// Returns whether the cursor should be captured afterwards (captured during
/// play, released in menus and pause screens).
pub fn handle_escape_pause(state: &mut GameState, pause_pressed: bool) -> (cursor_locked: bool)
    ensures
        *final(state) == if pause_pressed {
            match *old(state) {
                GameState::Playing => GameState::Paused,
                GameState::Paused => GameState::Playing,
                GameState::Menu => GameState::Menu,
            }
        } else {
            *old(state)
        },
        cursor_locked == (*final(state) == GameState::Playing),
{
    if pause_pressed {
        *state = match *state {
            GameState::Playing => GameState::Paused,
            GameState::Paused => GameState::Playing,
            GameState::Menu => GameState::Menu,
        };
    }
    matches!(*state, GameState::Playing)
}

} // verus!
