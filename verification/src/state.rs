//! The coarse state machine a demo entry point drives.

use vstd::prelude::*;

verus! {

/// The three screens of the demo shell.
#[derive(Debug, Clone, Copy, PartialEq, Eq, Structural)]
pub enum GameState {
    MainMenu,
    Playing,
    Settings,
}

/// The demo shell's state holder.  The menu logic that feeds it lives with
/// the interface code around the library: given the menu choice the player
/// took, `apply_menu_choice` decides the next state.
pub struct GameStateContext {
    pub current_state: GameState,
}

/// What a menu screen can ask for.
#[derive(Debug, Clone, Copy, PartialEq, Eq, Structural)]
pub enum MenuChoice {
    Play,
    Settings,
    Quit,
}

impl GameStateContext {
    /// The shell starts on the main menu.
    pub fn new() -> (r: Self)
        ensures
            r.current_state == GameState::MainMenu,
    {
        GameStateContext { current_state: GameState::MainMenu }
    }

    /// The menu's decision rule: from the main menu, playing or the settings
    /// can be entered (quitting is the shell's business); the other screens
    /// ignore menu choices.
    pub fn apply_menu_choice(&mut self, choice: MenuChoice)
        ensures
            old(self).current_state == GameState::MainMenu ==> final(self).current_state == (
            match choice {
                MenuChoice::Play => GameState::Playing,
                MenuChoice::Settings => GameState::Settings,
                MenuChoice::Quit => GameState::MainMenu,
            }),
            old(self).current_state != GameState::MainMenu ==> *final(self) == *old(self),
    {
        match self.current_state {
            GameState::MainMenu => {
                match choice {
                    MenuChoice::Play => {
                        self.current_state = GameState::Playing;
                    },
                    MenuChoice::Settings => {
                        self.current_state = GameState::Settings;
                    },
                    MenuChoice::Quit => {},
                }
            },
            GameState::Playing => {},
            GameState::Settings => {},
        }
    }
}

} // verus!
