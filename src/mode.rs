use vstd::prelude::*;

verus! {

/// The top-level modes of the program.
#[derive(Clone, Copy, Debug, PartialEq, Eq, Hash, Structural)]
pub enum GameMode {
    Loading,
    MainMenu,
    Playing,
    GameOver,
}

/// Something that can move the program from one mode to another.
#[derive(Clone, Copy, Debug, PartialEq, Eq, Structural)]
pub enum ModeEvent {
    /// Every required asset reports loaded.
    AssetsLoaded,
    /// The "start" action.
    Start,
    /// The "confirm" action.
    Confirm,
    /// The end-of-game condition fired.
    GameEnded,
    /// The "quit" action.
    Quit,
}

/// What the controller does in answer to an event.
#[derive(Clone, Copy, Debug, PartialEq, Eq, Structural)]
pub enum Transition {
    /// Nothing changes.
    Stay,
    /// Leave the current mode and enter the given one.
    Switch(GameMode),
    /// End the process.
    Exit,
}

/// The transition table.
pub open spec fn transition_for(mode: GameMode, event: ModeEvent) -> Transition {
    match (mode, event) {
        (_, ModeEvent::Quit) => Transition::Exit,
        (GameMode::Loading, ModeEvent::AssetsLoaded) => Transition::Switch(GameMode::MainMenu),
        (GameMode::MainMenu, ModeEvent::Start) => Transition::Switch(GameMode::Playing),
        (GameMode::Playing, ModeEvent::GameEnded) => Transition::Switch(GameMode::GameOver),
        (GameMode::GameOver, ModeEvent::Confirm) => Transition::Switch(GameMode::MainMenu),
        _ => Transition::Stay,
    }
}

/// Looks up the transition table.
pub fn next_transition(mode: GameMode, event: ModeEvent) -> (t: Transition)
    ensures
        t == transition_for(mode, event),
{
    match (mode, event) {
        (_, ModeEvent::Quit) => Transition::Exit,
        (GameMode::Loading, ModeEvent::AssetsLoaded) => Transition::Switch(GameMode::MainMenu),
        (GameMode::MainMenu, ModeEvent::Start) => Transition::Switch(GameMode::Playing),
        (GameMode::Playing, ModeEvent::GameEnded) => Transition::Switch(GameMode::GameOver),
        (GameMode::GameOver, ModeEvent::Confirm) => Transition::Switch(GameMode::MainMenu),
        _ => Transition::Stay,
    }
}

} // verus!
