//! The discrete phases a tick can be in, and which of them are terminal.
use vstd::prelude::*;

verus! {

/// The phase the game is in. Exactly one value is shared per session: the
/// scheduler reads it each tick, and only the input and end-of-turn systems
/// write it.
#[derive(Copy, Clone, Debug, PartialEq, Eq, Structural)]
pub enum TurnState {
    /// Waiting for the player to press a key.
    AwaitingInput,
    /// The player acted; player-phase systems run.
    PlayerTurn,
    /// Monsters act; monster-phase systems run.
    MonsterTurn,
    /// The player died. Terminal for this core's pipelines.
    GameOver,
    /// The player reached the amulet. Terminal for this core's pipelines.
    Victory,
    /// A level transition was requested. Terminal for this core's pipelines.
    NextLevel,
}

/// The states in which no pipeline runs any further systems.
pub open spec fn is_terminal(s: TurnState) -> bool {
    s == TurnState::GameOver || s == TurnState::Victory || s == TurnState::NextLevel
}

} // verus!
