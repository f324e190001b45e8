//! End-of-turn resolution: advance the turn state to the next phase,
//! overriding it with game over when the player has died or with victory
//! when the player stands on the amulet — death checked first, so a dead
//! player on the amulet loses. A no-op while awaiting input, and never run
//! in a terminal state.
use vstd::prelude::*;
use crate::geometry::Point;
use crate::turn_state::TurnState;
use crate::world::{EntityData, World};

verus! {

/// Whether slot `i` holds a live player the end-of-turn check scores: it
/// needs health and a position.
pub open spec fn is_scored_player(w: Seq<EntityData>, i: int) -> bool {
    &&& 0 <= i < w.len()
    &&& w[i].alive
    &&& w[i].player is Some
    &&& w[i].health is Some
    &&& w[i].position is Some
}

/// Whether some scored player's health has dropped to zero or below.
pub open spec fn spec_player_dead(w: Seq<EntityData>) -> bool {
    exists|i: int| is_scored_player(w, i) && w[i].health->0.current < 1
}

/// Whether slot `i` holds the live amulet (it always has a position).
pub open spec fn is_amulet_slot(w: Seq<EntityData>, i: int) -> bool {
    &&& 0 <= i < w.len()
    &&& w[i].alive
    &&& w[i].amulet is Some
    &&& w[i].position is Some
}

/// Whether the world holds the amulet. An active turn without one is a
/// broken invariant, so the end-of-turn check demands it.
pub open spec fn has_amulet(w: Seq<EntityData>) -> bool {
    exists|i: int| is_amulet_slot(w, i)
}

/// The least amulet slot at or above `i`, or the length when there is none.
pub open spec fn first_amulet_idx(w: Seq<EntityData>, i: int) -> int
    decreases w.len() - i,
{
    if i < 0 || i >= w.len() {
        w.len() as int
    } else if is_amulet_slot(w, i) {
        i
    } else {
        first_amulet_idx(w, i + 1)
    }
}

/// The position of the first amulet in the world.
pub open spec fn spec_amulet_pos(w: Seq<EntityData>) -> Point {
    w[first_amulet_idx(w, 0)].position->0
}

/// Whether some scored player stands on the amulet's tile.
pub open spec fn spec_player_on_amulet(w: Seq<EntityData>) -> bool {
    exists|i: int| is_scored_player(w, i) && w[i].position == Some(spec_amulet_pos(w))
}

/// The override of the default next phase: death takes priority over
/// victory, which takes priority over the default.
pub open spec fn spec_resolve(w: Seq<EntityData>, base: TurnState) -> TurnState {
    if spec_player_dead(w) {
        TurnState::GameOver
    } else if spec_player_on_amulet(w) {
        TurnState::Victory
    } else {
        base
    }
}

/// The turn state after the end-of-turn check runs against world `w`:
/// the player phase hands over to the monsters, the monster phase hands
/// back to input, awaiting-input and the terminal states are left alone.
pub open spec fn spec_next_state(current: TurnState, w: Seq<EntityData>) -> TurnState {
    match current {
        TurnState::AwaitingInput => TurnState::AwaitingInput,
        TurnState::PlayerTurn => spec_resolve(w, TurnState::MonsterTurn),
        TurnState::MonsterTurn => spec_resolve(w, TurnState::AwaitingInput),
        _ => current,
    }
}

/// The turn-state cycle: while the player is alive and off the amulet's
/// tile, the end-of-turn check hands the player phase to the monsters and
/// the monster phase back to input; awaiting input it is a no-op. (The
/// step from awaiting input into the player phase is the input system's:
/// see `player_input`.)
pub proof fn lemma_turn_state_cycle(w: Seq<EntityData>)
    requires
        !spec_player_dead(w),
        !spec_player_on_amulet(w),
    ensures
        spec_next_state(TurnState::PlayerTurn, w) == TurnState::MonsterTurn,
        spec_next_state(TurnState::MonsterTurn, w) == TurnState::AwaitingInput,
        spec_next_state(TurnState::AwaitingInput, w) == TurnState::AwaitingInput,
{
}

/// Death precedence: with the player's health at zero or below, the
/// end-of-turn check yields game over — even when the player also stands
/// on the amulet's tile.
pub proof fn lemma_death_precedence(w: Seq<EntityData>)
    requires
        spec_player_dead(w),
    ensures
        spec_next_state(TurnState::PlayerTurn, w) == TurnState::GameOver,
        spec_next_state(TurnState::MonsterTurn, w) == TurnState::GameOver,
{
}

/// End the current turn: write the next phase into the shared turn state.
pub fn end_turn(ecs: &World, turn_state: &mut TurnState)
    requires
        (*old(turn_state) == TurnState::PlayerTurn || *old(turn_state) == TurnState::MonsterTurn)
            ==> has_amulet(ecs@),
    ensures
        *final(turn_state) == spec_next_state(*old(turn_state), ecs@),
{
    let base = match *turn_state {
        TurnState::AwaitingInput => {
            return ;
        },
        TurnState::PlayerTurn => TurnState::MonsterTurn,
        TurnState::MonsterTurn => TurnState::AwaitingInput,
        TurnState::GameOver => {
            return ;
        },
        TurnState::Victory => {
            return ;
        },
        TurnState::NextLevel => {
            return ;
        },
    };

    let amulet_pos = first_amulet_position(ecs);

    let n = ecs.len();
    let mut any_dead = false;
    let mut any_victory = false;
    let mut i: usize = 0;
    while i < n
        invariant
            i <= n,
            n == ecs@.len(),
            any_dead == exists|j: int|
                0 <= j < i && is_scored_player(ecs@, j) && ecs@[j].health->0.current < 1,
            any_victory == exists|j: int|
                0 <= j < i && is_scored_player(ecs@, j) && ecs@[j].position == Some(amulet_pos),
            amulet_pos == spec_amulet_pos(ecs@),
        decreases n - i,
    {
        let e = &ecs.entities[i];
        if e.alive && e.player.is_some() && e.health.is_some() && e.position.is_some() {
            if let Some(h) = e.health {
                if h.current < 1 {
                    any_dead = true;
                    proof {
                        assert(is_scored_player(ecs@, i as int) && ecs@[i as int].health->0.current
                            < 1);
                    }
                }
            }
            if let Some(p) = e.position {
                if p == amulet_pos {
                    any_victory = true;
                    proof {
                        assert(is_scored_player(ecs@, i as int) && ecs@[i as int].position == Some(
                            amulet_pos,
                        ));
                    }
                }
            }
        }
        i += 1;
    }

    *turn_state = if any_dead {
        TurnState::GameOver
    } else if any_victory {
        TurnState::Victory
    } else {
        base
    };
}

/// The position of the first live amulet in the world.
fn first_amulet_position(ecs: &World) -> (p: Point)
    requires
        has_amulet(ecs@),
    ensures
        p == spec_amulet_pos(ecs@),
{
    let n = ecs.len();
    let mut i: usize = 0;
    while i < n
        invariant
            i <= n,
            n == ecs@.len(),
            has_amulet(ecs@),
            first_amulet_idx(ecs@, i as int) == first_amulet_idx(ecs@, 0),
            forall|k: int| 0 <= k < i ==> !is_amulet_slot(ecs@, k),
        decreases n - i,
    {
        let e = &ecs.entities[i];
        if e.alive && e.amulet.is_some() {
            if let Some(p) = e.position {
                proof {
                    assert(is_amulet_slot(ecs@, i as int));
                    assert(first_amulet_idx(ecs@, i as int) == i as int);
                }
                return p;
            }
        }
        i += 1;
    }
    proof {
        let j = choose|j: int| is_amulet_slot(ecs@, j);
        assert(false);
    }
    Point::zero()
}

} // verus!
