//! The input-to-intent system: a recognised directional key spawns one
//! movement intent for the player toward that direction and hands the turn
//! to the player phase; no key, or an unrecognised one, changes nothing.
use vstd::prelude::*;
use crate::components::{Entity, WantsToMove};
use crate::geometry::{direction_delta, point_plus, Direction, Point};
use crate::turn_state::TurnState;
use crate::world::{
    apply_commands, positions_step_fit, Command, CommandBuffer, EntityData, World,
};

verus! {

/// Whether slot `i` holds a live player with a position, the target of a
/// key press.
pub open spec fn is_input_player(w: Seq<EntityData>, i: int) -> bool {
    &&& 0 <= i < w.len()
    &&& w[i].alive
    &&& w[i].player is Some
    &&& w[i].position is Some
}

/// The movement intents a key toward `d` spawns for the slots below `n`:
/// one per live player, aimed one step in that direction.
pub open spec fn input_commands(w: Seq<EntityData>, d: Direction, n: int) -> Seq<Command>
    decreases n,
{
    if n <= 0 {
        Seq::empty()
    } else {
        input_commands(w, d, n - 1) + (if is_input_player(w, n - 1) {
            seq![
                Command::SpawnMoveIntent {
                    intent: WantsToMove {
                        entity: Entity { id: (n - 1) as usize },
                        destination: point_plus(w[n - 1].position->0, direction_delta(d)),
                    },
                },
            ]
        } else {
            Seq::empty()
        })
    }
}

/// Consume the tick's optional directional key: on a recognised direction,
/// spawn the player's movement intent and move to the player phase;
/// otherwise leave world and state untouched.
pub fn player_input(ecs: &mut World, key: Option<Direction>, turn_state: &mut TurnState)
    requires
        positions_step_fit(old(ecs)@),
    ensures
        match key {
            None => final(ecs)@ == old(ecs)@ && *final(turn_state) == *old(turn_state),
            Some(d) => {
                &&& final(ecs)@ == apply_commands(
                    old(ecs)@,
                    input_commands(old(ecs)@, d, old(ecs)@.len() as int),
                )
                &&& *final(turn_state) == TurnState::PlayerTurn
            },
        },
{
    if let Some(d) = key {
        let delta = d.delta();
        let mut buffer = CommandBuffer::new();
        let n = ecs.len();
        let mut i: usize = 0;
        while i < n
            invariant
                i <= n,
                n == ecs@.len(),
                ecs@ == old(ecs)@,
                positions_step_fit(ecs@),
                delta == direction_delta(d),
                buffer.commands@ == input_commands(ecs@, d, i as int),
            decreases n - i,
        {
            let e = &ecs.entities[i];
            if e.alive && e.player.is_some() {
                if let Some(p) = e.position {
                    proof {
                        assert(-1 <= delta.x <= 1 && -1 <= delta.y <= 1);
                    }
                    let destination = Point { x: p.x + delta.x, y: p.y + delta.y };
                    buffer.push_move_intent(
                        WantsToMove { entity: Entity { id: i }, destination },
                    );
                }
            }
            i += 1;
        }
        buffer.flush(ecs);
        *turn_state = TurnState::PlayerTurn;
    }
}

} // verus!
