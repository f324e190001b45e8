//! The phase dispatcher: three fixed pipelines, selected by exact match on
//! the current turn state. The input pipeline runs only the input-to-intent
//! system; the player pipeline runs movement, contact resolution, then
//! end-of-turn; the monster pipeline runs random-walk intents, movement,
//! contact resolution, then end-of-turn. Systems run strictly in that
//! order every tick, and every pipeline keeps the game invariant.
use vstd::prelude::*;
use crate::camera::Camera;
use crate::components::Entity;
use crate::geometry::{direction_delta, point_plus, Direction, Point};
use crate::map::DungeonMap;
use crate::systems::collisions::{collisions, collisions_spec, enemy_on_player};
use crate::systems::end_turn::{end_turn, is_amulet_slot, spec_next_state};
use crate::systems::movement::{
    camera_after, is_move_message, move_commands_at, movement, movement_commands,
};
use crate::systems::player_input::{input_commands, player_input};
use crate::systems::random_move::{
    attack_commands, is_walker, random_move, random_walk_commands, walk_commands_at,
};
use crate::turn_state::TurnState;
use crate::world::{
    amulet_witness, apply_commands, command_preserves, commands_preserve,
    lemma_apply_keeps_amulet, lemma_apply_preserves, lemma_bounds_step_fit,
    lemma_commands_preserve_concat, occupied_at, positions_in_bounds, world_ok, Command,
    EntityData, World,
};

verus! {

/// Every command the movement system issues keeps the game invariant:
/// position updates land on enterable (hence in-bounds) tiles, removals
/// hit only message entities.
proof fn lemma_movement_preserve(w: Seq<EntityData>, map: DungeonMap, n: int)
    requires
        0 <= n <= w.len() <= usize::MAX,
    ensures
        commands_preserve(w, movement_commands(w, map, n)),
    decreases n,
{
    if n > 0 {
        lemma_movement_preserve(w, map, n - 1);
        let step = move_commands_at(w, map, n - 1);
        assert(commands_preserve(w, step)) by {
            if is_move_message(w, n - 1) {
                let wm = w[n - 1].wants_to_move->0;
                let rem = Command::Remove { target: Entity { id: (n - 1) as usize } };
                if map.spec_can_enter(wm.destination) {
                    let set = Command::SetPosition {
                        target: wm.entity,
                        destination: wm.destination,
                    };
                    assert(step =~= seq![set, rem]);
                    assert(command_preserves(w, step[0]));
                    assert(command_preserves(w, step[1]));
                } else {
                    assert(step =~= seq![rem]);
                    assert(command_preserves(w, step[0]));
                }
            }
        }
        lemma_commands_preserve_concat(w, movement_commands(w, map, n - 1), step);
    }
}

/// The input system only spawns message entities, which always keeps the
/// game invariant.
proof fn lemma_input_preserve(w: Seq<EntityData>, d: Direction, n: int)
    ensures
        commands_preserve(w, input_commands(w, d, n)),
    decreases n,
{
    if n > 0 {
        lemma_input_preserve(w, d, n - 1);
        let full = input_commands(w, d, n);
        let prefix = input_commands(w, d, n - 1);
        assert forall|k: int| 0 <= k < full.len() implies command_preserves(
            w,
            #[trigger] full[k],
        ) by {
            if k < prefix.len() {
                assert(full[k] == prefix[k]);
            }
        }
    }
}

/// Attack intents are spawns, which always keep the game invariant.
proof fn lemma_attack_preserve(w: Seq<EntityData>, attacker: int, dest: Point, n: int)
    ensures
        commands_preserve(w, attack_commands(w, attacker, dest, n)),
    decreases n,
{
    if n > 0 {
        lemma_attack_preserve(w, attacker, dest, n - 1);
        let full = attack_commands(w, attacker, dest, n);
        let prefix = attack_commands(w, attacker, dest, n - 1);
        assert forall|k: int| 0 <= k < full.len() implies command_preserves(
            w,
            #[trigger] full[k],
        ) by {
            if k < prefix.len() {
                assert(full[k] == prefix[k]);
            }
        }
    }
}

/// The random-walk system only spawns message entities, which always
/// keeps the game invariant.
proof fn lemma_random_preserve(w: Seq<EntityData>, dirs: Seq<Direction>, n: int)
    requires
        n <= w.len() <= usize::MAX,
    ensures
        commands_preserve(w, random_walk_commands(w, dirs, n)),
    decreases n,
{
    if n > 0 {
        lemma_random_preserve(w, dirs, n - 1);
        let step = walk_commands_at(w, n - 1, dirs[n - 1]);
        assert(commands_preserve(w, step)) by {
            if is_walker(w, n - 1) {
                let dest = point_plus(w[n - 1].position->0, direction_delta(dirs[n - 1]));
                if occupied_at(w, dest) {
                    lemma_attack_preserve(w, n - 1, dest, w.len() as int);
                } else {
                    assert(command_preserves(w, step[0]));
                }
            }
        }
        lemma_commands_preserve_concat(w, random_walk_commands(w, dirs, n - 1), step);
    }
}

/// Contact resolution keeps the game invariant: it only removes enemies,
/// and the amulet is not one.
proof fn lemma_collisions_ok(w: Seq<EntityData>)
    requires
        world_ok(w),
    ensures
        world_ok(collisions_spec(w)),
        collisions_spec(w).len() == w.len(),
{
    let r = collisions_spec(w);
    assert(positions_in_bounds(r)) by {
        assert forall|i: int|
            0 <= i < r.len() && #[trigger] r[i].position is Some implies crate::map::spec_in_bounds(
            r[i].position->0,
        ) by {
            assert(r[i].position == w[i].position);
        }
    }
    let i = choose|i: int| amulet_witness(w, i);
    assert(!enemy_on_player(w, i));
    assert(amulet_witness(r, i));
}

/// The world after the player phase's movement and contact systems run
/// against it.
pub open spec fn player_phase_world(w: Seq<EntityData>, map: DungeonMap) -> Seq<EntityData> {
    collisions_spec(apply_commands(w, movement_commands(w, map, w.len() as int)))
}

/// The world after the monster phase's random-walk, movement, and contact
/// systems run against it, the walkers drawing `dirs`.
pub open spec fn monster_phase_world(
    w: Seq<EntityData>,
    map: DungeonMap,
    dirs: Seq<Direction>,
) -> Seq<EntityData> {
    let w1 = apply_commands(w, random_walk_commands(w, dirs, w.len() as int));
    collisions_spec(apply_commands(w1, movement_commands(w1, map, w1.len() as int)))
}

/// The input pipeline: the input-to-intent system alone; movement, AI and
/// contact systems do not run.
pub fn input_pipeline(ecs: &mut World, key: Option<Direction>, turn_state: &mut TurnState)
    requires
        world_ok(old(ecs)@),
    ensures
        world_ok(final(ecs)@),
        match key {
            None => final(ecs)@ == old(ecs)@ && *final(turn_state) == *old(turn_state),
            Some(d) => {
                &&& final(ecs)@ == apply_commands(
                    old(ecs)@,
                    input_commands(old(ecs)@, d, old(ecs)@.len() as int),
                )
                &&& *final(turn_state) == TurnState::PlayerTurn
            },
        },
{
    let ghost w0 = ecs@;
    proof {
        lemma_bounds_step_fit(w0);
    }
    player_input(ecs, key, turn_state);
    proof {
        if let Some(d) = key {
            lemma_input_preserve(w0, d, w0.len() as int);
            lemma_apply_preserves(w0, input_commands(w0, d, w0.len() as int));
            lemma_apply_keeps_amulet(w0, input_commands(w0, d, w0.len() as int));
        }
    }
}

/// The player pipeline: movement resolution, then contact resolution, then
/// end-of-turn, strictly in that order.
pub fn player_pipeline(
    ecs: &mut World,
    map: &DungeonMap,
    camera: &mut Camera,
    turn_state: &mut TurnState,
)
    requires
        map.wf(),
        world_ok(old(ecs)@),
    ensures
        world_ok(final(ecs)@),
        final(ecs)@ == player_phase_world(old(ecs)@, *map),
        *final(camera) == camera_after(old(ecs)@, *map, *old(camera), old(ecs)@.len() as int),
        *final(turn_state) == spec_next_state(*old(turn_state), final(ecs)@),
{
    let ghost w0 = ecs@;
    // Reading the length puts the arena-size bound in scope for the lemmas.
    let _len0 = ecs.len();
    movement(ecs, map, camera);
    proof {
        lemma_movement_preserve(w0, *map, w0.len() as int);
        lemma_apply_preserves(w0, movement_commands(w0, *map, w0.len() as int));
        lemma_apply_keeps_amulet(w0, movement_commands(w0, *map, w0.len() as int));
    }
    let ghost w1 = ecs@;
    collisions(ecs);
    proof {
        lemma_collisions_ok(w1);
        let i = choose|i: int| amulet_witness(ecs@, i);
        assert(is_amulet_slot(ecs@, i));
    }
    end_turn(ecs, turn_state);
}

/// The monster pipeline: random-walk intent generation for every walker,
/// then movement resolution, then contact resolution, then end-of-turn,
/// strictly in that order.
pub fn monster_pipeline(
    ecs: &mut World,
    rng: &mut bracket_lib::random::RandomNumberGenerator,
    map: &DungeonMap,
    camera: &mut Camera,
    turn_state: &mut TurnState,
)
    requires
        map.wf(),
        world_ok(old(ecs)@),
    ensures
        world_ok(final(ecs)@),
        exists|dirs: Seq<Direction>|
            {
                &&& dirs.len() == old(ecs)@.len()
                &&& final(ecs)@ == monster_phase_world(old(ecs)@, *map, dirs)
                &&& ({
                    let w1 = apply_commands(
                        old(ecs)@,
                        random_walk_commands(old(ecs)@, dirs, old(ecs)@.len() as int),
                    );
                    *final(camera) == camera_after(w1, *map, *old(camera), w1.len() as int)
                })
            },
        *final(turn_state) == spec_next_state(*old(turn_state), final(ecs)@),
{
    let ghost w0 = ecs@;
    // Reading the length puts the arena-size bound in scope for the lemmas.
    let _len0 = ecs.len();
    proof {
        lemma_bounds_step_fit(w0);
    }
    random_move(ecs, rng);
    let ghost dirs = choose|dirs: Seq<Direction>|
        dirs.len() == w0.len() && ecs@ == apply_commands(
            w0,
            random_walk_commands(w0, dirs, w0.len() as int),
        );
    proof {
        lemma_random_preserve(w0, dirs, w0.len() as int);
        lemma_apply_preserves(w0, random_walk_commands(w0, dirs, w0.len() as int));
        lemma_apply_keeps_amulet(w0, random_walk_commands(w0, dirs, w0.len() as int));
    }
    let ghost w1 = ecs@;
    // Reading the length puts the arena-size bound in scope for the lemmas.
    let _len1 = ecs.len();
    movement(ecs, map, camera);
    proof {
        lemma_movement_preserve(w1, *map, w1.len() as int);
        lemma_apply_preserves(w1, movement_commands(w1, *map, w1.len() as int));
        lemma_apply_keeps_amulet(w1, movement_commands(w1, *map, w1.len() as int));
    }
    let ghost w2 = ecs@;
    collisions(ecs);
    proof {
        lemma_collisions_ok(w2);
        let i = choose|i: int| amulet_witness(ecs@, i);
        assert(is_amulet_slot(ecs@, i));
        assert(ecs@ == monster_phase_world(w0, *map, dirs));
    }
    end_turn(ecs, turn_state);
}

/// One tick of the dispatcher: read the current turn state and run the
/// matching pipeline; in a terminal state nothing runs.
pub fn tick(
    ecs: &mut World,
    map: &DungeonMap,
    camera: &mut Camera,
    turn_state: &mut TurnState,
    key: Option<Direction>,
    rng: &mut bracket_lib::random::RandomNumberGenerator,
)
    requires
        map.wf(),
        world_ok(old(ecs)@),
    ensures
        world_ok(final(ecs)@),
        match *old(turn_state) {
            TurnState::AwaitingInput => {
                &&& *final(camera) == *old(camera)
                &&& match key {
                    None => final(ecs)@ == old(ecs)@ && *final(turn_state) == *old(turn_state),
                    Some(d) => {
                        &&& final(ecs)@ == apply_commands(
                            old(ecs)@,
                            input_commands(old(ecs)@, d, old(ecs)@.len() as int),
                        )
                        &&& *final(turn_state) == TurnState::PlayerTurn
                    },
                }
            },
            TurnState::PlayerTurn => {
                &&& final(ecs)@ == player_phase_world(old(ecs)@, *map)
                &&& *final(camera) == camera_after(
                    old(ecs)@,
                    *map,
                    *old(camera),
                    old(ecs)@.len() as int,
                )
                &&& *final(turn_state) == spec_next_state(TurnState::PlayerTurn, final(ecs)@)
            },
            TurnState::MonsterTurn => {
                &&& exists|dirs: Seq<Direction>|
                    {
                        &&& dirs.len() == old(ecs)@.len()
                        &&& final(ecs)@ == monster_phase_world(old(ecs)@, *map, dirs)
                    }
                &&& *final(turn_state) == spec_next_state(TurnState::MonsterTurn, final(ecs)@)
            },
            _ => {
                &&& final(ecs)@ == old(ecs)@
                &&& *final(camera) == *old(camera)
                &&& *final(turn_state) == *old(turn_state)
            },
        },
{
    let current = *turn_state;
    match current {
        TurnState::AwaitingInput => {
            input_pipeline(ecs, key, turn_state);
        },
        TurnState::PlayerTurn => {
            player_pipeline(ecs, map, camera, turn_state);
        },
        TurnState::MonsterTurn => {
            monster_pipeline(ecs, rng, map, camera, turn_state);
        },
        TurnState::GameOver => {},
        TurnState::Victory => {},
        TurnState::NextLevel => {},
    }
}

} // verus!
