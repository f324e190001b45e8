//! A whole game session: the generated map, the populated world, the
//! camera, and the turn state, built together so that the game invariant
//! holds from the first tick. The accepted room list is retained for spawn
//! placement and level layout.
use vstd::prelude::*;
use crate::camera::{camera_centered_on, Camera};
use crate::geometry::{rect_center, Rect};
use crate::map::{spec_in_bounds, DungeonMap};
use crate::map_builder::{
    lemma_center_in_room, room_carved, room_in_grid, rooms_disjoint, MapBuilder, NUM_ROOMS,
};
use crate::spawner::{
    is_amulet_spawn, is_monster_spawn, is_player_spawn, spawn_amulet_of_yala, spawn_monster,
    spawn_player,
};
use crate::turn_state::TurnState;
use crate::world::{amulet_witness, positions_in_bounds, world_ok, World};

verus! {

/// The centre of a room inside the grid margin is itself inside the grid.
pub proof fn lemma_center_in_bounds(r: Rect)
    requires
        room_in_grid(r),
    ensures
        spec_in_bounds(rect_center(r)),
{
}

/// One game session's shared state, handed by reference into each system.
pub struct Game {
    /// The entity/component store.
    pub ecs: World,
    /// The current dungeon level's map.
    pub map: DungeonMap,
    /// The accepted rooms of the level, in the order they were accepted;
    /// retained for spawn placement.
    pub rooms: Vec<Rect>,
    /// The viewport, centred on the player.
    pub camera: Camera,
    /// The phase the session is in.
    pub turn_state: TurnState,
}

impl Game {
    /// The invariant a session keeps across ticks: the map is well formed,
    /// every position is inside the grid, and the amulet is present and
    /// safe.
    pub open spec fn wf(self) -> bool {
        self.map.wf() && world_ok(self.ecs@)
    }

    /// A fresh session: build a dungeon and populate it — entity zero is
    /// the player at the first accepted room's centre, then one monster
    /// per remaining room at that room's centre, and last the amulet at
    /// the final room's centre, every spawn tile an enterable floor tile;
    /// centre the camera on the player and await input.
    #[verifier::rlimit(50)]
    pub fn new(rng: &mut bracket_lib::random::RandomNumberGenerator) -> (g: Game)
        ensures
            g.wf(),
            g.turn_state == TurnState::AwaitingInput,
            // The level's rooms, exactly as the builder accepted them.
            1 <= g.rooms@.len() <= NUM_ROOMS,
            forall|k: int| 0 <= k < g.rooms@.len() ==> room_in_grid(#[trigger] g.rooms@[k]),
            rooms_disjoint(g.rooms@),
            forall|k: int| 0 <= k < g.rooms@.len() ==> room_carved(g.map, #[trigger] g.rooms@[k]),
            // One entity per room plus the amulet, each at its room's centre.
            g.ecs@.len() == g.rooms@.len() + 1,
            g.ecs@[0].position == Some(rect_center(g.rooms@[0])),
            is_player_spawn(g.ecs@[0], g.ecs@[0].position->0),
            g.map.spec_can_enter(g.ecs@[0].position->0),
            forall|i: int|
                1 <= i < g.ecs@.len() - 1 ==> (#[trigger] g.ecs@[i]).position == Some(
                    rect_center(g.rooms@[i]),
                ) && is_monster_spawn(g.ecs@[i], g.ecs@[i].position->0) && g.map.spec_can_enter(
                    g.ecs@[i].position->0,
                ),
            g.ecs@.last().position == Some(rect_center(g.rooms@[g.rooms@.len() - 1])),
            is_amulet_spawn(g.ecs@.last(), g.ecs@.last().position->0),
            g.map.spec_can_enter(g.ecs@.last().position->0),
            g.camera == camera_centered_on(g.ecs@[0].position->0),
    {
        let mb = MapBuilder::new(rng);
        let mut ecs = World::new();

        spawn_player(&mut ecs, mb.player_start);
        proof {
            lemma_center_in_bounds(mb.rooms@[0]);
            lemma_center_in_room(mb.rooms@[0]);
            assert(mb.map.spec_can_enter(mb.player_start));
        }

        let mut k: usize = 1;
        while k < mb.rooms.len()
            invariant
                1 <= k <= mb.rooms@.len(),
                forall|j: int| 0 <= j < mb.rooms@.len() ==> room_in_grid(#[trigger] mb.rooms@[j]),
                forall|j: int|
                    0 <= j < mb.rooms@.len() ==> room_carved(mb.map, #[trigger] mb.rooms@[j]),
                mb.player_start == rect_center(mb.rooms@[0]),
                ecs@.len() == k,
                ecs@[0].position == Some(mb.player_start),
                is_player_spawn(ecs@[0], ecs@[0].position->0),
                mb.map.spec_can_enter(mb.player_start),
                forall|i: int|
                    1 <= i < k ==> (#[trigger] ecs@[i]).position == Some(
                        rect_center(mb.rooms@[i]),
                    ) && is_monster_spawn(ecs@[i], ecs@[i].position->0)
                        && mb.map.spec_can_enter(ecs@[i].position->0),
                positions_in_bounds(ecs@),
            decreases mb.rooms@.len() - k,
        {
            let room = mb.rooms[k];
            proof {
                lemma_center_in_bounds(room);
                lemma_center_in_room(room);
                assert(mb.map.spec_can_enter(rect_center(room)));
            }
            let pos = room.center();
            spawn_monster(&mut ecs, rng, pos);
            k += 1;
        }

        let last = mb.rooms.len() - 1;
        let last_room = mb.rooms[last];
        proof {
            lemma_center_in_bounds(last_room);
            lemma_center_in_room(last_room);
            assert(mb.map.spec_can_enter(rect_center(last_room)));
        }
        let amulet_pos = last_room.center();
        spawn_amulet_of_yala(&mut ecs, amulet_pos);
        proof {
            assert(amulet_witness(ecs@, ecs@.len() - 1));
        }

        let camera = Camera::new(mb.player_start);
        Game {
            ecs,
            map: mb.map,
            rooms: mb.rooms,
            camera,
            turn_state: TurnState::AwaitingInput,
        }
    }
}

} // verus!
