//! Movement resolution: every pending movement intent whose destination is
//! enterable moves its entity there (re-centring the camera when that
//! entity is the player); whether or not the move succeeded, the intent
//! message is always removed.
use vstd::prelude::*;
use crate::camera::{camera_centered_on, Camera};
use crate::components::Entity;
use crate::map::DungeonMap;
use crate::world::{
    apply_command, apply_commands, killed, Command, CommandBuffer, EntityData, World,
};

verus! {

/// Whether slot `i` holds a live movement-intent message.
pub open spec fn is_move_message(w: Seq<EntityData>, i: int) -> bool {
    0 <= i < w.len() && w[i].alive && w[i].wants_to_move is Some
}

/// The commands the movement system issues while processing slot `i`: a
/// position update when the destination is enterable, and always the
/// removal of the message entity itself.
pub open spec fn move_commands_at(w: Seq<EntityData>, map: DungeonMap, i: int) -> Seq<Command> {
    if is_move_message(w, i) {
        let wm = w[i].wants_to_move->0;
        (if map.spec_can_enter(wm.destination) {
            seq![Command::SetPosition { target: wm.entity, destination: wm.destination }]
        } else {
            Seq::empty()
        }) + seq![Command::Remove { target: Entity { id: i as usize } }]
    } else {
        Seq::empty()
    }
}

/// All commands the movement system issues for the slots below `n`, in slot
/// order.
pub open spec fn movement_commands(w: Seq<EntityData>, map: DungeonMap, n: int) -> Seq<Command>
    decreases n,
{
    if n <= 0 {
        Seq::empty()
    } else {
        movement_commands(w, map, n - 1) + move_commands_at(w, map, n - 1)
    }
}

/// Whether processing slot `i` re-centres the camera: the intent's
/// destination is enterable and its target is a live player.
pub open spec fn moves_player(w: Seq<EntityData>, map: DungeonMap, i: int) -> bool {
    is_move_message(w, i) && {
        let wm = w[i].wants_to_move->0;
        &&& map.spec_can_enter(wm.destination)
        &&& wm.entity.id < w.len()
        &&& w[wm.entity.id as int].alive
        &&& w[wm.entity.id as int].player is Some
    }
}

/// The camera after the slots below `n` are processed: centred on the
/// destination of the last applied player move, unchanged if there was
/// none.
pub open spec fn camera_after(w: Seq<EntityData>, map: DungeonMap, cam: Camera, n: int) -> Camera
    decreases n,
{
    if n <= 0 {
        cam
    } else if moves_player(w, map, n - 1) {
        camera_centered_on(w[n - 1].wants_to_move->0.destination)
    } else {
        camera_after(w, map, cam, n - 1)
    }
}

/// With slot `i` holding the only pending intent, and that intent blocked,
/// the pass issues exactly the removal of the message entity, and never
/// touches the camera.
proof fn lemma_single_blocked_commands(
    w: Seq<EntityData>,
    map: DungeonMap,
    cam: Camera,
    i: int,
    n: int,
)
    requires
        0 <= n <= w.len() <= usize::MAX,
        is_move_message(w, i),
        !map.spec_can_enter(w[i].wants_to_move->0.destination),
        forall|j: int| #[trigger] is_move_message(w, j) ==> j == i,
    ensures
        movement_commands(w, map, n) == if i < n {
            seq![Command::Remove { target: Entity { id: i as usize } }]
        } else {
            Seq::<Command>::empty()
        },
        camera_after(w, map, cam, n) == cam,
    decreases n,
{
    if n > 0 {
        lemma_single_blocked_commands(w, map, cam, i, n - 1);
        let step = move_commands_at(w, map, n - 1);
        if n - 1 == i {
            assert(step =~= seq![Command::Remove { target: Entity { id: i as usize } }]);
            assert(movement_commands(w, map, n - 1) + step =~= seq![
                Command::Remove { target: Entity { id: i as usize } },
            ]);
        } else {
            assert(!is_move_message(w, n - 1));
            assert(step =~= Seq::<Command>::empty());
            assert(movement_commands(w, map, n - 1) + step =~= movement_commands(w, map, n - 1));
        }
        assert(!moves_player(w, map, n - 1));
    }
}

/// Movement idempotence against walls: when slot `i` holds the only
/// pending movement intent and its destination cannot be entered, the
/// movement pass leaves every entity — the mover included — exactly as it
/// was, removes the intent message, and leaves the camera alone.
pub proof fn lemma_blocked_move(w: Seq<EntityData>, map: DungeonMap, cam: Camera, i: int)
    requires
        w.len() <= usize::MAX,
        is_move_message(w, i),
        !map.spec_can_enter(w[i].wants_to_move->0.destination),
        forall|j: int| #[trigger] is_move_message(w, j) ==> j == i,
    ensures
        ({
            let r = apply_commands(w, movement_commands(w, map, w.len() as int));
            &&& r.len() == w.len()
            &&& r[i] == killed(w[i])
            &&& forall|j: int| 0 <= j < w.len() && j != i ==> r[j] == w[j]
        }),
        camera_after(w, map, cam, w.len() as int) == cam,
{
    lemma_single_blocked_commands(w, map, cam, i, w.len() as int);
    let cs = movement_commands(w, map, w.len() as int);
    let r = apply_commands(w, cs);
    assert(cs[0] == Command::Remove { target: Entity { id: i as usize } });
    assert(cs.drop_first() =~= Seq::<Command>::empty());
    assert(r == apply_commands(apply_command(w, cs[0]), Seq::<Command>::empty()));
}

/// Resolve every pending movement intent against the map, re-centre the
/// camera on the player's successful move, and remove every intent message,
/// all through the deferred command buffer.
pub fn movement(ecs: &mut World, map: &DungeonMap, camera: &mut Camera)
    requires
        map.wf(),
    ensures
        final(ecs)@ == apply_commands(
            old(ecs)@,
            movement_commands(old(ecs)@, *map, old(ecs)@.len() as int),
        ),
        *final(camera) == camera_after(
            old(ecs)@,
            *map,
            *old(camera),
            old(ecs)@.len() as int,
        ),
{
    let mut buffer = CommandBuffer::new();
    let n = ecs.len();
    let mut i: usize = 0;
    while i < n
        invariant
            map.wf(),
            i <= n,
            n == ecs@.len(),
            ecs@ == old(ecs)@,
            buffer.commands@ == movement_commands(ecs@, *map, i as int),
            *camera == camera_after(ecs@, *map, *old(camera), i as int),
        decreases n - i,
    {
        let e = &ecs.entities[i];
        if e.alive {
            if let Some(wm) = e.wants_to_move {
                if map.can_enter_tile(wm.destination) {
                    buffer.add_position(wm.entity, wm.destination);
                    if wm.entity.id < n {
                        let target = &ecs.entities[wm.entity.id];
                        if target.alive && target.player.is_some() {
                            camera.on_player_move(wm.destination);
                        }
                    }
                }
                buffer.remove(Entity { id: i });
            }
        }
        i += 1;
    }
    buffer.flush(ecs);
}

} // verus!
