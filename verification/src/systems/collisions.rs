//! Contact resolution: an enemy standing on the same tile as the player is
//! removed outright (contact kills the non-player). Removals are requested
//! through the deferred command buffer and applied after the pass.
use vstd::prelude::*;
use crate::components::Entity;
use crate::geometry::Point;
use crate::world::{
    apply_command, apply_commands, killed, lemma_apply_commands_concat, player_at, Command,
    CommandBuffer, EntityData, World,
};

verus! {

/// Whether slot `i` holds a live enemy sharing its tile with a live player.
pub open spec fn enemy_on_player(w: Seq<EntityData>, i: int) -> bool {
    &&& 0 <= i < w.len()
    &&& w[i].alive
    &&& w[i].enemy is Some
    &&& w[i].position is Some
    &&& player_at(w, w[i].position->0)
}

/// The world after contact resolution: exactly the enemies on the player's
/// tile are removed; every other slot is untouched.
pub open spec fn collisions_spec(w: Seq<EntityData>) -> Seq<EntityData> {
    Seq::new(
        w.len(),
        |i: int|
            if enemy_on_player(w, i) {
                killed(w[i])
            } else {
                w[i]
            },
    )
}

/// The removal commands for the slots below `n`, in slot order.
pub open spec fn collision_commands(w: Seq<EntityData>, n: int) -> Seq<Command>
    decreases n,
{
    if n <= 0 {
        Seq::empty()
    } else {
        collision_commands(w, n - 1) + (if enemy_on_player(w, n - 1) {
            seq![Command::Remove { target: Entity { id: (n - 1) as usize } }]
        } else {
            Seq::empty()
        })
    }
}

/// Applying the removal commands for the slots below `n` kills exactly the
/// colliding slots below `n`.
proof fn lemma_collision_fold(w: Seq<EntityData>, n: int)
    requires
        0 <= n <= w.len() <= usize::MAX,
    ensures
        apply_commands(w, collision_commands(w, n)).len() == w.len(),
        forall|j: int|
            0 <= j < w.len() ==> apply_commands(w, collision_commands(w, n))[j] == (
            if enemy_on_player(w, j) && j < n {
                killed(w[j])
            } else {
                w[j]
            }),
    decreases n,
{
    if n > 0 {
        lemma_collision_fold(w, n - 1);
        let prev = apply_commands(w, collision_commands(w, n - 1));
        let step = if enemy_on_player(w, n - 1) {
            seq![Command::Remove { target: Entity { id: (n - 1) as usize } }]
        } else {
            Seq::<Command>::empty()
        };
        let full = apply_commands(w, collision_commands(w, n));
        lemma_apply_commands_concat(w, collision_commands(w, n - 1), step);
        if enemy_on_player(w, n - 1) {
            assert(step.drop_first() =~= Seq::<Command>::empty());
            assert(apply_commands(prev, step) == apply_commands(
                apply_command(prev, step[0]),
                Seq::<Command>::empty(),
            ));
            assert(full == prev.update(n - 1, killed(prev[n - 1])));
        } else {
            assert(full == prev);
        }
        assert forall|j: int| 0 <= j < w.len() implies full[j] == (if enemy_on_player(w, j) && j
            < n {
            killed(w[j])
        } else {
            w[j]
        }) by {
            assert(prev[j] == (if enemy_on_player(w, j) && j < n - 1 {
                killed(w[j])
            } else {
                w[j]
            }));
        }
    }
}

/// Remove every enemy that shares a tile with the player. The pass reads a
/// stable snapshot; removals are buffered and applied at the end.
pub fn collisions(ecs: &mut World)
    ensures
        final(ecs)@ == collisions_spec(old(ecs)@),
{
    let mut buffer = CommandBuffer::new();
    let n = ecs.len();
    let mut i: usize = 0;
    while i < n
        invariant
            i <= n,
            n == ecs@.len(),
            ecs@ == old(ecs)@,
            buffer.commands@ == collision_commands(ecs@, i as int),
        decreases n - i,
    {
        let e = &ecs.entities[i];
        let mut dies = false;
        if e.alive && e.enemy.is_some() {
            if let Some(p) = e.position {
                if has_player_at(ecs, p) {
                    dies = true;
                }
            }
        }
        if dies {
            buffer.remove(Entity { id: i });
        }
        i += 1;
    }
    let ghost w0 = ecs@;
    buffer.flush(ecs);
    proof {
        lemma_collision_fold(w0, w0.len() as int);
        assert(ecs@ =~= collisions_spec(w0));
    }
}

/// Whether a live player stands at `p`.
fn has_player_at(ecs: &World, p: Point) -> (r: bool)
    ensures
        r == player_at(ecs@, p),
{
    let n = ecs.len();
    let mut j: usize = 0;
    while j < n
        invariant
            j <= n,
            n == ecs@.len(),
            forall|k: int|
                0 <= k < j ==> !(ecs@[k].alive && ecs@[k].player is Some && ecs@[k].position
                    == Some(p)),
        decreases n - j,
    {
        let e = &ecs.entities[j];
        if e.alive && e.player.is_some() {
            if let Some(q) = e.position {
                if q == p {
                    return true;
                }
            }
        }
        j += 1;
    }
    false
}

} // verus!
