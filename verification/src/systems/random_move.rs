//! Random-walk intent generation: each random walker draws one of the four
//! unit directions. If any live entity occupies the destination tile, the
//! walker is blocked — it emits an attack intent against each player
//! occupant and nothing against anyone else. An unoccupied destination gets
//! a movement intent.
use vstd::prelude::*;
use crate::components::{Entity, WantsToAttack, WantsToMove};
use crate::geometry::{direction_delta, point_plus, Direction, Point};
use crate::world::{
    apply_commands, occupied_at, positions_step_fit, Command, CommandBuffer, EntityData, World,
};

verus! {

/// Whether slot `i` holds a live random walker with a position.
pub open spec fn is_walker(w: Seq<EntityData>, i: int) -> bool {
    &&& 0 <= i < w.len()
    &&& w[i].alive
    &&& w[i].moving_randomly is Some
    &&& w[i].position is Some
}

/// Whether slot `j` holds a live player standing at `dest`.
pub open spec fn is_player_occupant(w: Seq<EntityData>, j: int, dest: Point) -> bool {
    &&& 0 <= j < w.len()
    &&& w[j].alive
    &&& w[j].position == Some(dest)
    &&& w[j].player is Some
}

/// The attack intents walker `attacker` emits toward `dest`: one per
/// player occupant among the slots below `n`, in slot order.
pub open spec fn attack_commands(w: Seq<EntityData>, attacker: int, dest: Point, n: int) -> Seq<
    Command,
>
    decreases n,
{
    if n <= 0 {
        Seq::empty()
    } else {
        attack_commands(w, attacker, dest, n - 1) + (if is_player_occupant(w, n - 1, dest) {
            seq![
                Command::SpawnAttackIntent {
                    intent: WantsToAttack {
                        attacker: Entity { id: attacker as usize },
                        victim: Entity { id: (n - 1) as usize },
                    },
                },
            ]
        } else {
            Seq::empty()
        })
    }
}

/// With nobody at `dest`, no attack intents are emitted.
pub proof fn lemma_attacks_empty(w: Seq<EntityData>, attacker: int, dest: Point, n: int)
    requires
        !occupied_at(w, dest),
        n <= w.len(),
    ensures
        attack_commands(w, attacker, dest, n) == Seq::<Command>::empty(),
    decreases n,
{
    if n > 0 {
        lemma_attacks_empty(w, attacker, dest, n - 1);
        assert(!is_player_occupant(w, n - 1, dest));
        assert(attack_commands(w, attacker, dest, n) =~= Seq::<Command>::empty());
    }
}

/// The commands walker `i` emits after drawing direction `d`: attack
/// intents when the destination holds a player, nothing when it holds only
/// non-players, a movement intent when it is free.
pub open spec fn walk_commands_at(w: Seq<EntityData>, i: int, d: Direction) -> Seq<Command> {
    if is_walker(w, i) {
        let dest = point_plus(w[i].position->0, direction_delta(d));
        if occupied_at(w, dest) {
            attack_commands(w, i, dest, w.len() as int)
        } else {
            seq![
                Command::SpawnMoveIntent {
                    intent: WantsToMove { entity: Entity { id: i as usize }, destination: dest },
                },
            ]
        }
    } else {
        Seq::empty()
    }
}

/// The commands of all walkers below `n`, walker `k` drawing `dirs[k]`.
pub open spec fn random_walk_commands(w: Seq<EntityData>, dirs: Seq<Direction>, n: int) -> Seq<
    Command,
>
    decreases n,
{
    if n <= 0 {
        Seq::empty()
    } else {
        random_walk_commands(w, dirs, n - 1) + walk_commands_at(w, n - 1, dirs[n - 1])
    }
}

/// A walker whose destination is occupied only by non-players emits
/// neither a movement nor an attack intent that tick.
pub proof fn lemma_blocked_walker(w: Seq<EntityData>, i: int, d: Direction)
    requires
        is_walker(w, i),
        occupied_at(w, point_plus(w[i].position->0, direction_delta(d))),
        forall|j: int|
            !is_player_occupant(w, j, point_plus(w[i].position->0, direction_delta(d))),
    ensures
        walk_commands_at(w, i, d) == Seq::<Command>::empty(),
{
    let dest = point_plus(w[i].position->0, direction_delta(d));
    lemma_no_player_attacks(w, i, dest, w.len() as int);
}

/// With no player at `dest`, the attack list is empty however many slots
/// are scanned.
proof fn lemma_no_player_attacks(w: Seq<EntityData>, attacker: int, dest: Point, n: int)
    requires
        forall|j: int| !is_player_occupant(w, j, dest),
        n <= w.len(),
    ensures
        attack_commands(w, attacker, dest, n) == Seq::<Command>::empty(),
    decreases n,
{
    if n > 0 {
        lemma_no_player_attacks(w, attacker, dest, n - 1);
        assert(attack_commands(w, attacker, dest, n) =~= Seq::<Command>::empty());
    }
}

/// Run the random-walk policy for every walker: draw a direction each,
/// emit the walkers' intents through the deferred buffer, and apply them.
/// Whatever directions the generator returns, the result is the walkers'
/// commands for some sequence of drawn directions.
pub fn random_move(ecs: &mut World, rng: &mut bracket_lib::random::RandomNumberGenerator)
    requires
        positions_step_fit(old(ecs)@),
    ensures
        exists|dirs: Seq<Direction>|
            dirs.len() == old(ecs)@.len() && final(ecs)@ == apply_commands(
                old(ecs)@,
                random_walk_commands(old(ecs)@, dirs, old(ecs)@.len() as int),
            ),
{
    let mut buffer = CommandBuffer::new();
    let ghost mut dirs: Seq<Direction> = Seq::empty();
    let n = ecs.len();
    let mut i: usize = 0;
    while i < n
        invariant
            i <= n,
            n == ecs@.len(),
            ecs@ == old(ecs)@,
            positions_step_fit(ecs@),
            dirs.len() == i,
            buffer.commands@ == random_walk_commands(ecs@, dirs, i as int),
        decreases n - i,
    {
        let ghost dirs_before = dirs;
        let e = &ecs.entities[i];
        let mut walker_pos: Option<Point> = None;
        if e.alive && e.moving_randomly.is_some() {
            walker_pos = e.position;
        }
        if let Some(p) = walker_pos {
            let roll = crate::rng::rng_range(rng, 0, 4);
            let d = if roll == 0 {
                Direction::Left
            } else if roll == 1 {
                Direction::Right
            } else if roll == 2 {
                Direction::Up
            } else {
                Direction::Down
            };
            let delta = d.delta();
            proof {
                assert(-1 <= delta.x <= 1 && -1 <= delta.y <= 1);
                dirs = dirs.push(d);
            }
            let destination = Point { x: p.x + delta.x, y: p.y + delta.y };

            let mut attacked = false;
            let mut j: usize = 0;
            while j < n
                invariant
                    j <= n,
                    n == ecs@.len(),
                    ecs@ == old(ecs)@,
                    is_walker(ecs@, i as int),
                    i < n,
                    destination == point_plus(ecs@[i as int].position->0, direction_delta(d)),
                    attacked == exists|k: int|
                        0 <= k < j && ecs@[k].alive && ecs@[k].position == Some(destination),
                    buffer.commands@ == random_walk_commands(ecs@, dirs_before, i as int)
                        + attack_commands(ecs@, i as int, destination, j as int),
                decreases n - j,
            {
                let occ = &ecs.entities[j];
                if occ.alive && occ.position.is_some() {
                    let q = occ.position.unwrap();
                    if q == destination {
                        if occ.player.is_some() {
                            buffer.push_attack_intent(
                                WantsToAttack {
                                    attacker: Entity { id: i },
                                    victim: Entity { id: j },
                                },
                            );
                        }
                        attacked = true;
                    }
                }
                j += 1;
            }

            if !attacked {
                proof {
                    lemma_attacks_empty(ecs@, i as int, destination, n as int);
                }
                buffer.push_move_intent(
                    WantsToMove { entity: Entity { id: i }, destination },
                );
            }
            proof {
                assert(buffer.commands@ =~= random_walk_commands(ecs@, dirs_before, i as int)
                    + walk_commands_at(ecs@, i as int, dirs[i as int]));
            }
        } else {
            proof {
                dirs = dirs.push(Direction::Left);
                assert(walk_commands_at(ecs@, i as int, dirs[i as int]) =~= Seq::<Command>::empty());
                assert(buffer.commands@ =~= random_walk_commands(ecs@, dirs_before, i as int)
                    + walk_commands_at(ecs@, i as int, dirs[i as int]));
            }
        }
        proof {
            assert(random_walk_commands(ecs@, dirs, i + 1) == random_walk_commands(
                ecs@,
                dirs,
                i as int,
            ) + walk_commands_at(ecs@, i as int, dirs[i as int]));
            lemma_walk_prefix_same(ecs@, dirs_before, dirs, i as int);
        }
        i += 1;
    }
    let ghost w0 = ecs@;
    buffer.flush(ecs);
    proof {
        assert(dirs.len() == w0.len() && ecs@ == apply_commands(
            w0,
            random_walk_commands(w0, dirs, w0.len() as int),
        ));
    }
}

/// The commands of the walkers below `n` depend only on the first `n`
/// drawn directions.
proof fn lemma_walk_prefix_same(
    w: Seq<EntityData>,
    dirs1: Seq<Direction>,
    dirs2: Seq<Direction>,
    n: int,
)
    requires
        forall|k: int| 0 <= k < n ==> dirs1[k] == dirs2[k],
    ensures
        random_walk_commands(w, dirs1, n) == random_walk_commands(w, dirs2, n),
    decreases n,
{
    if n > 0 {
        lemma_walk_prefix_same(w, dirs1, dirs2, n - 1);
    }
}

} // verus!
