//! The entity/component world: an arena of per-entity component records,
//! and the deferred command buffer through which systems request structural
//! changes. Queries during a system's pass observe a stable snapshot;
//! buffered commands are applied only between systems, in the order they
//! were issued.
use vstd::prelude::*;
use crate::components::{
    ActivateItem, AmuletOfYala, Carried, ChasingPlayer, Enemy, Entity, FieldOfView, Health, Item,
    MovingRandomly, Name, Player, ProvidesDungeonMap, ProvidesHealing, Render, WantsToAttack,
    WantsToMove,
};
use crate::geometry::Point;

verus! {

/// The component set of one entity. Each component is optional; a removed
/// entity keeps its slot (indices stay stable) but is no longer alive.
#[derive(Clone, Debug)]
pub struct EntityData {
    /// Whether the entity is still in play.
    pub alive: bool,
    pub position: Option<Point>,
    pub render: Option<Render>,
    pub player: Option<Player>,
    pub enemy: Option<Enemy>,
    pub moving_randomly: Option<MovingRandomly>,
    pub chasing_player: Option<ChasingPlayer>,
    pub health: Option<Health>,
    pub name: Option<Name>,
    pub field_of_view: Option<FieldOfView>,
    pub item: Option<Item>,
    pub amulet: Option<AmuletOfYala>,
    pub provides_healing: Option<ProvidesHealing>,
    pub provides_dungeon_map: Option<ProvidesDungeonMap>,
    pub carried: Option<Carried>,
    pub wants_to_move: Option<WantsToMove>,
    pub wants_to_attack: Option<WantsToAttack>,
    pub activate_item: Option<ActivateItem>,
}

/// A live entity with no components attached yet.
pub open spec fn spec_empty_entity() -> EntityData {
    EntityData {
        alive: true,
        position: None::<Point>,
        render: None::<Render>,
        player: None::<Player>,
        enemy: None::<Enemy>,
        moving_randomly: None::<MovingRandomly>,
        chasing_player: None::<ChasingPlayer>,
        health: None::<Health>,
        name: None::<Name>,
        field_of_view: None::<FieldOfView>,
        item: None::<Item>,
        amulet: None::<AmuletOfYala>,
        provides_healing: None::<ProvidesHealing>,
        provides_dungeon_map: None::<ProvidesDungeonMap>,
        carried: None::<Carried>,
        wants_to_move: None::<WantsToMove>,
        wants_to_attack: None::<WantsToAttack>,
        activate_item: None::<ActivateItem>,
    }
}

impl EntityData {
    /// A live entity with no components attached yet.
    pub fn new() -> (e: EntityData)
        ensures
            e == spec_empty_entity(),
    {
        EntityData {
            alive: true,
            position: None,
            render: None,
            player: None,
            enemy: None,
            moving_randomly: None,
            chasing_player: None,
            health: None,
            name: None,
            field_of_view: None,
            item: None,
            amulet: None,
            provides_healing: None,
            provides_dungeon_map: None,
            carried: None,
            wants_to_move: None,
            wants_to_attack: None,
            activate_item: None,
        }
    }
}

/// `e` with its position component attached or overwritten.
pub open spec fn with_position(e: EntityData, p: Point) -> EntityData {
    EntityData { position: Some(p), ..e }
}

/// `e` removed from play; its slot and components remain, so indices stay
/// stable.
pub open spec fn killed(e: EntityData) -> EntityData {
    EntityData { alive: false, ..e }
}

/// A fresh message entity carrying only a movement intent.
pub open spec fn move_message(intent: WantsToMove) -> EntityData {
    EntityData { wants_to_move: Some(intent), ..spec_empty_entity() }
}

/// A fresh message entity carrying only an attack intent.
pub open spec fn attack_message(intent: WantsToAttack) -> EntityData {
    EntityData { wants_to_attack: Some(intent), ..spec_empty_entity() }
}

/// A structural change a system may request during its pass; applied only
/// after the pass completes.
#[derive(Clone, Copy, PartialEq, Eq, Structural, Debug)]
pub enum Command {
    /// Attach or overwrite the position component of a live entity.
    SetPosition { target: Entity, destination: Point },
    /// Remove an entity from play.
    Remove { target: Entity },
    /// Spawn a fresh message entity carrying a movement intent.
    SpawnMoveIntent { intent: WantsToMove },
    /// Spawn a fresh message entity carrying an attack intent.
    SpawnAttackIntent { intent: WantsToAttack },
}

/// The effect of one deferred command on a world snapshot. Commands aimed
/// at missing or dead entities are silently dropped.
pub open spec fn apply_command(w: Seq<EntityData>, c: Command) -> Seq<EntityData> {
    match c {
        Command::SetPosition { target, destination } => {
            if target.id < w.len() && w[target.id as int].alive {
                w.update(target.id as int, with_position(w[target.id as int], destination))
            } else {
                w
            }
        },
        Command::Remove { target } => {
            if target.id < w.len() {
                w.update(target.id as int, killed(w[target.id as int]))
            } else {
                w
            }
        },
        Command::SpawnMoveIntent { intent } => w.push(move_message(intent)),
        Command::SpawnAttackIntent { intent } => w.push(attack_message(intent)),
    }
}

/// Deferred commands applied left to right, in the order they were issued.
pub open spec fn apply_commands(w: Seq<EntityData>, cs: Seq<Command>) -> Seq<EntityData>
    decreases cs.len(),
{
    if cs.len() == 0 {
        w
    } else {
        apply_commands(apply_command(w, cs[0]), cs.drop_first())
    }
}

/// Appending one command to a batch applies it after the rest.
pub proof fn lemma_apply_commands_snoc(w: Seq<EntityData>, cs: Seq<Command>, c: Command)
    ensures
        apply_commands(w, cs.push(c)) == apply_command(apply_commands(w, cs), c),
    decreases cs.len(),
{
    if cs.len() == 0 {
        assert(cs.push(c).drop_first() =~= Seq::<Command>::empty());
        assert(cs.push(c)[0] == c);
        assert(apply_commands(w, cs.push(c)) == apply_commands(
            apply_command(w, c),
            Seq::<Command>::empty(),
        ));
        assert(apply_commands(apply_command(w, c), Seq::<Command>::empty()) == apply_command(
            w,
            c,
        ));
        assert(apply_commands(w, cs) == w);
    } else {
        assert(cs.push(c).drop_first() =~= cs.drop_first().push(c));
        assert(cs.push(c)[0] == cs[0]);
        assert(apply_commands(w, cs.push(c)) == apply_commands(
            apply_command(w, cs[0]),
            cs.drop_first().push(c),
        ));
        lemma_apply_commands_snoc(apply_command(w, cs[0]), cs.drop_first(), c);
        assert(apply_commands(w, cs) == apply_commands(apply_command(w, cs[0]), cs.drop_first()));
    }
}

/// Applying a concatenation applies the first batch, then the second.
pub proof fn lemma_apply_commands_concat(w: Seq<EntityData>, a: Seq<Command>, b: Seq<Command>)
    ensures
        apply_commands(w, a + b) == apply_commands(apply_commands(w, a), b),
    decreases a.len(),
{
    if a.len() == 0 {
        assert(a + b =~= b);
    } else {
        assert((a + b)[0] == a[0]);
        assert((a + b).drop_first() =~= a.drop_first() + b);
        lemma_apply_commands_concat(apply_command(w, a[0]), a.drop_first(), b);
    }
}

/// Whether a live player with a position stands at `p`.
pub open spec fn player_at(w: Seq<EntityData>, p: Point) -> bool {
    exists|j: int|
        0 <= j < w.len() && w[j].alive && w[j].player is Some && w[j].position == Some(p)
}

/// Whether any live entity with a position stands at `p`.
pub open spec fn occupied_at(w: Seq<EntityData>, p: Point) -> bool {
    exists|j: int| 0 <= j < w.len() && w[j].alive && w[j].position == Some(p)
}

/// Every live positioned entity can take a unit step in any direction
/// without leaving `i32`.
pub open spec fn positions_step_fit(w: Seq<EntityData>) -> bool {
    forall|i: int|
        0 <= i < w.len() && w[i].alive && #[trigger] w[i].position is Some ==> {
            &&& i32::MIN < w[i].position->0.x < i32::MAX
            &&& i32::MIN < w[i].position->0.y < i32::MAX
        }
}

/// Every entity that has a position stands inside the map grid.
pub open spec fn positions_in_bounds(w: Seq<EntityData>) -> bool {
    forall|i: int|
        0 <= i < w.len() && #[trigger] w[i].position is Some ==> crate::map::spec_in_bounds(
            w[i].position->0,
        )
}

/// Whether slot `i` holds the live amulet in a shape no system removes: it
/// has a position and is neither an enemy nor a message entity.
pub open spec fn amulet_witness(w: Seq<EntityData>, i: int) -> bool {
    &&& 0 <= i < w.len()
    &&& w[i].alive
    &&& w[i].amulet is Some
    &&& w[i].position is Some
    &&& w[i].enemy is None
    &&& w[i].wants_to_move is None
}

/// The amulet exists and stays out of every system's line of fire.
pub open spec fn amulet_safe(w: Seq<EntityData>) -> bool {
    exists|i: int| amulet_witness(w, i)
}

/// The invariant the game maintains across ticks: every position is inside
/// the grid, and the amulet is present and safe.
pub open spec fn world_ok(w: Seq<EntityData>) -> bool {
    positions_in_bounds(w) && amulet_safe(w)
}

/// In-grid positions leave room for a unit step in `i32`.
pub proof fn lemma_bounds_step_fit(w: Seq<EntityData>)
    requires
        positions_in_bounds(w),
    ensures
        positions_step_fit(w),
{
}

/// Whether one command keeps the game invariant, judged against the
/// snapshot the issuing system read: a position update lands inside the
/// grid, a removal hits only a message entity, and spawns are always safe.
pub open spec fn command_preserves(w: Seq<EntityData>, c: Command) -> bool {
    match c {
        Command::SetPosition { target, destination } => crate::map::spec_in_bounds(destination),
        Command::Remove { target } => target.id < w.len() && w[target.id as int].wants_to_move
            is Some,
        Command::SpawnMoveIntent { intent } => true,
        Command::SpawnAttackIntent { intent } => true,
    }
}

/// Every command of the batch keeps the game invariant.
pub open spec fn commands_preserve(w: Seq<EntityData>, cs: Seq<Command>) -> bool {
    forall|k: int| 0 <= k < cs.len() ==> command_preserves(w, #[trigger] cs[k])
}

/// Splitting a batch splits the invariant-keeping condition.
pub proof fn lemma_commands_preserve_concat(
    w: Seq<EntityData>,
    a: Seq<Command>,
    b: Seq<Command>,
)
    requires
        commands_preserve(w, a),
        commands_preserve(w, b),
    ensures
        commands_preserve(w, a + b),
{
    assert forall|k: int| 0 <= k < (a + b).len() implies command_preserves(
        w,
        #[trigger] (a + b)[k],
    ) by {
        if k < a.len() {
            assert((a + b)[k] == a[k]);
        } else {
            assert((a + b)[k] == b[k - a.len()]);
        }
    }
}

/// Applying an invariant-keeping batch keeps the game invariant, and
/// leaves the pre-existing slots' tags, intents, and (for non-messages)
/// liveness untouched.
pub proof fn lemma_apply_preserves(w: Seq<EntityData>, cs: Seq<Command>)
    requires
        positions_in_bounds(w),
        commands_preserve(w, cs),
    ensures
        ({
            let r = apply_commands(w, cs);
            &&& r.len() >= w.len()
            &&& positions_in_bounds(r)
            &&& forall|j: int|
                0 <= j < w.len() ==> {
                    &&& (#[trigger] r[j]).amulet == w[j].amulet
                    &&& r[j].enemy == w[j].enemy
                    &&& r[j].wants_to_move == w[j].wants_to_move
                    &&& (w[j].wants_to_move is None ==> r[j].alive == w[j].alive)
                    &&& (w[j].position is Some ==> r[j].position is Some)
                }
        }),
    decreases cs.len(),
{
    if cs.len() > 0 {
        let w1 = apply_command(w, cs[0]);
        assert(command_preserves(w, cs[0]));
        assert forall|j: int| 0 <= j < w.len() implies {
            &&& (#[trigger] w1[j]).amulet == w[j].amulet
            &&& w1[j].enemy == w[j].enemy
            &&& w1[j].wants_to_move == w[j].wants_to_move
            &&& (w[j].wants_to_move is None ==> w1[j].alive == w[j].alive)
            &&& (w[j].position is Some ==> w1[j].position is Some)
        } by {
            match cs[0] {
                Command::SetPosition { target, destination } => {},
                Command::Remove { target } => {},
                Command::SpawnMoveIntent { intent } => {},
                Command::SpawnAttackIntent { intent } => {},
            }
        }
        assert(positions_in_bounds(w1)) by {
            assert forall|i: int|
                0 <= i < w1.len() && #[trigger] w1[i].position is Some implies crate::map::spec_in_bounds(
                w1[i].position->0,
            ) by {
                match cs[0] {
                    Command::SetPosition { target, destination } => {
                        if i != target.id {
                            assert(w1[i] == w[i]);
                        }
                    },
                    Command::Remove { target } => {
                        if i != target.id {
                            assert(w1[i] == w[i]);
                        } else {
                            assert(w1[i].position == w[i].position);
                        }
                    },
                    Command::SpawnMoveIntent { intent } => {
                        if i < w.len() {
                            assert(w1[i] == w[i]);
                        } else {
                            assert(w1[i].position is None);
                        }
                    },
                    Command::SpawnAttackIntent { intent } => {
                        if i < w.len() {
                            assert(w1[i] == w[i]);
                        } else {
                            assert(w1[i].position is None);
                        }
                    },
                }
            }
        }
        assert(commands_preserve(w1, cs.drop_first())) by {
            assert forall|k: int| 0 <= k < cs.drop_first().len() implies command_preserves(
                w1,
                #[trigger] cs.drop_first()[k],
            ) by {
                assert(cs.drop_first()[k] == cs[k + 1]);
                assert(command_preserves(w, cs[k + 1]));
                match cs[k + 1] {
                    Command::Remove { target } => {
                        assert(w1.len() >= w.len());
                        assert(w1[target.id as int].wants_to_move == w[target.id as int].wants_to_move);
                    },
                    _ => {},
                }
            }
        }
        lemma_apply_preserves(w1, cs.drop_first());
    }
}

/// Applying an invariant-keeping batch keeps the amulet safe.
pub proof fn lemma_apply_keeps_amulet(w: Seq<EntityData>, cs: Seq<Command>)
    requires
        positions_in_bounds(w),
        commands_preserve(w, cs),
        amulet_safe(w),
    ensures
        amulet_safe(apply_commands(w, cs)),
{
    let i = choose|i: int| amulet_witness(w, i);
    lemma_apply_preserves(w, cs);
    assert(amulet_witness(apply_commands(w, cs), i));
}

/// The world: the single shared mutable store of all entities. Structural
/// mutation during a system's pass goes through a `CommandBuffer`.
pub struct World {
    /// The entity arena; an entity's identifier is its index here.
    pub entities: Vec<EntityData>,
}

impl View for World {
    type V = Seq<EntityData>;

    open spec fn view(&self) -> Seq<EntityData> {
        self.entities@
    }
}

impl World {
    /// An empty world.
    pub fn new() -> (w: World)
        ensures
            w@ == Seq::<EntityData>::empty(),
    {
        World { entities: Vec::new() }
    }

    /// How many entity slots exist (live and removed).
    pub fn len(&self) -> (n: usize)
        ensures
            n == self@.len(),
    {
        self.entities.len()
    }

    /// Create an entity from its component record; its identifier is the
    /// next free slot.
    pub fn push(&mut self, e: EntityData) -> (ent: Entity)
        ensures
            final(self)@ == old(self)@.push(e),
            ent.id == old(self)@.len(),
    {
        let id = self.entities.len();
        self.entities.push(e);
        Entity { id }
    }

    /// Apply one deferred command to the world.
    fn apply(&mut self, c: Command)
        ensures
            final(self)@ == apply_command(old(self)@, c),
    {
        match c {
            Command::SetPosition { target, destination } => {
                if target.id < self.entities.len() {
                    let slot = &mut self.entities[target.id];
                    if slot.alive {
                        slot.position = Some(destination);
                    }
                    proof {
                        if !old(self)@[target.id as int].alive {
                            assert(final(self)@ =~= old(self)@);
                        }
                    }
                }
            },
            Command::Remove { target } => {
                if target.id < self.entities.len() {
                    let slot = &mut self.entities[target.id];
                    slot.alive = false;
                }
            },
            Command::SpawnMoveIntent { intent } => {
                let mut e = EntityData::new();
                e.wants_to_move = Some(intent);
                self.entities.push(e);
            },
            Command::SpawnAttackIntent { intent } => {
                let mut e = EntityData::new();
                e.wants_to_attack = Some(intent);
                self.entities.push(e);
            },
        }
    }
}

/// The deferred-mutation queue: accumulates structural change requests
/// issued while a system iterates, to be applied atomically after the
/// system's pass.
pub struct CommandBuffer {
    /// The pending commands, in issue order.
    pub commands: Vec<Command>,
}

impl CommandBuffer {
    /// An empty buffer.
    pub fn new() -> (b: CommandBuffer)
        ensures
            b.commands@ == Seq::<Command>::empty(),
    {
        CommandBuffer { commands: Vec::new() }
    }

    /// Request that `target`'s position be attached or overwritten.
    pub fn add_position(&mut self, target: Entity, destination: Point)
        ensures
            final(self).commands@ == old(self).commands@.push(
                Command::SetPosition { target, destination },
            ),
    {
        self.commands.push(Command::SetPosition { target, destination });
    }

    /// Request that `target` be removed from play.
    pub fn remove(&mut self, target: Entity)
        ensures
            final(self).commands@ == old(self).commands@.push(Command::Remove { target }),
    {
        self.commands.push(Command::Remove { target });
    }

    /// Request a fresh message entity carrying a movement intent.
    pub fn push_move_intent(&mut self, intent: WantsToMove)
        ensures
            final(self).commands@ == old(self).commands@.push(
                Command::SpawnMoveIntent { intent },
            ),
    {
        self.commands.push(Command::SpawnMoveIntent { intent });
    }

    /// Request a fresh message entity carrying an attack intent.
    pub fn push_attack_intent(&mut self, intent: WantsToAttack)
        ensures
            final(self).commands@ == old(self).commands@.push(
                Command::SpawnAttackIntent { intent },
            ),
    {
        self.commands.push(Command::SpawnAttackIntent { intent });
    }

    /// Apply every buffered command to the world, in issue order, consuming
    /// the buffer.
    pub fn flush(self, world: &mut World)
        ensures
            final(world)@ == apply_commands(old(world)@, self.commands@),
    {
        let ghost cs = self.commands@;
        let mut i: usize = 0;
        while i < self.commands.len()
            invariant
                i <= cs.len(),
                self.commands@ == cs,
                world@ == apply_commands(old(world)@, cs.take(i as int)),
            decreases cs.len() - i,
        {
            let c = self.commands[i];
            world.apply(c);
            proof {
                assert(cs.take(i + 1 as int) =~= cs.take(i as int).push(cs[i as int]));
                lemma_apply_commands_snoc(old(world)@, cs.take(i as int), cs[i as int]);
            }
            i += 1;
        }
        proof {
            assert(cs.take(cs.len() as int) =~= cs);
        }
    }
}

} // verus!
