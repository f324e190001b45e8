//! Spawning: the player, the monsters, and the amulet, each created as one
//! entity with its component set.
use vstd::prelude::*;
use crate::components::{
    AmuletOfYala, ColorPair, Enemy, FieldOfView, FontCharType, Health, Item, MovingRandomly, Name,
    Player, Render, Rgb,
};
use crate::geometry::Point;
use crate::rng::rng_roll_dice;
use crate::world::{EntityData, World};

verus! {

/// White on black, the palette every spawned entity is drawn in.
pub open spec fn spec_white_on_black() -> ColorPair {
    ColorPair { fg: Rgb { r: 255, g: 255, b: 255 }, bg: Rgb { r: 0, g: 0, b: 0 } }
}

/// The glyph of the player: `@`.
pub const GLYPH_PLAYER: FontCharType = 64;

/// The glyph of a goblin: `g`.
pub const GLYPH_GOBLIN: FontCharType = 103;

/// The glyph of an orc: `o`.
pub const GLYPH_ORC: FontCharType = 111;

/// The glyph of the amulet: `|`.
pub const GLYPH_AMULET: FontCharType = 124;

/// The component set of a freshly spawned player at `pos`: the player tag
/// on level zero, full health, a dirty field of view of radius eight, and
/// nothing else.
pub open spec fn is_player_spawn(e: EntityData, pos: Point) -> bool {
    &&& e.alive
    &&& e.player == Some(Player { map_level: 0 })
    &&& e.position == Some(pos)
    &&& e.render == Some(Render { color: spec_white_on_black(), glyph: GLYPH_PLAYER })
    &&& e.health == Some(Health { current: 10, max: 10 })
    &&& e.field_of_view matches Some(f) && f.radius == 8 && f.is_dirty && f.visible_tiles@
        == Seq::<Point>::empty()
    &&& e.enemy is None
    &&& e.moving_randomly is None
    &&& e.chasing_player is None
    &&& e.name is None
    &&& e.item is None
    &&& e.amulet is None
    &&& e.provides_healing is None
    &&& e.provides_dungeon_map is None
    &&& e.carried is None
    &&& e.wants_to_move is None
    &&& e.wants_to_attack is None
    &&& e.activate_item is None
}

/// The component set of a freshly spawned monster at `pos`: the enemy and
/// random-walk tags, and either a goblin (one hit point, glyph `g`) or an
/// orc (two hit points, glyph `o`), at full health, and nothing else.
pub open spec fn is_monster_spawn(e: EntityData, pos: Point) -> bool {
    &&& e.alive
    &&& e.enemy == Some(Enemy)
    &&& e.moving_randomly == Some(MovingRandomly)
    &&& e.position == Some(pos)
    &&& e.render matches Some(r) && e.health matches Some(h) && e.name matches Some(nm) && {
        &&& r.color == spec_white_on_black()
        &&& h.current == h.max
        &&& {
            ||| (h.max == 1 && r.glyph == GLYPH_GOBLIN && nm.0@ == "Goblin"@)
            ||| (h.max == 2 && r.glyph == GLYPH_ORC && nm.0@ == "Orc"@)
        }
    }
    &&& e.player is None
    &&& e.chasing_player is None
    &&& e.field_of_view is None
    &&& e.item is None
    &&& e.amulet is None
    &&& e.provides_healing is None
    &&& e.provides_dungeon_map is None
    &&& e.carried is None
    &&& e.wants_to_move is None
    &&& e.wants_to_attack is None
    &&& e.activate_item is None
}

/// The component set of the freshly spawned amulet at `pos`: the item and
/// amulet tags, its name and glyph, and nothing else.
pub open spec fn is_amulet_spawn(e: EntityData, pos: Point) -> bool {
    &&& e.alive
    &&& e.item == Some(Item)
    &&& e.amulet == Some(AmuletOfYala)
    &&& e.position == Some(pos)
    &&& e.render == Some(Render { color: spec_white_on_black(), glyph: GLYPH_AMULET })
    &&& e.name matches Some(nm) && nm.0@ == "Amulet of Yala"@
    &&& e.player is None
    &&& e.enemy is None
    &&& e.moving_randomly is None
    &&& e.chasing_player is None
    &&& e.health is None
    &&& e.field_of_view is None
    &&& e.provides_healing is None
    &&& e.provides_dungeon_map is None
    &&& e.carried is None
    &&& e.wants_to_move is None
    &&& e.wants_to_attack is None
    &&& e.activate_item is None
}

/// Add the player and their components to the world.
pub fn spawn_player(ecs: &mut World, pos: Point)
    ensures
        final(ecs)@.len() == old(ecs)@.len() + 1,
        forall|i: int| 0 <= i < old(ecs)@.len() ==> final(ecs)@[i] == old(ecs)@[i],
        is_player_spawn(final(ecs)@.last(), pos),
{
    let mut e = EntityData::new();
    e.player = Some(Player { map_level: 0 });
    e.position = Some(pos);
    e.render = Some(
        Render { color: ColorPair::new(Rgb::white(), Rgb::black()), glyph: GLYPH_PLAYER },
    );
    e.health = Some(Health { current: 10, max: 10 });
    e.field_of_view = Some(FieldOfView::new(8));
    ecs.push(e);
}

/// The stats of a goblin: one hit point, its name, and glyph `g`.
pub fn goblin() -> (r: (i32, String, FontCharType))
    ensures
        r.0 == 1,
        r.1@ == "Goblin"@,
        r.2 == GLYPH_GOBLIN,
{
    (1, "Goblin".to_owned(), GLYPH_GOBLIN)
}

/// The stats of an orc: two hit points, its name, and glyph `o`.
pub fn orc() -> (r: (i32, String, FontCharType))
    ensures
        r.0 == 2,
        r.1@ == "Orc"@,
        r.2 == GLYPH_ORC,
{
    (2, "Orc".to_owned(), GLYPH_ORC)
}

/// Add a monster and its components to the world: a ten-sided roll picks a
/// goblin on one through eight, an orc otherwise.
pub fn spawn_monster(
    ecs: &mut World,
    rng: &mut bracket_lib::random::RandomNumberGenerator,
    pos: Point,
)
    ensures
        final(ecs)@.len() == old(ecs)@.len() + 1,
        forall|i: int| 0 <= i < old(ecs)@.len() ==> final(ecs)@[i] == old(ecs)@[i],
        is_monster_spawn(final(ecs)@.last(), pos),
{
    let roll = rng_roll_dice(rng, 1, 10);
    let (hp, name, glyph) = if 1 <= roll && roll <= 8 {
        goblin()
    } else {
        orc()
    };

    let mut e = EntityData::new();
    e.enemy = Some(Enemy);
    e.position = Some(pos);
    e.render = Some(Render { color: ColorPair::new(Rgb::white(), Rgb::black()), glyph });
    e.moving_randomly = Some(MovingRandomly);
    e.health = Some(Health { current: hp, max: hp });
    e.name = Some(Name(name));
    ecs.push(e);
}

/// Add the amulet — the singleton goal object — and its components to the
/// world.
pub fn spawn_amulet_of_yala(ecs: &mut World, pos: Point)
    ensures
        final(ecs)@.len() == old(ecs)@.len() + 1,
        forall|i: int| 0 <= i < old(ecs)@.len() ==> final(ecs)@[i] == old(ecs)@[i],
        is_amulet_spawn(final(ecs)@.last(), pos),
{
    let mut e = EntityData::new();
    e.item = Some(Item);
    e.amulet = Some(AmuletOfYala);
    e.position = Some(pos);
    e.render = Some(
        Render { color: ColorPair::new(Rgb::white(), Rgb::black()), glyph: GLYPH_AMULET },
    );
    e.name = Some(Name("Amulet of Yala".to_owned()));
    ecs.push(e);
}

/// Populate a level: spawn one monster per spawn point, in order. Which
/// template a level number selects is the excluded asset loader's
/// business; the core spawns its own monster mix.
pub fn spawn_level(
    ecs: &mut World,
    rng: &mut bracket_lib::random::RandomNumberGenerator,
    _level: usize,
    spawn_points: &Vec<Point>,
)
    ensures
        final(ecs)@.len() == old(ecs)@.len() + spawn_points@.len(),
        forall|i: int| 0 <= i < old(ecs)@.len() ==> final(ecs)@[i] == old(ecs)@[i],
        forall|k: int|
            0 <= k < spawn_points@.len() ==> is_monster_spawn(
                #[trigger] final(ecs)@[old(ecs)@.len() + k],
                spawn_points@[k],
            ),
{
    let mut k: usize = 0;
    while k < spawn_points.len()
        invariant
            k <= spawn_points@.len(),
            ecs@.len() == old(ecs)@.len() + k,
            forall|i: int| 0 <= i < old(ecs)@.len() ==> ecs@[i] == old(ecs)@[i],
            forall|m: int|
                0 <= m < k ==> is_monster_spawn(
                    #[trigger] ecs@[old(ecs)@.len() + m],
                    spawn_points@[m],
                ),
        decreases spawn_points@.len() - k,
    {
        let pos = spawn_points[k];
        spawn_monster(ecs, rng, pos);
        k += 1;
    }
}

} // verus!
