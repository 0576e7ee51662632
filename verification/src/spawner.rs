//! Spawning monsters: fully-formed entities with position, glyph, sight,
//! name, combat stats and a blocking footprint. The player entity is made
//! once, by `World::new`.

use vstd::prelude::*;
use crate::components::{CombatStats, FieldOfView, Name, Position, Renderable, Rgb8};
use crate::world::World;

verus! {

/// Spawn one monster at `(x, y)` with the given glyph and name and the
/// standard monster stats. Returns its entity identifier; no existing
/// entity or resource is touched.
pub fn monster(ecs: &mut World, x: i32, y: i32, glyph: char, name: &str) -> (e: usize)
    requires
        old(ecs).wf(),
        old(ecs).map.in_bounds_spec(x as int, y as int),
    ensures
        final(ecs).wf(),
        e == old(ecs).n(),
        final(ecs).n() == old(ecs).n() + 1,
        final(ecs).alive[e as int] && final(ecs).monster[e as int] && !final(ecs).player[e as int]
            && final(ecs).blocks_tile[e as int],
        final(ecs).positions[e as int] == Some(Position { x, y }),
        final(ecs).renderables[e as int] is Some && final(ecs).renderables[e as int]->Some_0.glyph == glyph,
        final(ecs).names[e as int] is Some && final(ecs).names[e as int]->Some_0.name@ == name@,
        final(ecs).fovs[e as int] is Some && final(ecs).fovs[e as int]->Some_0.range == 8,
        final(ecs).combat_stats[e as int] == Some(
            CombatStats { max_hp: 16, hp: 16, defense: 1, power: 4 },
        ),
        final(ecs).wants_melee[e as int] is None,
        final(ecs).suffer_damage[e as int] is None,
        final(ecs).alive@ == old(ecs).alive@.push(true),
        forall|j: int| #![trigger final(ecs).positions[j]]
            0 <= j < old(ecs).n() ==> final(ecs).positions[j] == old(ecs).positions[j]
                && final(ecs).renderables[j] == old(ecs).renderables[j] && final(ecs).player[j]
                == old(ecs).player[j] && final(ecs).monster[j] == old(ecs).monster[j] && final(ecs).names[j] == old(ecs).names[j] && final(ecs).fovs[j] == old(ecs).fovs[j] && final(ecs).blocks_tile[j] == old(ecs).blocks_tile[j] && final(ecs).combat_stats[j] == old(ecs).combat_stats[j] && final(ecs).wants_melee[j] == old(ecs).wants_melee[j] && final(ecs).suffer_damage[j] == old(ecs).suffer_damage[j],
        final(ecs).map == old(ecs).map,
        final(ecs).run_state == old(ecs).run_state,
        final(ecs).log == old(ecs).log,
        final(ecs).player_entity == old(ecs).player_entity,
        final(ecs).player_pos == old(ecs).player_pos,
        final(ecs).player_dead == old(ecs).player_dead,
{
    let ghost w0 = *ecs;
    let e = ecs.new_entity();
    let fov_len: usize = ecs.map.tiles.len();
    ecs.positions.set(e, Some(Position { x, y }));
    ecs.renderables.set(e, Some(Renderable { glyph, fg: Rgb8 { r: 255, g: 0, b: 0 } }));
    ecs.monster.set(e, true);
    ecs.names.set(e, Some(Name { name: name.to_owned() }));
    ecs.fovs.set(e, Some(FieldOfView { visible_tiles: vec![false; fov_len], range: 8 }));
    ecs.blocks_tile.set(e, true);
    ecs.combat_stats.set(e, Some(CombatStats { max_hp: 16, hp: 16, defense: 1, power: 4 }));
    proof {
        assert forall|j: int| 0 <= j < ecs.n() implies ecs.entity_wf(j) by {
            if j < w0.n() {
                assert(w0.entity_wf(j));
            }
        }
    }
    e
}

/// Spawn a randomly chosen monster: the caller rolls a die (the stream is
/// the random-number resource) and hands in the result; a roll of 1 gives
/// an orc, anything else a goblin.
pub fn random_monster(ecs: &mut World, x: i32, y: i32, roll: i32) -> (e: usize)
    requires
        old(ecs).wf(),
        old(ecs).map.in_bounds_spec(x as int, y as int),
    ensures
        final(ecs).wf(),
        e == old(ecs).n(),
        final(ecs).n() == old(ecs).n() + 1,
        final(ecs).alive[e as int] && final(ecs).monster[e as int],
        final(ecs).positions[e as int] == Some(Position { x, y }),
        final(ecs).names[e as int] is Some && final(ecs).names[e as int]->Some_0.name@ == if roll
            == 1 {
            "Orc"@
        } else {
            "Goblin"@
        },
        final(ecs).renderables[e as int] is Some && final(ecs).renderables[e as int]->Some_0.glyph == (if roll == 1 {
            'o'
        } else {
            'g'
        }),
        final(ecs).combat_stats[e as int] == Some(
            CombatStats { max_hp: 16, hp: 16, defense: 1, power: 4 },
        ),
        final(ecs).map == old(ecs).map,
        final(ecs).run_state == old(ecs).run_state,
        final(ecs).player_entity == old(ecs).player_entity,
{
    if roll == 1 {
        monster(ecs, x, y, 'o', "Orc")
    } else {
        monster(ecs, x, y, 'g', "Goblin")
    }
}

} // verus!
