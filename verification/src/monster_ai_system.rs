//! Monster decisions: a monster that can see the player's tile and stands
//! within melee reach attaches an attack intent against the player;
//! otherwise it idles. Runs after visibility, so it always acts on this
//! turn's fresh sight.

use vstd::prelude::*;
use crate::components::WantsToMelee;
use crate::visibility_system::cheb;
use crate::world::World;

verus! {

/// Whether monster `e` decides to attack the player in world `w`: it is a
/// live monster with sight and a position, the player's tile is in its
/// visible set, and the player is at most one king-move away.
pub open spec fn wants_attack(w: World, e: int) -> bool {
    &&& 0 <= e < w.n()
    &&& w.alive[e]
    &&& w.monster[e]
    &&& w.fovs[e] is Some
    &&& w.positions[e] is Some
    &&& w.fovs[e]->Some_0.visible_tiles[w.map.idx_of(
        w.player_position().x as int,
        w.player_position().y as int,
    )]
    &&& cheb(
        w.positions[e]->Some_0.x as int,
        w.positions[e]->Some_0.y as int,
        w.player_position().x as int,
        w.player_position().y as int,
    ) <= 1
}

/// The monster-decision pass: exactly the monsters that see the adjacent
/// player get an attack intent against the player entity; every other
/// intent slot is left as it was. A monster never targets itself or
/// another monster.
pub fn run_monster_ai(ecs: &mut World)
    requires
        old(ecs).wf(),
    ensures
        final(ecs).wf(),
        final(ecs).n() == old(ecs).n(),
        final(ecs).alive == old(ecs).alive,
        final(ecs).positions == old(ecs).positions,
        final(ecs).renderables == old(ecs).renderables,
        final(ecs).player == old(ecs).player,
        final(ecs).monster == old(ecs).monster,
        final(ecs).names == old(ecs).names,
        final(ecs).fovs == old(ecs).fovs,
        final(ecs).blocks_tile == old(ecs).blocks_tile,
        final(ecs).combat_stats == old(ecs).combat_stats,
        final(ecs).suffer_damage == old(ecs).suffer_damage,
        final(ecs).run_state == old(ecs).run_state,
        final(ecs).log == old(ecs).log,
        final(ecs).player_entity == old(ecs).player_entity,
        final(ecs).player_pos == old(ecs).player_pos,
        final(ecs).player_dead == old(ecs).player_dead,
        final(ecs).map == old(ecs).map,
        forall|e: int| #![trigger final(ecs).wants_melee[e]]
            0 <= e < old(ecs).n() ==> final(ecs).wants_melee[e] == if wants_attack(*old(ecs), e) {
                Some(WantsToMelee { target: old(ecs).player_entity })
            } else {
                old(ecs).wants_melee[e]
            },
{
    let ghost w0 = *ecs;
    let (ppx, ppy): (i32, i32) = match &ecs.positions[ecs.player_entity] {
        Some(p) => (p.x, p.y),
        None => (0, 0),
    };
    proof {
        assert(ecs.entity_wf(ecs.player_entity as int));
    }
    let pidx = ecs.map.xy_idx(ppx, ppy);
    let n = ecs.alive.len();
    let mut e: usize = 0;
    while e < n
        invariant
            w0.wf(),
            ecs.wf(),
            e <= n,
            n == w0.n(),
            ppx == w0.player_position().x,
            ppy == w0.player_position().y,
            pidx == w0.map.idx_of(ppx as int, ppy as int),
            pidx < w0.map.tiles.len(),
            ecs.alive == w0.alive,
            ecs.positions == w0.positions,
            ecs.renderables == w0.renderables,
            ecs.player == w0.player,
            ecs.monster == w0.monster,
            ecs.names == w0.names,
            ecs.fovs == w0.fovs,
            ecs.blocks_tile == w0.blocks_tile,
            ecs.combat_stats == w0.combat_stats,
            ecs.suffer_damage == w0.suffer_damage,
            ecs.run_state == w0.run_state,
            ecs.log == w0.log,
            ecs.player_entity == w0.player_entity,
            ecs.player_pos == w0.player_pos,
            ecs.player_dead == w0.player_dead,
            ecs.map == w0.map,
            forall|j: int| #![trigger ecs.wants_melee[j]]
                0 <= j < n ==> ecs.wants_melee[j] == if j < e && wants_attack(w0, j) {
                    Some(WantsToMelee { target: w0.player_entity })
                } else {
                    w0.wants_melee[j]
                },
        decreases n - e,
    {
        if ecs.alive[e] && ecs.monster[e] && ecs.fovs[e].is_some() && ecs.positions[e].is_some() {
            proof {
                assert(ecs.entity_wf(e as int));
                assert(ecs.entity_wf(ecs.player_entity as int));
            }
            let (mx, my): (i32, i32) = match &ecs.positions[e] {
                Some(p) => (p.x, p.y),
                None => (0, 0),
            };
            let sees_player: bool = match &ecs.fovs[e] {
                Some(f) => f.visible_tiles[pidx],
                None => false,
            };
            let adx: i32 = if mx > ppx { mx - ppx } else { ppx - mx };
            let ady: i32 = if my > ppy { my - ppy } else { ppy - my };
            if sees_player && adx <= 1 && ady <= 1 {
                let target = ecs.player_entity;
                ecs.wants_melee.set(e, Some(WantsToMelee { target }));
                proof {
                    assert forall|j: int| 0 <= j < ecs.n() implies ecs.entity_wf(j) by {
                        assert(w0.entity_wf(j));
                    }
                }
            }
        }
        e += 1;
    }
}

} // verus!
