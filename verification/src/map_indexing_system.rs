//! Spatial indexing: rebuild the per-tile blocked flags and the occupancy
//! index from the entities' current positions. Runs after any movement and
//! before anything that queries blocking; it is idempotent.

use vstd::prelude::*;
use crate::map::TileType;
use crate::world::World;

verus! {

/// Entity `e` is a blocker standing on tile index `i` in world `w`.
pub open spec fn blocker_at(w: World, e: int, i: int) -> bool {
    &&& 0 <= e < w.n()
    &&& w.alive[e]
    &&& w.blocks_tile[e]
    &&& w.positions[e] is Some
    &&& w.map.idx_of(w.positions[e]->Some_0.x as int, w.positions[e]->Some_0.y as int) == i
}

/// Clear and rebuild the occupancy index: a tile is blocked when its
/// terrain is a wall or a blocking entity stands on it, and the occupancy
/// index lists exactly the blocking entities on each tile, each once.
pub fn run_map_indexing(ecs: &mut World)
    requires
        old(ecs).wf(),
    ensures
        final(ecs).wf(),
        final(ecs).n() == old(ecs).n(),
        final(ecs).alive == old(ecs).alive,
        final(ecs).positions == old(ecs).positions,
        final(ecs).renderables == old(ecs).renderables,
        final(ecs).player == old(ecs).player,
        final(ecs).monster == old(ecs).monster,
        final(ecs).names == old(ecs).names,
        final(ecs).fovs == old(ecs).fovs,
        final(ecs).blocks_tile == old(ecs).blocks_tile,
        final(ecs).combat_stats == old(ecs).combat_stats,
        final(ecs).wants_melee == old(ecs).wants_melee,
        final(ecs).suffer_damage == old(ecs).suffer_damage,
        final(ecs).run_state == old(ecs).run_state,
        final(ecs).log == old(ecs).log,
        final(ecs).player_entity == old(ecs).player_entity,
        final(ecs).player_pos == old(ecs).player_pos,
        final(ecs).player_dead == old(ecs).player_dead,
        final(ecs).map.width == old(ecs).map.width,
        final(ecs).map.height == old(ecs).map.height,
        final(ecs).map.tiles == old(ecs).map.tiles,
        final(ecs).map.rooms == old(ecs).map.rooms,
        final(ecs).map.revealed_tiles == old(ecs).map.revealed_tiles,
        final(ecs).map.visible_tiles == old(ecs).map.visible_tiles,
        // blocking is terrain or some blocking entity
        forall|i: int| #![trigger final(ecs).map.blocked[i]]
            0 <= i < old(ecs).map.tiles.len() ==> final(ecs).map.blocked[i] == (old(ecs).map.tiles[i]
                == TileType::Wall || exists|e: int| blocker_at(*old(ecs), e, i)),
        // every blocker is indexed on its own tile
        forall|e: int, i: int| #![trigger final(ecs).map.tile_content[i], blocker_at(*old(ecs), e, i)]
            0 <= i < old(ecs).map.tiles.len() && blocker_at(*old(ecs), e, i)
                ==> final(ecs).map.tile_content[i]@.contains(e as usize),
        // and the index holds nothing else
        forall|i: int, k: int| #![trigger final(ecs).map.tile_content[i]@[k]]
            0 <= i < old(ecs).map.tiles.len() && 0 <= k < final(ecs).map.tile_content[i].len()
                ==> blocker_at(*old(ecs), final(ecs).map.tile_content[i]@[k] as int, i),
        // each blocker is listed once: the lists carry no duplicates
        forall|i: int, k1: int, k2: int| #![trigger final(ecs).map.tile_content[i]@[k1], final(ecs).map.tile_content[i]@[k2]]
            0 <= i < old(ecs).map.tiles.len() && 0 <= k1 < k2 < final(ecs).map.tile_content[i].len()
                ==> final(ecs).map.tile_content[i]@[k1] != final(ecs).map.tile_content[i]@[k2],
{
    let ghost w0 = *ecs;
    let nt = ecs.map.tiles.len();
    // terrain pass: walls block, and the old index is cleared
    let mut i: usize = 0;
    while i < nt
        invariant
            w0.wf(),
            ecs.wf(),
            i <= nt,
            nt == w0.map.tiles.len(),
            ecs.alive == w0.alive,
            ecs.positions == w0.positions,
            ecs.renderables == w0.renderables,
            ecs.player == w0.player,
            ecs.monster == w0.monster,
            ecs.names == w0.names,
            ecs.fovs == w0.fovs,
            ecs.blocks_tile == w0.blocks_tile,
            ecs.combat_stats == w0.combat_stats,
            ecs.wants_melee == w0.wants_melee,
            ecs.suffer_damage == w0.suffer_damage,
            ecs.run_state == w0.run_state,
            ecs.log == w0.log,
            ecs.player_entity == w0.player_entity,
            ecs.player_pos == w0.player_pos,
            ecs.player_dead == w0.player_dead,
            ecs.map.width == w0.map.width,
            ecs.map.height == w0.map.height,
            ecs.map.tiles == w0.map.tiles,
            ecs.map.rooms == w0.map.rooms,
            ecs.map.revealed_tiles == w0.map.revealed_tiles,
            ecs.map.visible_tiles == w0.map.visible_tiles,
            forall|k: int| #![trigger ecs.map.blocked[k]]
                0 <= k < i ==> ecs.map.blocked[k] == (w0.map.tiles[k] == TileType::Wall),
            forall|k: int| #![trigger ecs.map.tile_content[k]]
                0 <= k < i ==> ecs.map.tile_content[k].len() == 0,
            forall|k: int| #![trigger ecs.map.tile_content[k]]
                i <= k < nt ==> ecs.map.tile_content[k] == w0.map.tile_content[k],
        decreases nt - i,
    {
        let is_wall = matches!(ecs.map.tiles[i], TileType::Wall);
        ecs.map.blocked.set(i, is_wall);
        ecs.map.tile_content[i].clear();
        proof {
            assert forall|j: int| 0 <= j < ecs.n() implies ecs.entity_wf(j) by {
                assert(w0.entity_wf(j));
            }
            assert forall|i2: int, k: int|
                0 <= i2 < ecs.map.tile_content.len() && 0 <= k < ecs.map.tile_content[i2].len()
                    implies ecs.map.tile_content[i2][k] < ecs.n() by {
                if i2 > i {
                    assert(ecs.map.tile_content[i2] == w0.map.tile_content[i2]);
                    assert(w0.map.tile_content[i2][k] < w0.n());
                }
            }
        }
        i += 1;
    }
    // entity pass: record every blocker on its tile
    let n = ecs.alive.len();
    let mut e: usize = 0;
    while e < n
        invariant
            w0.wf(),
            ecs.wf(),
            e <= n,
            n == w0.n(),
            nt == w0.map.tiles.len(),
            ecs.alive == w0.alive,
            ecs.positions == w0.positions,
            ecs.renderables == w0.renderables,
            ecs.player == w0.player,
            ecs.monster == w0.monster,
            ecs.names == w0.names,
            ecs.fovs == w0.fovs,
            ecs.blocks_tile == w0.blocks_tile,
            ecs.combat_stats == w0.combat_stats,
            ecs.wants_melee == w0.wants_melee,
            ecs.suffer_damage == w0.suffer_damage,
            ecs.run_state == w0.run_state,
            ecs.log == w0.log,
            ecs.player_entity == w0.player_entity,
            ecs.player_pos == w0.player_pos,
            ecs.player_dead == w0.player_dead,
            ecs.map.width == w0.map.width,
            ecs.map.height == w0.map.height,
            ecs.map.tiles == w0.map.tiles,
            ecs.map.rooms == w0.map.rooms,
            ecs.map.revealed_tiles == w0.map.revealed_tiles,
            ecs.map.visible_tiles == w0.map.visible_tiles,
            forall|i2: int| #![trigger ecs.map.blocked[i2]]
                0 <= i2 < nt ==> ecs.map.blocked[i2] == (w0.map.tiles[i2] == TileType::Wall
                    || exists|j: int| j < e && blocker_at(w0, j, i2)),
            forall|j: int, i2: int| #![trigger ecs.map.tile_content[i2], blocker_at(w0, j, i2)]
                0 <= i2 < nt && j < e && blocker_at(w0, j, i2) ==> ecs.map.tile_content[
                    i2
                ]@.contains(j as usize),
            forall|i2: int, k: int| #![trigger ecs.map.tile_content[i2]@[k]]
                0 <= i2 < nt && 0 <= k < ecs.map.tile_content[i2].len() ==> blocker_at(
                    w0,
                    ecs.map.tile_content[i2]@[k] as int,
                    i2,
                ) && ecs.map.tile_content[i2]@[k] < e,
            forall|i2: int, k1: int, k2: int| #![trigger ecs.map.tile_content[i2]@[k1], ecs.map.tile_content[i2]@[k2]]
                0 <= i2 < nt && 0 <= k1 < k2 < ecs.map.tile_content[i2].len()
                    ==> ecs.map.tile_content[i2]@[k1] != ecs.map.tile_content[i2]@[k2],
        decreases n - e,
    {
        proof {
            assert(ecs.entity_wf(e as int));
        }
        let ghost pre = *ecs;
        if ecs.alive[e] && ecs.blocks_tile[e] && ecs.positions[e].is_some() {
            let (px, py): (i32, i32) = match &ecs.positions[e] {
                Some(p) => (p.x, p.y),
                None => (0, 0),
            };
            let idx = ecs.map.xy_idx(px, py);
            ecs.map.tile_content[idx].push(e);
            ecs.map.blocked.set(idx, true);
            proof {
                assert(blocker_at(w0, e as int, idx as int));
                assert(ecs.map.tile_content[idx as int]@ == pre.map.tile_content[idx as int]@.push(
                    e,
                ));
                assert(ecs.map.tile_content[idx as int]@.contains(e)) by {
                    assert(ecs.map.tile_content[idx as int]@[pre.map.tile_content[idx as int]@.len()
                        as int] == e);
                }
            }
        }
        proof {
            assert forall|j: int| 0 <= j < ecs.n() implies ecs.entity_wf(j) by {
                assert(w0.entity_wf(j));
            }
            assert forall|i2: int, k: int|
                0 <= i2 < ecs.map.tile_content.len() && 0 <= k < ecs.map.tile_content[i2].len()
                    implies ecs.map.tile_content[i2][k] < ecs.n() by {
                if !(0 <= i2 < pre.map.tile_content.len() && 0 <= k < pre.map.tile_content[
                    i2
                ].len() && ecs.map.tile_content[i2][k] == pre.map.tile_content[i2][k]) {
                    assert(ecs.map.tile_content[i2][k] == e);
                }
            }
            assert forall|i2: int| 0 <= i2 < nt implies ecs.map.blocked[i2] == (w0.map.tiles[i2]
                == TileType::Wall || exists|j: int| j < e + 1 && blocker_at(w0, j, i2)) by {
                if ecs.map.blocked[i2] {
                    if w0.map.tiles[i2] != TileType::Wall {
                        if pre.map.blocked[i2] {
                            let j = choose|j: int| j < e && blocker_at(w0, j, i2);
                            assert(j < e + 1 && blocker_at(w0, j, i2));
                        } else {
                            assert(blocker_at(w0, e as int, i2));
                        }
                    }
                } else {
                    assert forall|j: int| j < e + 1 implies !blocker_at(w0, j, i2) by {
                        if j == e {
                            if blocker_at(w0, j, i2) {
                                assert(ecs.map.blocked[i2]);
                            }
                        }
                    }
                }
            }
            assert forall|j: int, i2: int|
                0 <= i2 < nt && j < e + 1 && blocker_at(w0, j, i2) implies ecs.map.tile_content[
                i2
            ]@.contains(j as usize) by {
                if j < e {
                    assert(pre.map.tile_content[i2]@.contains(j as usize));
                    let k = choose|k: int|
                        0 <= k < pre.map.tile_content[i2]@.len() && pre.map.tile_content[i2]@[k]
                            == (j as usize);
                    assert(ecs.map.tile_content[i2]@[k] == (j as usize));
                }
            }
        }
        e += 1;
    }
}

} // verus!
