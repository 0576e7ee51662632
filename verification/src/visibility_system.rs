//! Visibility: for every sight-holder, recompute the set of tiles it can
//! see, mark those tiles revealed (sticky), and for the player overwrite
//! the map's global visible set.
//!
//! Sight is ray-marched: a tile is visible when it is within the holder's
//! radius (Chebyshev distance) and every tile strictly between holder and
//! target along the stepped line is transparent (a floor).

use vstd::prelude::*;
use crate::components::FieldOfView;
use crate::map::{GameMap, TileType};
use crate::world::World;

verus! {

pub open spec fn s_abs(a: int) -> int {
    if a < 0 {
        -a
    } else {
        a
    }
}

pub open spec fn s_max(a: int, b: int) -> int {
    if a < b {
        b
    } else {
        a
    }
}

pub open spec fn s_sign(a: int) -> int {
    if a > 0 {
        1int
    } else if a < 0 {
        -1int
    } else {
        0int
    }
}

/// Chebyshev distance: the number of king-move steps between two tiles.
pub open spec fn cheb(x0: int, y0: int, x1: int, y1: int) -> int {
    s_max(s_abs(x1 - x0), s_abs(y1 - y0))
}

/// The line from `(x0, y0)` to `(x1, y1)`, walked one king-move at a time
/// toward the target, meets no opaque tile strictly between the two.
pub open spec fn los_clear(m: GameMap, x0: int, y0: int, x1: int, y1: int) -> bool
    decreases cheb(x0, y0, x1, y1),
{
    if cheb(x0, y0, x1, y1) <= 1 {
        true
    } else {
        let nx = x0 + s_sign(x1 - x0);
        let ny = y0 + s_sign(y1 - y0);
        m.in_bounds_spec(nx, ny) && !m.opaque_at(nx, ny) && los_clear(m, nx, ny, x1, y1)
    }
}

/// Tile `(tx, ty)` is in sight of an entity standing at `(ox, oy)` with
/// radius `range`.
pub open spec fn tile_visible(m: GameMap, ox: int, oy: int, range: int, tx: int, ty: int) -> bool {
    &&& m.in_bounds_spec(tx, ty)
    &&& cheb(ox, oy, tx, ty) <= range
    &&& los_clear(m, ox, oy, tx, ty)
}

/// `tile_visible`, addressed by tile index.
pub open spec fn idx_visible(m: GameMap, ox: int, oy: int, range: int, i: int) -> bool {
    tile_visible(m, ox, oy, range, i % (m.width as int), i / (m.width as int))
}

/// Walk the line toward `(x1, y1)` and report whether sight is clear.
fn line_clear(m: &GameMap, x0: i32, y0: i32, x1: i32, y1: i32) -> (b: bool)
    requires
        m.wf(),
        m.in_bounds_spec(x0 as int, y0 as int),
        m.in_bounds_spec(x1 as int, y1 as int),
    ensures
        b == los_clear(*m, x0 as int, y0 as int, x1 as int, y1 as int),
    decreases cheb(x0 as int, y0 as int, x1 as int, y1 as int),
{
    let adx: i32 = if x1 > x0 { x1 - x0 } else { x0 - x1 };
    let ady: i32 = if y1 > y0 { y1 - y0 } else { y0 - y1 };
    if adx <= 1 && ady <= 1 {
        true
    } else {
        let nx: i32 = if x1 > x0 { x0 + 1 } else if x1 < x0 { x0 - 1 } else { x0 };
        let ny: i32 = if y1 > y0 { y0 + 1 } else if y1 < y0 { y0 - 1 } else { y0 };
        let idx = m.xy_idx(nx, ny);
        if matches!(m.tiles[idx], TileType::Wall) {
            false
        } else {
            line_clear(m, nx, ny, x1, y1)
        }
    }
}

/// Compute a full visibility bitset for a holder at `(ox, oy)`.
pub fn compute_fov(m: &GameMap, ox: i32, oy: i32, range: i32) -> (vis: Vec<bool>)
    requires
        m.wf(),
        m.in_bounds_spec(ox as int, oy as int),
        0 <= range,
    ensures
        vis.len() == m.tiles.len(),
        forall|i: int|
            0 <= i < vis.len() ==> vis[i] == idx_visible(*m, ox as int, oy as int, range as int, i),
{
    let n = m.tiles.len();
    let w = m.width;
    let mut vis: Vec<bool> = Vec::new();
    let mut i: usize = 0;
    while i < n
        invariant
            m.wf(),
            m.in_bounds_spec(ox as int, oy as int),
            0 <= range,
            n == m.tiles.len(),
            w == m.width,
            i <= n,
            vis.len() == i,
            forall|j: int|
                0 <= j < i ==> vis[j] == idx_visible(*m, ox as int, oy as int, range as int, j),
        decreases n - i,
    {
        proof {
            let wi = m.width as int;
            let hi = m.height as int;
            assert(0 <= (i as int) % wi < wi && 0 <= (i as int) / wi < hi) by (nonlinear_arith)
                requires
                    0 < wi,
                    0 < hi,
                    0 <= i < wi * hi,
            ;
        }
        let tx: i32 = (i % (w as usize)) as i32;
        let ty: i32 = (i / (w as usize)) as i32;
        let adx: i32 = if tx > ox { tx - ox } else { ox - tx };
        let ady: i32 = if ty > oy { ty - oy } else { oy - ty };
        let b: bool = if adx <= range && ady <= range {
            line_clear(m, ox, oy, tx, ty)
        } else {
            false
        };
        vis.push(b);
        i += 1;
    }
    vis
}

/// Set every bit of `dst` that is set in `src`.
fn or_into(dst: &mut Vec<bool>, src: &Vec<bool>)
    requires
        old(dst).len() == src.len(),
    ensures
        final(dst).len() == old(dst).len(),
        forall|k: int| 0 <= k < src.len() ==> final(dst)[k] == (old(dst)[k] || src[k]),
{
    let ghost d0: Seq<bool> = dst@;
    let n = src.len();
    let mut i: usize = 0;
    while i < n
        invariant
            n == src.len(),
            d0.len() == n,
            dst.len() == n,
            i <= n,
            forall|k: int| #![trigger dst@[k]] 0 <= k < i ==> dst@[k] == (d0[k] || src@[k]),
            forall|k: int| #![trigger dst@[k]] i <= k < n ==> dst@[k] == d0[k],
        decreases n - i,
    {
        let b = src[i];
        if b {
            dst.set(i, true);
        }
        assert forall|k: int| #![trigger dst@[k]] 0 <= k < i + 1 implies dst@[k] == (d0[k]
            || src@[k]) by {
            if k == i {
                assert(dst@[i as int] == (d0[i as int] || src@[i as int]));
            }
        }
        i += 1;
    }
}

/// Overwrite `dst` with the bits of `src`.
fn copy_into(dst: &mut Vec<bool>, src: &Vec<bool>)
    requires
        old(dst).len() == src.len(),
    ensures
        final(dst).len() == old(dst).len(),
        forall|k: int| 0 <= k < src.len() ==> final(dst)[k] == src[k],
{
    let n = src.len();
    let mut i: usize = 0;
    while i < n
        invariant
            n == src.len(),
            dst.len() == n,
            i <= n,
            forall|k: int| 0 <= k < i ==> dst[k] == src[k],
        decreases n - i,
    {
        let b = src[i];
        dst.set(i, b);
        i += 1;
    }
}

/// Whether entity `e` holds what visibility needs: alive, a field of view
/// and a position.
pub open spec fn fov_holder(w: World, e: int) -> bool {
    &&& 0 <= e < w.n()
    &&& w.alive[e]
    &&& w.fovs[e] is Some
    &&& w.positions[e] is Some
}

/// The visibility a holder `e` has of tile index `i`, in world `w`.
pub open spec fn holder_sees(w: World, e: int, i: int) -> bool {
    idx_visible(
        w.map,
        w.positions[e]->Some_0.x as int,
        w.positions[e]->Some_0.y as int,
        w.fovs[e]->Some_0.range as int,
        i,
    )
}

/// Sight depends only on the tile grid: two maps with the same tiles and
/// dimensions agree on every line of sight.
pub proof fn lemma_los_clear_same(m1: GameMap, m2: GameMap, x0: int, y0: int, x1: int, y1: int)
    requires
        m1.tiles == m2.tiles,
        m1.width == m2.width,
        m1.height == m2.height,
    ensures
        los_clear(m1, x0, y0, x1, y1) == los_clear(m2, x0, y0, x1, y1),
    decreases cheb(x0, y0, x1, y1),
{
    if cheb(x0, y0, x1, y1) > 1 {
        let nx = x0 + s_sign(x1 - x0);
        let ny = y0 + s_sign(y1 - y0);
        lemma_los_clear_same(m1, m2, nx, ny, x1, y1);
    }
}

/// Pointwise form of `lemma_los_clear_same` over tile indices.
pub proof fn lemma_idx_visible_same(m1: GameMap, m2: GameMap, ox: int, oy: int, range: int)
    requires
        m1.tiles == m2.tiles,
        m1.width == m2.width,
        m1.height == m2.height,
    ensures
        forall|i: int| #![trigger idx_visible(m1, ox, oy, range, i)]
            idx_visible(m1, ox, oy, range, i) == idx_visible(m2, ox, oy, range, i),
{
    assert forall|i: int| #![trigger idx_visible(m1, ox, oy, range, i)]
        idx_visible(m1, ox, oy, range, i) == idx_visible(m2, ox, oy, range, i) by {
        lemma_los_clear_same(m1, m2, ox, oy, i % (m1.width as int), i / (m1.width as int));
    }
}

/// Helper for the revealed-set invariant: the value tile `k` has once the
/// holders below `e` have been folded in.
pub open spec fn prior_revealed(w0: World, e: int, k: int) -> bool {
    w0.map.revealed_tiles[k] || exists|j: int| j < e && fov_holder(w0, j) && holder_sees(w0, j, k)
}

/// The visibility pass. For every holder, its visible set is overwritten
/// with a fresh computation; every tile any holder sees is revealed
/// (revealed tiles are never cleared); the map's global visible set is
/// overwritten with the player's.
pub fn run_visibility(ecs: &mut World)
    requires
        old(ecs).wf(),
    ensures
        final(ecs).wf(),
        final(ecs).n() == old(ecs).n(),
        final(ecs).alive == old(ecs).alive,
        final(ecs).positions == old(ecs).positions,
        final(ecs).renderables == old(ecs).renderables,
        final(ecs).player == old(ecs).player,
        final(ecs).monster == old(ecs).monster,
        final(ecs).names == old(ecs).names,
        final(ecs).blocks_tile == old(ecs).blocks_tile,
        final(ecs).combat_stats == old(ecs).combat_stats,
        final(ecs).wants_melee == old(ecs).wants_melee,
        final(ecs).suffer_damage == old(ecs).suffer_damage,
        final(ecs).run_state == old(ecs).run_state,
        final(ecs).log == old(ecs).log,
        final(ecs).player_entity == old(ecs).player_entity,
        final(ecs).player_pos == old(ecs).player_pos,
        final(ecs).player_dead == old(ecs).player_dead,
        final(ecs).map.width == old(ecs).map.width,
        final(ecs).map.height == old(ecs).map.height,
        final(ecs).map.tiles == old(ecs).map.tiles,
        final(ecs).map.rooms == old(ecs).map.rooms,
        final(ecs).map.blocked == old(ecs).map.blocked,
        final(ecs).map.tile_content == old(ecs).map.tile_content,
        // every holder's visible set is freshly computed
        forall|e: int| #![trigger final(ecs).fovs[e]]
            0 <= e < old(ecs).n() ==> if fov_holder(*old(ecs), e) {
                &&& final(ecs).fovs[e] is Some
                &&& final(ecs).fovs[e]->Some_0.range == old(ecs).fovs[e]->Some_0.range
                &&& final(ecs).fovs[e]->Some_0.visible_tiles.len() == old(ecs).map.tiles.len()
                &&& forall|i: int|
                    0 <= i < old(ecs).map.tiles.len()
                        ==> final(ecs).fovs[e]->Some_0.visible_tiles[i] == holder_sees(
                        *old(ecs),
                        e,
                        i,
                    )
            } else {
                final(ecs).fovs[e] == old(ecs).fovs[e]
            },
        // revealed is sticky, and grows by exactly what some holder sees
        forall|i: int| #![trigger final(ecs).map.revealed_tiles[i]]
            0 <= i < old(ecs).map.tiles.len() ==> final(ecs).map.revealed_tiles[i]
                == prior_revealed(*old(ecs), old(ecs).n(), i),
        forall|i: int|
            0 <= i < old(ecs).map.tiles.len() && old(ecs).map.revealed_tiles[i]
                ==> final(ecs).map.revealed_tiles[i],
        // the global visible set is the player's
        forall|i: int| #![trigger final(ecs).map.visible_tiles[i]]
            0 <= i < old(ecs).map.tiles.len() ==> final(ecs).map.visible_tiles[i] == holder_sees(
                *old(ecs),
                old(ecs).player_entity as int,
                i,
            ),
{
    let ghost w0 = *ecs;
    let n = ecs.alive.len();
    let mut e: usize = 0;
    while e < n
        invariant
            w0.wf(),
            ecs.wf(),
            e <= n,
            n == w0.n(),
            ecs.alive == w0.alive,
            ecs.positions == w0.positions,
            ecs.renderables == w0.renderables,
            ecs.player == w0.player,
            ecs.monster == w0.monster,
            ecs.names == w0.names,
            ecs.blocks_tile == w0.blocks_tile,
            ecs.combat_stats == w0.combat_stats,
            ecs.wants_melee == w0.wants_melee,
            ecs.suffer_damage == w0.suffer_damage,
            ecs.run_state == w0.run_state,
            ecs.log == w0.log,
            ecs.player_entity == w0.player_entity,
            ecs.player_pos == w0.player_pos,
            ecs.player_dead == w0.player_dead,
            ecs.map.width == w0.map.width,
            ecs.map.height == w0.map.height,
            ecs.map.tiles == w0.map.tiles,
            ecs.map.rooms == w0.map.rooms,
            ecs.map.blocked == w0.map.blocked,
            ecs.map.tile_content == w0.map.tile_content,
            forall|j: int| #![trigger ecs.fovs[j]]
                0 <= j < n ==> if j < e && fov_holder(w0, j) {
                    &&& ecs.fovs[j] is Some
                    &&& ecs.fovs[j]->Some_0.range == w0.fovs[j]->Some_0.range
                    &&& ecs.fovs[j]->Some_0.visible_tiles.len() == w0.map.tiles.len()
                    &&& forall|i: int|
                        0 <= i < w0.map.tiles.len()
                            ==> ecs.fovs[j]->Some_0.visible_tiles[i] == holder_sees(w0, j, i)
                } else {
                    ecs.fovs[j] == w0.fovs[j]
                },
            forall|i: int| #![trigger ecs.map.revealed_tiles[i]]
                0 <= i < w0.map.tiles.len() ==> ecs.map.revealed_tiles[i] == prior_revealed(
                    w0,
                    e as int,
                    i,
                ),
            forall|i: int| #![trigger ecs.map.visible_tiles[i]]
                0 <= i < w0.map.tiles.len() ==> ecs.map.visible_tiles[i] == if e
                    > w0.player_entity {
                    holder_sees(w0, w0.player_entity as int, i)
                } else {
                    w0.map.visible_tiles[i]
                },
        decreases n - e,
    {
        let is_holder = ecs.alive[e] && ecs.fovs[e].is_some() && ecs.positions[e].is_some();
        if is_holder {
            let (px, py): (i32, i32) = match &ecs.positions[e] {
                Some(p) => (p.x, p.y),
                None => (0, 0),
            };
            let range: i32 = match &ecs.fovs[e] {
                Some(f) => f.range,
                None => 0,
            };
            proof {
                assert(ecs.entity_wf(e as int));
            }
            let vis = compute_fov(&ecs.map, px, py, range);
            proof {
                lemma_idx_visible_same(ecs.map, w0.map, px as int, py as int, range as int);
            }
            assert(forall|k: int| 0 <= k < vis.len() ==> vis[k] == holder_sees(w0, e as int, k));
            or_into(&mut ecs.map.revealed_tiles, &vis);
            if e == ecs.player_entity {
                copy_into(&mut ecs.map.visible_tiles, &vis);
            }
            ecs.fovs.set(e, Some(FieldOfView { visible_tiles: vis, range }));
        }
        proof {
            assert forall|j: int| 0 <= j < ecs.n() implies ecs.entity_wf(j) by {
                assert(w0.entity_wf(j));
            }
            assert forall|k: int| 0 <= k < w0.map.tiles.len() implies ecs.map.revealed_tiles[k]
                == prior_revealed(w0, e + 1, k) by {
                if prior_revealed(w0, e + 1, k) {
                    if !w0.map.revealed_tiles[k] {
                        let j = choose|j: int|
                            j < e + 1 && fov_holder(w0, j) && holder_sees(w0, j, k);
                        if j < e {
                            assert(prior_revealed(w0, e as int, k));
                        }
                    }
                }
                if prior_revealed(w0, e as int, k) {
                    if !w0.map.revealed_tiles[k] {
                        let j = choose|j: int| j < e && fov_holder(w0, j) && holder_sees(w0, j, k);
                        assert(j < e + 1 && fov_holder(w0, j) && holder_sees(w0, j, k));
                    }
                }
                if is_holder && holder_sees(w0, e as int, k) {
                    assert(fov_holder(w0, e as int));
                    assert((e as int) < e + 1 && fov_holder(w0, e as int) && holder_sees(
                        w0,
                        e as int,
                        k,
                    ));
                }
            }
        }
        e += 1;
    }
}

} // verus!
