//! Dungeon geometry: the tile grid, per-tile flags (revealed / visible /
//! blocked), the ordered room list, and the per-tile occupancy index.

use vstd::prelude::*;
use crate::rect::Rect;

verus! {

pub const MAX_DIM: i32 = 10000;

#[derive(PartialEq, Eq, Copy, Clone, Structural, Debug)]
pub enum TileType {
    Wall,
    Floor,
}

/// The dungeon map. Tile `(x, y)` lives at index `y * width + x`.
pub struct GameMap {
    pub width: i32,
    pub height: i32,
    pub tiles: Vec<TileType>,
    pub rooms: Vec<Rect>,
    pub revealed_tiles: Vec<bool>,
    pub visible_tiles: Vec<bool>,
    pub blocked: Vec<bool>,
    /// Occupancy index: the blocking entities standing on each tile.
    pub tile_content: Vec<Vec<usize>>,
}

impl GameMap {
    pub open spec fn wf(self) -> bool {
        &&& 0 < self.width <= MAX_DIM
        &&& 0 < self.height <= MAX_DIM
        &&& self.tiles.len() == self.width * self.height
        &&& self.revealed_tiles.len() == self.tiles.len()
        &&& self.visible_tiles.len() == self.tiles.len()
        &&& self.blocked.len() == self.tiles.len()
        &&& self.tile_content.len() == self.tiles.len()
    }

    pub open spec fn in_bounds_spec(self, x: int, y: int) -> bool {
        0 <= x < self.width && 0 <= y < self.height
    }

    pub open spec fn idx_of(self, x: int, y: int) -> int {
        y * self.width + x
    }

    /// An index is in range whenever its coordinates are.
    pub proof fn lemma_idx_of(self, x: int, y: int)
        requires
            self.wf(),
            self.in_bounds_spec(x, y),
        ensures
            0 <= self.idx_of(x, y) < self.tiles.len(),
            self.idx_of(x, y) % (self.width as int) == x,
            self.idx_of(x, y) / (self.width as int) == y,
    {
        let w = self.width as int;
        let h = self.height as int;
        assert(0 <= y * w + x < w * h && (y * w + x) % w == x && (y * w + x) / w == y)
            by (nonlinear_arith)
            requires
                0 < w,
                0 < h,
                0 <= x < w,
                0 <= y < h,
        ;
    }

    /// Distinct coordinates give distinct indices.
    pub proof fn lemma_idx_injective(self, x1: int, y1: int, x2: int, y2: int)
        requires
            self.wf(),
            self.in_bounds_spec(x1, y1),
            self.in_bounds_spec(x2, y2),
            self.idx_of(x1, y1) == self.idx_of(x2, y2),
        ensures
            x1 == x2 && y1 == y2,
    {
        self.lemma_idx_of(x1, y1);
        self.lemma_idx_of(x2, y2);
    }

    pub fn in_bounds(&self, x: i32, y: i32) -> (b: bool)
        ensures
            b == self.in_bounds_spec(x as int, y as int),
    {
        0 <= x && x < self.width && 0 <= y && y < self.height
    }

    /// Index of tile `(x, y)`; calling it outside the grid is a bug, so the
    /// coordinates are required to be in bounds.
    pub fn xy_idx(&self, x: i32, y: i32) -> (idx: usize)
        requires
            self.wf(),
            self.in_bounds_spec(x as int, y as int),
        ensures
            idx == self.idx_of(x as int, y as int),
            idx < self.tiles.len(),
    {
        proof {
            self.lemma_idx_of(x as int, y as int);
        }
        (y as usize) * (self.width as usize) + (x as usize)
    }

    /// Walls are opaque to sight, floors transparent.
    pub open spec fn opaque_at(self, x: int, y: int) -> bool {
        self.tiles[self.idx_of(x, y)] == TileType::Wall
    }

    /// A fresh map: every tile a wall, nothing revealed, visible or blocked,
    /// no rooms, an empty occupancy index.
    pub fn new(width: i32, height: i32) -> (m: GameMap)
        requires
            0 < width <= MAX_DIM,
            0 < height <= MAX_DIM,
        ensures
            m.wf(),
            m.width == width,
            m.height == height,
            m.rooms.len() == 0,
            forall|i: int| 0 <= i < m.tiles.len() ==> m.tiles[i] == TileType::Wall,
            forall|i: int| 0 <= i < m.tiles.len() ==> !m.revealed_tiles[i],
            forall|i: int| 0 <= i < m.tiles.len() ==> !m.visible_tiles[i],
            forall|i: int| 0 <= i < m.tiles.len() ==> !m.blocked[i],
            forall|i: int| 0 <= i < m.tiles.len() ==> m.tile_content[i].len() == 0,
    {
        proof {
            assert((width as int) * (height as int) <= 10000 * 10000) by (nonlinear_arith)
                requires
                    0 < width <= 10000,
                    0 < height <= 10000,
            ;
        }
        let count: usize = (width as usize) * (height as usize);
        let tiles: Vec<TileType> = vec![TileType::Wall; count];
        let revealed_tiles: Vec<bool> = vec![false; count];
        let visible_tiles: Vec<bool> = vec![false; count];
        let blocked: Vec<bool> = vec![false; count];
        let mut tile_content: Vec<Vec<usize>> = Vec::new();
        let mut i: usize = 0;
        while i < count
            invariant
                i <= count,
                tile_content.len() == i,
                forall|j: int| 0 <= j < i ==> tile_content[j].len() == 0,
            decreases count - i,
        {
            tile_content.push(Vec::new());
            i += 1;
        }
        GameMap {
            width,
            height,
            tiles,
            rooms: Vec::new(),
            revealed_tiles,
            visible_tiles,
            blocked,
            tile_content,
        }
    }

    /// Carve the interior of `room` out as floor.
    pub fn apply_room_to_map(&mut self, room: &Rect)
        requires
            old(self).wf(),
            room.wf(),
            0 <= room.x1,
            room.x2 < old(self).width,
            0 <= room.y1,
            room.y2 < old(self).height,
        ensures
            final(self).wf(),
            final(self).width == old(self).width,
            final(self).height == old(self).height,
            final(self).rooms == old(self).rooms,
            final(self).revealed_tiles == old(self).revealed_tiles,
            final(self).visible_tiles == old(self).visible_tiles,
            final(self).blocked == old(self).blocked,
            final(self).tile_content == old(self).tile_content,
            final(self).tiles.len() == old(self).tiles.len(),
            forall|xx: int, yy: int| #![trigger final(self).tiles[old(self).idx_of(xx, yy)]]
                old(self).in_bounds_spec(xx, yy) ==> final(self).tiles[old(self).idx_of(xx, yy)]
                    == if room_interior(*room, xx, yy) {
                    TileType::Floor
                } else {
                    old(self).tiles[old(self).idx_of(xx, yy)]
                },
    {
        let ghost m0 = *self;
        let mut y: i32 = room.y1 + 1;
        while y <= room.y2
            invariant
                m0.wf(),
                self.wf(),
                room.wf(),
                0 <= room.x1,
                room.x2 < m0.width,
                0 <= room.y1,
                room.y2 < m0.height,
                room.y1 + 1 <= y <= room.y2 + 1,
                self.width == m0.width,
                self.height == m0.height,
                self.rooms == m0.rooms,
                self.revealed_tiles == m0.revealed_tiles,
                self.visible_tiles == m0.visible_tiles,
                self.blocked == m0.blocked,
                self.tile_content == m0.tile_content,
                self.tiles.len() == m0.tiles.len(),
                forall|xx: int, yy: int| #![trigger self.tiles[m0.idx_of(xx, yy)]]
                    m0.in_bounds_spec(xx, yy) ==> self.tiles[m0.idx_of(xx, yy)] == if room_interior(
                        *room,
                        xx,
                        yy,
                    ) && yy < y {
                        TileType::Floor
                    } else {
                        m0.tiles[m0.idx_of(xx, yy)]
                    },
            decreases room.y2 + 1 - y,
        {
            let mut x: i32 = room.x1 + 1;
            while x <= room.x2
                invariant
                    m0.wf(),
                    self.wf(),
                    room.wf(),
                    0 <= room.x1,
                    room.x2 < m0.width,
                    0 <= room.y1,
                    room.y2 < m0.height,
                    room.y1 + 1 <= y <= room.y2,
                    room.x1 + 1 <= x <= room.x2 + 1,
                    self.width == m0.width,
                    self.height == m0.height,
                    self.rooms == m0.rooms,
                    self.revealed_tiles == m0.revealed_tiles,
                    self.visible_tiles == m0.visible_tiles,
                    self.blocked == m0.blocked,
                    self.tile_content == m0.tile_content,
                    self.tiles.len() == m0.tiles.len(),
                    forall|xx: int, yy: int| #![trigger self.tiles[m0.idx_of(xx, yy)]]
                        m0.in_bounds_spec(xx, yy) ==> self.tiles[m0.idx_of(xx, yy)]
                            == if room_interior(*room, xx, yy) && (yy < y || (yy == y && xx < x)) {
                            TileType::Floor
                        } else {
                            m0.tiles[m0.idx_of(xx, yy)]
                        },
                decreases room.x2 + 1 - x,
            {
                let idx = self.xy_idx(x, y);
                self.tiles.set(idx, TileType::Floor);
                proof {
                    assert forall|xx: int, yy: int|
                        m0.in_bounds_spec(xx, yy) implies self.tiles[m0.idx_of(xx, yy)]
                        == if room_interior(*room, xx, yy) && (yy < y || (yy == y && xx < x + 1)) {
                        TileType::Floor
                    } else {
                        m0.tiles[m0.idx_of(xx, yy)]
                    } by {
                        if m0.idx_of(xx, yy) == m0.idx_of(x as int, y as int) {
                            m0.lemma_idx_injective(xx, yy, x as int, y as int);
                        } else {
                            m0.lemma_idx_of(xx, yy);
                            m0.lemma_idx_of(x as int, y as int);
                        }
                    }
                }
                x += 1;
            }
            y += 1;
        }
    }

    /// Carve a horizontal corridor along row `y` between columns `x1` and
    /// `x2` (either order).
    pub fn apply_horizontal_tunnel(&mut self, x1: i32, x2: i32, y: i32)
        requires
            old(self).wf(),
            0 <= x1 < old(self).width,
            0 <= x2 < old(self).width,
            0 <= y < old(self).height,
        ensures
            final(self).wf(),
            final(self).width == old(self).width,
            final(self).height == old(self).height,
            final(self).rooms == old(self).rooms,
            final(self).revealed_tiles == old(self).revealed_tiles,
            final(self).visible_tiles == old(self).visible_tiles,
            final(self).blocked == old(self).blocked,
            final(self).tile_content == old(self).tile_content,
            final(self).tiles.len() == old(self).tiles.len(),
            forall|xx: int, yy: int| #![trigger final(self).tiles[old(self).idx_of(xx, yy)]]
                old(self).in_bounds_spec(xx, yy) ==> final(self).tiles[old(self).idx_of(xx, yy)]
                    == if yy == y && in_range(x1 as int, x2 as int, xx) {
                    TileType::Floor
                } else {
                    old(self).tiles[old(self).idx_of(xx, yy)]
                },
    {
        let ghost m0 = *self;
        let lo: i32 = if x1 < x2 { x1 } else { x2 };
        let hi: i32 = if x1 < x2 { x2 } else { x1 };
        let mut x: i32 = lo;
        while x <= hi
            invariant
                m0.wf(),
                self.wf(),
                lo == (if x1 < x2 { x1 as int } else { x2 as int }),
                hi == (if x1 < x2 { x2 as int } else { x1 as int }),
                0 <= lo <= hi < m0.width,
                0 <= y < m0.height,
                lo <= x <= hi + 1,
                self.width == m0.width,
                self.height == m0.height,
                self.rooms == m0.rooms,
                self.revealed_tiles == m0.revealed_tiles,
                self.visible_tiles == m0.visible_tiles,
                self.blocked == m0.blocked,
                self.tile_content == m0.tile_content,
                self.tiles.len() == m0.tiles.len(),
                forall|xx: int, yy: int| #![trigger self.tiles[m0.idx_of(xx, yy)]]
                    m0.in_bounds_spec(xx, yy) ==> self.tiles[m0.idx_of(xx, yy)] == if yy == y && lo
                        <= xx < x {
                        TileType::Floor
                    } else {
                        m0.tiles[m0.idx_of(xx, yy)]
                    },
            decreases hi + 1 - x,
        {
            let idx = self.xy_idx(x, y);
            self.tiles.set(idx, TileType::Floor);
            proof {
                assert forall|xx: int, yy: int|
                    m0.in_bounds_spec(xx, yy) implies self.tiles[m0.idx_of(xx, yy)] == if yy == y
                    && lo <= xx < x + 1 {
                    TileType::Floor
                } else {
                    m0.tiles[m0.idx_of(xx, yy)]
                } by {
                    if m0.idx_of(xx, yy) == m0.idx_of(x as int, y as int) {
                        m0.lemma_idx_injective(xx, yy, x as int, y as int);
                    } else {
                        m0.lemma_idx_of(xx, yy);
                        m0.lemma_idx_of(x as int, y as int);
                    }
                }
            }
            x += 1;
        }
    }

    /// Carve a vertical corridor along column `x` between rows `y1` and
    /// `y2` (either order).
    pub fn apply_vertical_tunnel(&mut self, y1: i32, y2: i32, x: i32)
        requires
            old(self).wf(),
            0 <= y1 < old(self).height,
            0 <= y2 < old(self).height,
            0 <= x < old(self).width,
        ensures
            final(self).wf(),
            final(self).width == old(self).width,
            final(self).height == old(self).height,
            final(self).rooms == old(self).rooms,
            final(self).revealed_tiles == old(self).revealed_tiles,
            final(self).visible_tiles == old(self).visible_tiles,
            final(self).blocked == old(self).blocked,
            final(self).tile_content == old(self).tile_content,
            final(self).tiles.len() == old(self).tiles.len(),
            forall|xx: int, yy: int| #![trigger final(self).tiles[old(self).idx_of(xx, yy)]]
                old(self).in_bounds_spec(xx, yy) ==> final(self).tiles[old(self).idx_of(xx, yy)]
                    == if xx == x && in_range(y1 as int, y2 as int, yy) {
                    TileType::Floor
                } else {
                    old(self).tiles[old(self).idx_of(xx, yy)]
                },
    {
        let ghost m0 = *self;
        let lo: i32 = if y1 < y2 { y1 } else { y2 };
        let hi: i32 = if y1 < y2 { y2 } else { y1 };
        let mut y: i32 = lo;
        while y <= hi
            invariant
                m0.wf(),
                self.wf(),
                lo == (if y1 < y2 { y1 as int } else { y2 as int }),
                hi == (if y1 < y2 { y2 as int } else { y1 as int }),
                0 <= lo <= hi < m0.height,
                0 <= x < m0.width,
                lo <= y <= hi + 1,
                self.width == m0.width,
                self.height == m0.height,
                self.rooms == m0.rooms,
                self.revealed_tiles == m0.revealed_tiles,
                self.visible_tiles == m0.visible_tiles,
                self.blocked == m0.blocked,
                self.tile_content == m0.tile_content,
                self.tiles.len() == m0.tiles.len(),
                forall|xx: int, yy: int| #![trigger self.tiles[m0.idx_of(xx, yy)]]
                    m0.in_bounds_spec(xx, yy) ==> self.tiles[m0.idx_of(xx, yy)] == if xx == x && lo
                        <= yy < y {
                        TileType::Floor
                    } else {
                        m0.tiles[m0.idx_of(xx, yy)]
                    },
            decreases hi + 1 - y,
        {
            let idx = self.xy_idx(x, y);
            self.tiles.set(idx, TileType::Floor);
            proof {
                assert forall|xx: int, yy: int|
                    m0.in_bounds_spec(xx, yy) implies self.tiles[m0.idx_of(xx, yy)] == if xx == x
                    && lo <= yy < y + 1 {
                    TileType::Floor
                } else {
                    m0.tiles[m0.idx_of(xx, yy)]
                } by {
                    if m0.idx_of(xx, yy) == m0.idx_of(x as int, y as int) {
                        m0.lemma_idx_injective(xx, yy, x as int, y as int);
                    } else {
                        m0.lemma_idx_of(xx, yy);
                        m0.lemma_idx_of(x as int, y as int);
                    }
                }
            }
            y += 1;
        }
    }

    /// Build a dungeon from candidate rooms, in order: each candidate that
    /// fits inside the border and does not overlap an already-kept room is
    /// carved out and joined by an L-shaped corridor to the previously kept
    /// room's center. The caller supplies the candidates (their sizes and
    /// places are the random part of generation); the kept rooms are exactly
    /// `kept_rooms(candidates)`: recorded in order, pairwise disjoint, with
    /// floor interiors and floor corridors between consecutive centers.
    #[verifier::rlimit(100)]
    pub fn new_map_rooms_and_corridors(width: i32, height: i32, candidates: &Vec<Rect>) -> (m: GameMap)
        requires
            4 <= width <= MAX_DIM,
            4 <= height <= MAX_DIM,
        ensures
            m.wf(),
            m.width == width,
            m.height == height,
            forall|i: int| 0 <= i < m.tiles.len() ==> !m.revealed_tiles[i] && !m.visible_tiles[i],
            forall|i: int| 0 <= i < m.tiles.len() ==> m.tile_content[i].len() == 0,
            m.rooms.len() <= candidates.len(),
            // the kept rooms are exactly the greedy filter's choice
            m.rooms@ == kept_rooms(candidates@, width as int, height as int),
            // one usable candidate guarantees a room to spawn in
            (exists|j: int|
                0 <= j < candidates.len() && room_in_border(
                    candidates@[j],
                    width as int,
                    height as int,
                )) ==> m.rooms.len() >= 1,
            forall|r: int| #![trigger m.rooms[r]]
                0 <= r < m.rooms.len() ==> room_in_border(m.rooms[r], width as int, height as int),
            forall|r1: int, r2: int| #![trigger m.rooms[r1], m.rooms[r2]]
                0 <= r1 < r2 < m.rooms.len() ==> !m.rooms[r1].overlaps(m.rooms[r2]),
            forall|r: int, xx: int, yy: int| #![trigger m.rooms[r], m.tiles[m.idx_of(xx, yy)]]
                0 <= r < m.rooms.len() && room_interior(m.rooms[r], xx, yy) ==> m.tiles[m.idx_of(
                    xx,
                    yy,
                )] == TileType::Floor,
            // consecutive kept rooms are joined by a floor corridor
            forall|i: int| #![trigger m.rooms[i]]
                1 <= i < m.rooms.len() ==> corridor_floor(m, m.rooms[i - 1], m.rooms[i]),
    {
        let mut m = GameMap::new(width, height);
        proof {
            assert(candidates@.take(0) =~= Seq::<Rect>::empty());
        }
        let n_cand = candidates.len();
        let mut c: usize = 0;
        while c < n_cand
            invariant
                4 <= width <= MAX_DIM,
                4 <= height <= MAX_DIM,
                n_cand == candidates.len(),
                c <= n_cand,
                m.wf(),
                m.width == width,
                m.height == height,
                forall|i: int| 0 <= i < m.tiles.len() ==> !m.revealed_tiles[i] && !m.visible_tiles[i],
                forall|i: int| 0 <= i < m.tiles.len() ==> m.tile_content[i].len() == 0,
                m.rooms.len() <= c,
                m.rooms@ == kept_rooms(candidates@.take(c as int), width as int, height as int),
                (exists|j: int|
                    0 <= j < c && room_in_border(candidates@[j], width as int, height as int))
                    ==> m.rooms.len() >= 1,
                forall|r: int| #![trigger m.rooms[r]]
                    0 <= r < m.rooms.len() ==> room_in_border(m.rooms[r], width as int, height as int),
                forall|r1: int, r2: int| #![trigger m.rooms[r1], m.rooms[r2]]
                    0 <= r1 < r2 < m.rooms.len() ==> !m.rooms[r1].overlaps(m.rooms[r2]),
                forall|r: int, xx: int, yy: int| #![trigger m.rooms[r], m.tiles[m.idx_of(xx, yy)]]
                    0 <= r < m.rooms.len() && room_interior(m.rooms[r], xx, yy) ==> m.tiles[m.idx_of(
                        xx,
                        yy,
                    )] == TileType::Floor,
                forall|i: int| #![trigger m.rooms[i]]
                    1 <= i < m.rooms.len() ==> corridor_floor(m, m.rooms[i - 1], m.rooms[i]),
            decreases n_cand - c,
        {
            let room: Rect = candidates[c];
            let ghost rooms0 = m.rooms@;
            let ok = 1 <= room.x1 && room.x2 <= width - 2 && 1 <= room.y1 && room.y2 <= height - 2
                && room.x1 < room.x2 && room.y1 < room.y2;
            let mut overlaps = false;
            if ok {
                let nr = m.rooms.len();
                let mut r: usize = 0;
                while r < nr
                    invariant
                        nr == m.rooms.len(),
                        m.rooms@ == rooms0,
                        r <= nr,
                        overlaps == exists|j: int| 0 <= j < r && m.rooms[j].overlaps(room),
                    decreases nr - r,
                {
                    let hit = m.rooms[r].intersect(&room);
                    proof {
                        if hit {
                            assert(0 <= r < r + 1 && m.rooms[r as int].overlaps(room));
                        }
                        if overlaps {
                            let j = choose|j: int| 0 <= j < r && m.rooms[j].overlaps(room);
                            assert(0 <= j < r + 1 && m.rooms[j].overlaps(room));
                        }
                    }
                    if hit {
                        overlaps = true;
                    }
                    r += 1;
                }
            }
            let keep = ok && !overlaps;
            let ghost mut tun: (int, int, int, int) = (0, 0, 0, 0);
            if keep {
                let ghost g0 = m;
                m.apply_room_to_map(&room);
                let ghost g1 = m;
                let ghost mut g2 = g1;
                if m.rooms.len() > 0 {
                    let prev: Rect = m.rooms[m.rooms.len() - 1];
                    let (pcx, pcy) = prev.center();
                    let (ncx, ncy) = room.center();
                    proof {
                        assert(1 <= pcx && pcx <= width - 2 && 1 <= pcy && pcy <= height - 2);
                        assert(1 <= ncx && ncx <= width - 2 && 1 <= ncy && ncy <= height - 2);
                        tun = (pcx as int, pcy as int, ncx as int, ncy as int);
                        assert(prev == g0.rooms@.last());
                        assert((tun.0, tun.1) == prev.center_spec());
                        assert((tun.2, tun.3) == room.center_spec());
                    }
                    m.apply_horizontal_tunnel(pcx, ncx, pcy);
                    proof {
                        g2 = m;
                    }
                    m.apply_vertical_tunnel(pcy, ncy, ncx);
                }
                let ghost g3 = m;
                m.rooms.push(room);
                proof {
                    assert forall|r2: int, xx: int, yy: int|
                        0 <= r2 < m.rooms.len() && room_interior(m.rooms[r2], xx, yy)
                            implies m.tiles[m.idx_of(xx, yy)] == TileType::Floor by {
                        assert(g0.in_bounds_spec(xx, yy));
                        assert(g1.in_bounds_spec(xx, yy) && g2.in_bounds_spec(xx, yy));
                        assert(g1.idx_of(xx, yy) == g0.idx_of(xx, yy) && g2.idx_of(xx, yy)
                            == g0.idx_of(xx, yy) && m.idx_of(xx, yy) == g0.idx_of(xx, yy));
                        if r2 < g0.rooms.len() {
                            assert(g0.tiles[g0.idx_of(xx, yy)] == TileType::Floor);
                            assert(g1.tiles[g0.idx_of(xx, yy)] == TileType::Floor);
                        } else {
                            assert(room_interior(room, xx, yy));
                            assert(g1.tiles[g0.idx_of(xx, yy)] == TileType::Floor);
                        }
                        if g0.rooms.len() > 0 {
                            assert(g2.tiles[g1.idx_of(xx, yy)] == TileType::Floor);
                            assert(g3.tiles[g2.idx_of(xx, yy)] == TileType::Floor);
                        } else {
                            assert(g3 == g1);
                        }
                        assert(g3.tiles[g0.idx_of(xx, yy)] == TileType::Floor);
                    }
                    assert forall|i: int| #![trigger m.rooms[i]]
                        1 <= i < m.rooms.len() implies corridor_floor(
                        m,
                        m.rooms[i - 1],
                        m.rooms[i],
                    ) by {
                        let a = m.rooms[i - 1];
                        let b = m.rooms[i];
                        lemma_center_in_border(a, width as int, height as int);
                        lemma_center_in_border(b, width as int, height as int);
                        if i < g0.rooms.len() {
                            // an old pair: carving only ever adds floor
                            assert(corridor_floor(g0, a, b));
                            assert forall|x: int|
                                in_range(a.center_spec().0, b.center_spec().0, x)
                                    implies m.tiles[m.idx_of(x, a.center_spec().1)]
                                    == TileType::Floor by {
                                let ay = a.center_spec().1;
                                assert(g0.in_bounds_spec(x, ay));
                                assert(g0.tiles[g0.idx_of(x, ay)] == TileType::Floor);
                                assert(g1.tiles[g0.idx_of(x, ay)] == TileType::Floor);
                                if g0.rooms.len() > 0 {
                                    assert(g2.tiles[g1.idx_of(x, ay)] == TileType::Floor);
                                    assert(g3.tiles[g2.idx_of(x, ay)] == TileType::Floor);
                                } else {
                                    assert(g3 == g1);
                                }
                                assert(m.idx_of(x, ay) == g0.idx_of(x, ay));
                            }
                            assert forall|y: int|
                                in_range(a.center_spec().1, b.center_spec().1, y)
                                    implies m.tiles[m.idx_of(b.center_spec().0, y)]
                                    == TileType::Floor by {
                                let bx = b.center_spec().0;
                                assert(g0.in_bounds_spec(bx, y));
                                assert(g0.tiles[g0.idx_of(bx, y)] == TileType::Floor);
                                assert(g1.tiles[g0.idx_of(bx, y)] == TileType::Floor);
                                if g0.rooms.len() > 0 {
                                    assert(g2.tiles[g1.idx_of(bx, y)] == TileType::Floor);
                                    assert(g3.tiles[g2.idx_of(bx, y)] == TileType::Floor);
                                } else {
                                    assert(g3 == g1);
                                }
                                assert(m.idx_of(bx, y) == g0.idx_of(bx, y));
                            }
                        } else {
                            // the new pair: the two tunnels just carved it
                            assert(i == g0.rooms.len() && g0.rooms.len() > 0);
                            assert(a == g0.rooms@.last() && b == room);
                            assert((tun.0, tun.1) == a.center_spec());
                            assert((tun.2, tun.3) == b.center_spec());
                            assert forall|x: int|
                                in_range(a.center_spec().0, b.center_spec().0, x)
                                    implies m.tiles[m.idx_of(x, a.center_spec().1)]
                                    == TileType::Floor by {
                                assert(g1.in_bounds_spec(x, tun.1));
                                assert(g2.tiles[g1.idx_of(x, tun.1)] == TileType::Floor);
                                assert(g3.tiles[g2.idx_of(x, tun.1)] == TileType::Floor);
                                assert(m.idx_of(x, tun.1) == g2.idx_of(x, tun.1));
                            }
                            assert forall|y: int|
                                in_range(a.center_spec().1, b.center_spec().1, y)
                                    implies m.tiles[m.idx_of(b.center_spec().0, y)]
                                    == TileType::Floor by {
                                assert(g2.in_bounds_spec(tun.2, y));
                                assert(g3.tiles[g2.idx_of(tun.2, y)] == TileType::Floor);
                                assert(m.idx_of(tun.2, y) == g2.idx_of(tun.2, y));
                            }
                        }
                    }
                }
            }
            proof {
                assert(candidates@.take(c + 1).drop_last() =~= candidates@.take(c as int));
                assert(candidates@.take(c + 1).last() == candidates@[c as int]);
                assert(candidate_ok(room, rooms0, width as int, height as int) == keep);
                assert(m.rooms@ == kept_rooms(
                    candidates@.take(c + 1),
                    width as int,
                    height as int,
                ));
                if exists|j: int|
                    0 <= j < c + 1 && room_in_border(candidates@[j], width as int, height as int) {
                    let j = choose|j: int|
                        0 <= j < c + 1 && room_in_border(candidates@[j], width as int, height as int);
                    if j == c && !keep {
                        // it overlapped something, so a room already exists
                        assert(overlaps);
                        let j2 = choose|j2: int| 0 <= j2 < rooms0.len() && rooms0[j2].overlaps(room);
                        assert(m.rooms.len() >= 1);
                    }
                }
            }
            c += 1;
        }
        proof {
            assert(candidates@.take(n_cand as int) =~= candidates@);
        }
        m
    }
}

/// `room` sits inside the map's one-tile wall border.
pub open spec fn room_in_border(room: Rect, width: int, height: int) -> bool {
    1 <= room.x1 && room.x1 < room.x2 && room.x2 <= width - 2 && 1 <= room.y1 && room.y1
        < room.y2 && room.y2 <= height - 2
}

/// Candidate `r` is kept when it fits inside the border and misses every
/// room kept before it.
pub open spec fn candidate_ok(r: Rect, prev: Seq<Rect>, width: int, height: int) -> bool {
    &&& room_in_border(r, width, height)
    &&& forall|j: int| 0 <= j < prev.len() ==> !prev[j].overlaps(r)
}

/// The rooms the greedy filter keeps, in candidate order.
pub open spec fn kept_rooms(cands: Seq<Rect>, width: int, height: int) -> Seq<Rect>
    decreases cands.len(),
{
    if cands.len() == 0 {
        Seq::empty()
    } else {
        let prev = kept_rooms(cands.drop_last(), width, height);
        if candidate_ok(cands.last(), prev, width, height) {
            prev.push(cands.last())
        } else {
            prev
        }
    }
}

/// The L-corridor from `a`'s center to `b`'s center is all floor: the row
/// through `a`'s center, then the column through `b`'s center.
pub open spec fn corridor_floor(m: GameMap, a: Rect, b: Rect) -> bool {
    &&& forall|x: int|
        in_range(a.center_spec().0, b.center_spec().0, x) ==> m.tiles[m.idx_of(
            x,
            a.center_spec().1,
        )] == TileType::Floor
    &&& forall|y: int|
        in_range(a.center_spec().1, b.center_spec().1, y) ==> m.tiles[m.idx_of(
            b.center_spec().0,
            y,
        )] == TileType::Floor
}

/// A room inside the border has its center inside the border.
pub proof fn lemma_center_in_border(r: Rect, width: int, height: int)
    requires
        room_in_border(r, width, height),
    ensures
        1 <= r.center_spec().0 <= width - 2,
        1 <= r.center_spec().1 <= height - 2,
{
}

/// `(x, y)` is strictly inside `room` (its `x1`/`y1` edges stay wall).
pub open spec fn room_interior(room: Rect, x: int, y: int) -> bool {
    room.x1 < x <= room.x2 && room.y1 < y <= room.y2
}

/// `v` lies between `a` and `b`, in either order, inclusive.
pub open spec fn in_range(a: int, b: int, v: int) -> bool {
    if a < b {
        a <= v <= b
    } else {
        b <= v <= a
    }
}

} // verus!
