//! The world store: every entity's components, and the shared singleton
//! resources (map, run state, log, player handle and cached position).
//!
//! An entity is a plain index into the parallel component columns. A slot
//! whose `alive` flag is false carries no components at all.

use vstd::prelude::*;
use crate::components::{
    CombatStats, FieldOfView, Name, Position, Renderable, Rgb8, SufferDamage, WantsToMelee,
};
use crate::gamelog::GameLog;
use crate::map::GameMap;
use crate::RunState;

verus! {

pub struct World {
    pub alive: Vec<bool>,
    pub positions: Vec<Option<Position>>,
    pub renderables: Vec<Option<Renderable>>,
    pub player: Vec<bool>,
    pub monster: Vec<bool>,
    pub names: Vec<Option<Name>>,
    pub fovs: Vec<Option<FieldOfView>>,
    pub blocks_tile: Vec<bool>,
    pub combat_stats: Vec<Option<CombatStats>>,
    pub wants_melee: Vec<Option<WantsToMelee>>,
    pub suffer_damage: Vec<Option<SufferDamage>>,
    pub map: GameMap,
    pub run_state: RunState,
    pub log: GameLog,
    pub player_entity: usize,
    pub player_pos: Position,
    pub player_dead: bool,
}

impl World {
    pub open spec fn n(self) -> int {
        self.alive.len() as int
    }

    /// The per-entity part of well-formedness.
    pub open spec fn entity_wf(self, e: int) -> bool {
        &&& (self.positions[e] is Some ==> self.map.in_bounds_spec(
            self.positions[e]->Some_0.x as int,
            self.positions[e]->Some_0.y as int,
        ))
        &&& (self.combat_stats[e] is Some ==> self.combat_stats[e]->Some_0.power >= 0
            && self.combat_stats[e]->Some_0.defense >= 0)
        &&& (self.suffer_damage[e] is Some ==> forall|k: int|
            0 <= k < self.suffer_damage[e]->Some_0.amount.len()
                ==> self.suffer_damage[e]->Some_0.amount[k] >= 0)
        &&& (self.fovs[e] is Some ==> self.fovs[e]->Some_0.visible_tiles.len()
            == self.map.tiles.len() && 0 <= self.fovs[e]->Some_0.range)
        &&& (self.wants_melee[e] is Some ==> self.wants_melee[e]->Some_0.target < self.n())
        &&& (!self.alive[e] ==> self.positions[e] is None && self.renderables[e] is None
            && !self.player[e] && !self.monster[e] && self.names[e] is None
            && self.fovs[e] is None && !self.blocks_tile[e] && self.combat_stats[e] is None
            && self.wants_melee[e] is None && self.suffer_damage[e] is None)
    }

    pub open spec fn wf(self) -> bool {
        &&& self.map.wf()
        &&& self.positions.len() == self.n()
        &&& self.renderables.len() == self.n()
        &&& self.player.len() == self.n()
        &&& self.monster.len() == self.n()
        &&& self.names.len() == self.n()
        &&& self.fovs.len() == self.n()
        &&& self.blocks_tile.len() == self.n()
        &&& self.combat_stats.len() == self.n()
        &&& self.wants_melee.len() == self.n()
        &&& self.suffer_damage.len() == self.n()
        &&& self.player_entity < self.n()
        &&& self.alive[self.player_entity as int]
        &&& forall|e: int| 0 <= e < self.n() ==> (self.player[e] <==> e == self.player_entity)
        &&& !self.monster[self.player_entity as int]
        &&& self.positions[self.player_entity as int] is Some
        &&& self.fovs[self.player_entity as int] is Some
        &&& self.combat_stats[self.player_entity as int] is Some
        &&& self.names[self.player_entity as int] is Some
        &&& self.player_pos == self.positions[self.player_entity as int]->Some_0
        &&& forall|e: int| 0 <= e < self.n() ==> self.entity_wf(e)
        &&& forall|i: int, k: int|
            0 <= i < self.map.tile_content.len() && 0 <= k < self.map.tile_content[i].len()
                ==> self.map.tile_content[i][k] < self.n()
    }

    pub open spec fn player_stats(self) -> CombatStats {
        self.combat_stats[self.player_entity as int]->Some_0
    }

    pub open spec fn player_position(self) -> Position {
        self.positions[self.player_entity as int]->Some_0
    }

    /// A fresh world over `map`: the single player entity, placed at
    /// `(player_x, player_y)` with the standard starting components; the
    /// run state primed to `PreRun`; an empty log.
    pub fn new(map: GameMap, player_x: i32, player_y: i32) -> (w: World)
        requires
            map.wf(),
            map.in_bounds_spec(player_x as int, player_y as int),
            forall|i: int| 0 <= i < map.tile_content.len() ==> map.tile_content[i].len() == 0,
        ensures
            w.wf(),
            w.n() == 1,
            w.player_entity == 0,
            w.map == map,
            w.run_state == RunState::PreRun,
            w.log.entries.len() == 0,
            !w.player_dead,
            w.alive[0] && w.player[0] && !w.monster[0] && w.blocks_tile[0],
            w.positions[0] == Some(Position { x: player_x, y: player_y }),
            w.combat_stats[0] == Some(
                CombatStats { max_hp: 30, hp: 30, defense: 2, power: 5 },
            ),
            w.fovs[0] is Some && w.fovs[0]->Some_0.range == 8,
            w.names[0] is Some && w.names[0]->Some_0.name@ == "Player"@,
            w.wants_melee[0] is None && w.suffer_damage[0] is None,
    {
        let fov_len: usize = map.tiles.len();
        World {
            alive: vec![true],
            positions: vec![Some(Position { x: player_x, y: player_y })],
            renderables: vec![
                Some(Renderable { glyph: '@', fg: Rgb8 { r: 255, g: 255, b: 0 } }),
            ],
            player: vec![true],
            monster: vec![false],
            names: vec![Some(Name { name: "Player".to_owned() })],
            fovs: vec![
                Some(FieldOfView { visible_tiles: vec![false; fov_len], range: 8 }),
            ],
            blocks_tile: vec![true],
            combat_stats: vec![
                Some(CombatStats { max_hp: 30, hp: 30, defense: 2, power: 5 }),
            ],
            wants_melee: vec![None],
            suffer_damage: vec![None],
            map,
            run_state: RunState::PreRun,
            log: GameLog { entries: Vec::new() },
            player_entity: 0,
            player_pos: Position { x: player_x, y: player_y },
            player_dead: false,
        }
    }

    /// Reserve a fresh, empty entity slot and return its identifier.
    pub fn new_entity(&mut self) -> (e: usize)
        requires
            old(self).wf(),
        ensures
            final(self).wf(),
            e == old(self).n(),
            final(self).n() == old(self).n() + 1,
            final(self).alive[e as int] && !final(self).player[e as int]
                && !final(self).monster[e as int] && !final(self).blocks_tile[e as int],
            final(self).positions[e as int] is None,
            final(self).renderables[e as int] is None,
            final(self).names[e as int] is None,
            final(self).fovs[e as int] is None,
            final(self).combat_stats[e as int] is None,
            final(self).wants_melee[e as int] is None,
            final(self).suffer_damage[e as int] is None,
            final(self).alive@ == old(self).alive@.push(true),
            final(self).positions@ == old(self).positions@.push(None),
            final(self).renderables@ == old(self).renderables@.push(None),
            final(self).player@ == old(self).player@.push(false),
            final(self).monster@ == old(self).monster@.push(false),
            final(self).names@ == old(self).names@.push(None),
            final(self).fovs@ == old(self).fovs@.push(None),
            final(self).blocks_tile@ == old(self).blocks_tile@.push(false),
            final(self).combat_stats@ == old(self).combat_stats@.push(None),
            final(self).wants_melee@ == old(self).wants_melee@.push(None),
            final(self).suffer_damage@ == old(self).suffer_damage@.push(None),
            final(self).map == old(self).map,
            final(self).run_state == old(self).run_state,
            final(self).log == old(self).log,
            final(self).player_entity == old(self).player_entity,
            final(self).player_pos == old(self).player_pos,
            final(self).player_dead == old(self).player_dead,
    {
        let e = self.alive.len();
        self.alive.push(true);
        self.positions.push(None);
        self.renderables.push(None);
        self.player.push(false);
        self.monster.push(false);
        self.names.push(None);
        self.fovs.push(None);
        self.blocks_tile.push(false);
        self.combat_stats.push(None);
        self.wants_melee.push(None);
        self.suffer_damage.push(None);
        proof {
            assert forall|j: int| 0 <= j < self.n() implies self.entity_wf(j) by {
                if j < old(self).n() {
                    assert(old(self).entity_wf(j));
                }
            }
        }
        e
    }
}

} // verus!
