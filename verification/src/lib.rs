//! Turn-resolution core of a grid-based roguelike: a fixed pipeline of
//! systems that, once per game turn, updates visibility, monster decisions,
//! spatial indexing, combat resolution, and death cleanup over a shared
//! world of entities on a dungeon map.

pub mod components;
pub mod damage_system;
pub mod gamelog;
pub mod map;
pub mod map_indexing_system;
pub mod melee_combat_system;
pub mod monster_ai_system;
pub mod player;
pub mod rect;
pub mod spawner;
pub mod visibility_system;
pub mod world;

use vstd::prelude::*;

verus! {

use crate::components::{CombatStats, WantsToMelee};
use crate::world::World;

/// Phase of the turn state machine.
#[derive(PartialEq, Eq, Copy, Clone, Structural, Debug)]
pub enum RunState {
    AwaitingInput,
    PreRun,
    PlayerTurn,
    MonsterTurn,
}

/// The game: a world of entities and the turn state machine over it.
pub struct State {
    pub ecs: world::World,
}

/// The player's tile index.
pub open spec fn player_tile(w: World) -> int {
    w.map.idx_of(w.player_position().x as int, w.player_position().y as int)
}

/// The AI decision of a pass, phrased over the pass's entry state:
/// monster `e` attacks exactly when its freshly computed sight covers the
/// player's tile and the player is at most one king-move away.
pub open spec fn pass_attacks(w: World, e: int) -> bool {
    &&& 0 <= e < w.n()
    &&& w.alive[e]
    &&& w.monster[e]
    &&& w.fovs[e] is Some
    &&& w.positions[e] is Some
    &&& visibility_system::holder_sees(w, e, player_tile(w))
    &&& visibility_system::cheb(
        w.positions[e]->Some_0.x as int,
        w.positions[e]->Some_0.y as int,
        w.player_position().x as int,
        w.player_position().y as int,
    ) <= 1
}

/// The intent entity `e` holds when melee runs, over the entry state.
pub open spec fn pass_intent(w: World, e: int) -> Option<WantsToMelee> {
    if pass_attacks(w, e) {
        Some(WantsToMelee { target: w.player_entity })
    } else {
        w.wants_melee[e]
    }
}

pub open spec fn pass_target(w: World, e: int) -> int {
    pass_intent(w, e)->Some_0.target as int
}

/// Attack `e` resolves during the pass: attacker and target are alive
/// with combat stats and a name.
pub open spec fn pass_valid(w: World, e: int) -> bool {
    &&& 0 <= e < w.n()
    &&& w.alive[e]
    &&& pass_intent(w, e) is Some
    &&& w.combat_stats[e] is Some
    &&& w.names[e] is Some
    &&& w.alive[pass_target(w, e)]
    &&& w.combat_stats[pass_target(w, e)] is Some
    &&& w.names[pass_target(w, e)] is Some
}

/// The damage attack `e` deals during the pass.
pub open spec fn pass_damage(w: World, e: int) -> int {
    melee_combat_system::melee_damage(
        w.combat_stats[e]->Some_0.power as int,
        w.combat_stats[pass_target(w, e)]->Some_0.defense as int,
    )
}

/// Damage the pass deals to `t`, summed over the attackers below `k`.
pub open spec fn pass_incoming(w: World, t: int, k: int) -> int
    decreases k,
{
    if k <= 0 {
        0
    } else {
        pass_incoming(w, t, k - 1) + if pass_valid(w, k - 1) && pass_target(w, k - 1) == t {
            pass_damage(w, k - 1)
        } else {
            0
        }
    }
}

/// How many attacks resolve among those below `k`.
pub open spec fn pass_count(w: World, k: int) -> int
    decreases k,
{
    if k <= 0 {
        0
    } else {
        pass_count(w, k - 1) + if pass_valid(w, k - 1) {
            1int
        } else {
            0int
        }
    }
}

/// `w1` is the world the melee step actually reads, given entry state
/// `w0`: same combatants, and every intent slot as the pass decided it.
spec fn melee_input_matches(w0: World, w1: World) -> bool {
    &&& w1.n() == w0.n()
    &&& w1.alive == w0.alive
    &&& w1.combat_stats == w0.combat_stats
    &&& w1.names == w0.names
    &&& forall|e: int| #![trigger w1.wants_melee[e]]
        0 <= e < w0.n() ==> w1.wants_melee[e] == pass_intent(w0, e)
}

proof fn lemma_pass_step(w0: World, w1: World, e: int)
    requires
        melee_input_matches(w0, w1),
    ensures
        melee_combat_system::valid_attack(w1, e) == pass_valid(w0, e),
        pass_valid(w0, e) ==> melee_combat_system::target_of(w1, e) == pass_target(w0, e)
            && melee_combat_system::attack_damage(w1, e) == pass_damage(w0, e),
{
    if 0 <= e < w0.n() {
        assert(w1.wants_melee[e] == pass_intent(w0, e));
    }
}

proof fn lemma_pass_incoming_eq(w0: World, w1: World, t: int, k: int)
    requires
        melee_input_matches(w0, w1),
    ensures
        melee_combat_system::incoming_upto(w1, t, k) == pass_incoming(w0, t, k),
    decreases k,
{
    if k > 0 {
        lemma_pass_incoming_eq(w0, w1, t, k - 1);
        lemma_pass_step(w0, w1, k - 1);
    }
}

proof fn lemma_pass_count_eq(w0: World, w1: World, k: int)
    requires
        melee_input_matches(w0, w1),
    ensures
        melee_combat_system::count_attacks_upto(w1, k) == pass_count(w0, k),
    decreases k,
{
    if k > 0 {
        lemma_pass_count_eq(w0, w1, k - 1);
        lemma_pass_step(w0, w1, k - 1);
    }
}

proof fn lemma_pass_incoming_zero(w: World, t: int, k: int)
    requires
        forall|e: int| !(#[trigger] pass_valid(w, e) && pass_target(w, e) == t),
    ensures
        pass_incoming(w, t, k) == 0,
    decreases k,
{
    if k > 0 {
        lemma_pass_incoming_zero(w, t, k - 1);
    }
}

impl State {
    /// One pass of the fixed system pipeline: visibility, monster AI,
    /// map indexing, melee combat, damage application, in that order.
    /// Positions never change here; every intent and damage accumulator
    /// is consumed; revealed tiles only grow; the log only grows.
    pub fn run_systems(&mut self)
        requires
            old(self).ecs.wf(),
        ensures
            final(self).ecs.wf(),
            final(self).ecs.n() == old(self).ecs.n(),
            final(self).ecs.alive == old(self).ecs.alive,
            final(self).ecs.positions == old(self).ecs.positions,
            final(self).ecs.renderables == old(self).ecs.renderables,
            final(self).ecs.player == old(self).ecs.player,
            final(self).ecs.monster == old(self).ecs.monster,
            final(self).ecs.names == old(self).ecs.names,
            final(self).ecs.blocks_tile == old(self).ecs.blocks_tile,
            final(self).ecs.run_state == old(self).ecs.run_state,
            final(self).ecs.player_entity == old(self).ecs.player_entity,
            final(self).ecs.player_pos == old(self).ecs.player_pos,
            final(self).ecs.player_dead == old(self).ecs.player_dead,
            final(self).ecs.map.width == old(self).ecs.map.width,
            final(self).ecs.map.height == old(self).ecs.map.height,
            final(self).ecs.map.tiles == old(self).ecs.map.tiles,
            final(self).ecs.map.rooms == old(self).ecs.map.rooms,
            // revealed tiles are sticky across the pass, and grow by
            // exactly what some sight-holder saw
            forall|i: int|
                0 <= i < old(self).ecs.map.tiles.len() && old(self).ecs.map.revealed_tiles[i]
                    ==> final(self).ecs.map.revealed_tiles[i],
            forall|i: int| #![trigger final(self).ecs.map.revealed_tiles[i]]
                0 <= i < old(self).ecs.map.tiles.len() ==> final(self).ecs.map.revealed_tiles[i]
                    == visibility_system::prior_revealed(old(self).ecs, old(self).ecs.n(), i),
            // the global visible set is the player's fresh sight, the one
            // the monsters just acted on
            forall|i: int| #![trigger final(self).ecs.map.visible_tiles[i]]
                0 <= i < old(self).ecs.map.tiles.len() ==> final(self).ecs.map.visible_tiles[i]
                    == visibility_system::holder_sees(
                    old(self).ecs,
                    old(self).ecs.player_entity as int,
                    i,
                ),
            // every intent and accumulator is consumed within the pass
            forall|e: int| #![trigger final(self).ecs.wants_melee[e]]
                0 <= e < old(self).ecs.n() ==> final(self).ecs.wants_melee[e] is None,
            forall|e: int| #![trigger final(self).ecs.suffer_damage[e]]
                0 <= e < old(self).ecs.n() ==> final(self).ecs.suffer_damage[e] is None,
            // stats change only by damage: hit points never rise
            forall|e: int| #![trigger final(self).ecs.combat_stats[e]]
                0 <= e < old(self).ecs.n() ==> {
                    &&& (final(self).ecs.combat_stats[e] is Some <==> old(self).ecs.combat_stats[e] is Some)
                    &&& (final(self).ecs.combat_stats[e] is Some ==> {
                        let new = final(self).ecs.combat_stats[e]->Some_0;
                        let prev = old(self).ecs.combat_stats[e]->Some_0;
                        new.max_hp == prev.max_hp && new.defense == prev.defense && new.power
                            == prev.power && new.hp <= prev.hp
                    })
                },
            // the occupancy index reflects this pass's own positions
            forall|i: int| #![trigger final(self).ecs.map.blocked[i]]
                0 <= i < old(self).ecs.map.tiles.len() ==> final(self).ecs.map.blocked[i] == (
                old(self).ecs.map.tiles[i] == map::TileType::Wall || exists|e: int|
                    map_indexing_system::blocker_at(old(self).ecs, e, i)),
            forall|e: int, i: int| #![trigger final(self).ecs.map.tile_content[i], map_indexing_system::blocker_at(old(self).ecs, e, i)]
                0 <= i < old(self).ecs.map.tiles.len() && map_indexing_system::blocker_at(
                    old(self).ecs,
                    e,
                    i,
                ) ==> final(self).ecs.map.tile_content[i]@.contains(e as usize),
            forall|i: int, k: int| #![trigger final(self).ecs.map.tile_content[i]@[k]]
                0 <= i < old(self).ecs.map.tiles.len() && 0 <= k < final(self).ecs.map.tile_content[i].len() ==> map_indexing_system::blocker_at(
                    old(self).ecs,
                    final(self).ecs.map.tile_content[i]@[k] as int,
                    i,
                ),
            // combat: the exact floored-linear damage, summed per target
            // and applied exactly once
            forall|e: int| #![trigger final(self).ecs.combat_stats[e]]
                0 <= e < old(self).ecs.n() ==> final(self).ecs.combat_stats[e] == (if old(self).ecs.combat_stats[e] is Some {
                    Some(
                        CombatStats {
                            max_hp: old(self).ecs.combat_stats[e]->Some_0.max_hp,
                            hp: damage_system::sat_sub(
                                old(self).ecs.combat_stats[e]->Some_0.hp as int,
                                melee_combat_system::suffer_sum(old(self).ecs, e) + pass_incoming(
                                    old(self).ecs,
                                    e,
                                    old(self).ecs.n(),
                                ),
                            ) as i32,
                            defense: old(self).ecs.combat_stats[e]->Some_0.defense,
                            power: old(self).ecs.combat_stats[e]->Some_0.power,
                        },
                    )
                } else {
                    None::<CombatStats>
                }),
            // the log is append-only and gains exactly one entry per
            // resolved attack, in attacker order
            final(self).ecs.log.entries.len() == old(self).ecs.log.entries.len() + pass_count(
                old(self).ecs,
                old(self).ecs.n(),
            ),
            forall|k: int| #![trigger final(self).ecs.log.entries[k]]
                0 <= k < old(self).ecs.log.entries.len() ==> final(self).ecs.log.entries[k]
                    == old(self).ecs.log.entries[k],
            forall|e: int| #![trigger pass_valid(old(self).ecs, e)]
                pass_valid(old(self).ecs, e) ==> melee_combat_system::is_attack_entry(
                    final(self).ecs.log.entries[old(self).ecs.log.entries.len() + pass_count(
                        old(self).ecs,
                        e,
                    )],
                    old(self).ecs.names[e]->Some_0.name@,
                    old(self).ecs.names[pass_target(old(self).ecs, e)]->Some_0.name@,
                    pass_damage(old(self).ecs, e),
                ),
    {
        visibility_system::run_visibility(&mut self.ecs);
        let ghost w_vis = self.ecs;
        monster_ai_system::run_monster_ai(&mut self.ecs);
        let ghost w_ai = self.ecs;
        map_indexing_system::run_map_indexing(&mut self.ecs);
        let ghost w_mid = self.ecs;
        melee_combat_system::run_melee_combat(&mut self.ecs);
        let ghost w_melee = self.ecs;
        damage_system::run_damage(&mut self.ecs);
        proof {
            let w0 = old(self).ecs;
            let n = w0.n();
            melee_combat_system::lemma_count_mono(w_mid, 0, w_mid.n());
            assert forall|e: int|
                0 <= e < self.ecs.n() && self.ecs.combat_stats[e] is Some implies self.ecs.combat_stats[e]->Some_0.hp
                <= old(self).ecs.combat_stats[e]->Some_0.hp by {
                if w_melee.suffer_damage[e] is Some {
                    assert(w_melee.entity_wf(e));
                    damage_system::lemma_sum_nonneg(w_melee.suffer_damage[e]->Some_0.amount@);
                }
            }
            // the intents melee read are exactly the pass's decisions
            assert(w0.entity_wf(w0.player_entity as int));
            w0.map.lemma_idx_of(
                w0.player_position().x as int,
                w0.player_position().y as int,
            );
            assert forall|e: int| 0 <= e < n implies w_mid.wants_melee[e] == pass_intent(w0, e) by {
                if visibility_system::fov_holder(w0, e) {
                    assert(w_vis.fovs[e] is Some);
                    assert(w_vis.fovs[e]->Some_0.visible_tiles[player_tile(w0)]
                        == visibility_system::holder_sees(w0, e, player_tile(w0)));
                }
                assert(monster_ai_system::wants_attack(w_vis, e) == pass_attacks(w0, e));
            }
            assert(melee_input_matches(w0, w_mid));
            // transport melee's sums, counts and log entries to the entry state
            assert forall|t: int| 0 <= t < n implies melee_combat_system::incoming_upto(
                w_mid,
                t,
                n,
            ) == pass_incoming(w0, t, n) by {
                lemma_pass_incoming_eq(w0, w_mid, t, n);
            }
            lemma_pass_count_eq(w0, w_mid, n);
            // combat outcome, entity by entity
            assert forall|e: int| 0 <= e < n implies self.ecs.combat_stats[e] == (if w0.combat_stats[e] is Some {
                Some(
                    CombatStats {
                        max_hp: w0.combat_stats[e]->Some_0.max_hp,
                        hp: damage_system::sat_sub(
                            w0.combat_stats[e]->Some_0.hp as int,
                            melee_combat_system::suffer_sum(w0, e) + pass_incoming(w0, e, n),
                        ) as i32,
                        defense: w0.combat_stats[e]->Some_0.defense,
                        power: w0.combat_stats[e]->Some_0.power,
                    },
                )
            } else {
                None::<CombatStats>
            }) by {
                assert(melee_combat_system::suffer_sum(w_mid, e) == melee_combat_system::suffer_sum(
                    w0,
                    e,
                ));
                if !(w_melee.suffer_damage[e] is Some) {
                    assert forall|j: int|
                        !(#[trigger] pass_valid(w0, j) && pass_target(w0, j) == e) by {
                        if pass_valid(w0, j) && pass_target(w0, j) == e {
                            lemma_pass_step(w0, w_mid, j);
                            assert(w_melee.suffer_damage[e] is Some);
                        }
                    }
                    lemma_pass_incoming_zero(w0, e, n);
                }
            }
            // log: exactly one entry per resolved attack
            assert forall|e: int| #[trigger] pass_valid(w0, e) implies melee_combat_system::is_attack_entry(
                self.ecs.log.entries[w0.log.entries.len() + pass_count(w0, e)],
                w0.names[e]->Some_0.name@,
                w0.names[pass_target(w0, e)]->Some_0.name@,
                pass_damage(w0, e),
            ) by {
                lemma_pass_step(w0, w_mid, e);
                lemma_pass_count_eq(w0, w_mid, e);
                assert(melee_combat_system::valid_attack(w_mid, e));
            }
            // occupancy: the index matches the entry state's positions
            assert forall|e: int, i: int|
                map_indexing_system::blocker_at(w_ai, e, i) == map_indexing_system::blocker_at(
                    w0,
                    e,
                    i,
                ) by {}
            assert forall|i: int| 0 <= i < w0.map.tiles.len() implies self.ecs.map.blocked[i] == (
                w0.map.tiles[i] == map::TileType::Wall || exists|e: int|
                    map_indexing_system::blocker_at(w0, e, i)) by {
                if self.ecs.map.blocked[i] && w0.map.tiles[i] != map::TileType::Wall {
                    let e = choose|e: int| map_indexing_system::blocker_at(w_ai, e, i);
                    assert(map_indexing_system::blocker_at(w0, e, i));
                }
                if exists|e: int| map_indexing_system::blocker_at(w0, e, i) {
                    let e = choose|e: int| map_indexing_system::blocker_at(w0, e, i);
                    assert(map_indexing_system::blocker_at(w_ai, e, i));
                }
            }
        }
    }

    /// One tick of the turn state machine. `PreRun`, `PlayerTurn` and
    /// `MonsterTurn` run the full pipeline; `AwaitingInput` only consults
    /// the input action. The dead are swept at the end of every tick, and
    /// a dead player is reported rather than removed.
    pub fn tick(&mut self, action: player::Action) -> (player_died: bool)
        requires
            old(self).ecs.wf(),
        ensures
            final(self).ecs.wf(),
            final(self).ecs.n() == old(self).ecs.n(),
            final(self).ecs.player_entity == old(self).ecs.player_entity,
            final(self).ecs.map.width == old(self).ecs.map.width,
            final(self).ecs.map.height == old(self).ecs.map.height,
            final(self).ecs.map.tiles == old(self).ecs.map.tiles,
            // the state machine's transitions
            final(self).ecs.run_state == match old(self).ecs.run_state {
                RunState::PreRun => RunState::AwaitingInput,
                RunState::AwaitingInput => player::input_result(old(self).ecs, action),
                RunState::PlayerTurn => RunState::MonsterTurn,
                RunState::MonsterTurn => RunState::AwaitingInput,
            },
            // revealed tiles are sticky across ticks
            forall|i: int|
                0 <= i < old(self).ecs.map.tiles.len() && old(self).ecs.map.revealed_tiles[i]
                    ==> final(self).ecs.map.revealed_tiles[i],
            // while awaiting input, only the action moves the player or
            // raises an intent
            old(self).ecs.run_state is AwaitingInput ==> final(self).ecs.positions[old(self).ecs.player_entity as int] == player::positions_after(
                old(self).ecs,
                action,
                old(self).ecs.player_entity as int,
            ),
            old(self).ecs.run_state is AwaitingInput ==> final(self).ecs.wants_melee[old(self).ecs.player_entity as int] == player::wants_after(
                old(self).ecs,
                action,
                old(self).ecs.player_entity as int,
            ),
            // a pipeline tick does the pass's work: every intent and
            // accumulator consumed, sight and log exact, and the pass's
            // damage showing on every surviving combatant
            !(old(self).ecs.run_state is AwaitingInput) ==> (forall|e: int| #![trigger final(self).ecs.suffer_damage[e]]
                0 <= e < old(self).ecs.n() ==> final(self).ecs.wants_melee[e] is None && final(self).ecs.suffer_damage[e] is None),
            !(old(self).ecs.run_state is AwaitingInput) ==> final(self).ecs.log.entries.len()
                == old(self).ecs.log.entries.len() + pass_count(old(self).ecs, old(self).ecs.n()),
            !(old(self).ecs.run_state is AwaitingInput) ==> (forall|i: int| #![trigger final(self).ecs.map.revealed_tiles[i]]
                0 <= i < old(self).ecs.map.tiles.len() ==> final(self).ecs.map.revealed_tiles[i]
                    == visibility_system::prior_revealed(old(self).ecs, old(self).ecs.n(), i)),
            !(old(self).ecs.run_state is AwaitingInput) ==> (forall|e: int| #![trigger final(self).ecs.combat_stats[e]]
                0 <= e < old(self).ecs.n() && final(self).ecs.alive[e] ==> final(self).ecs.combat_stats[e] == (if old(self).ecs.combat_stats[e] is Some {
                    Some(
                        CombatStats {
                            max_hp: old(self).ecs.combat_stats[e]->Some_0.max_hp,
                            hp: damage_system::sat_sub(
                                old(self).ecs.combat_stats[e]->Some_0.hp as int,
                                melee_combat_system::suffer_sum(old(self).ecs, e) + pass_incoming(
                                    old(self).ecs,
                                    e,
                                    old(self).ecs.n(),
                                ),
                            ) as i32,
                            defense: old(self).ecs.combat_stats[e]->Some_0.defense,
                            power: old(self).ecs.combat_stats[e]->Some_0.power,
                        },
                    )
                } else {
                    None::<CombatStats>
                })),
            // the sweep leaves no live non-player combatant at or below zero
            forall|e: int| #![trigger final(self).ecs.combat_stats[e]]
                0 <= e < old(self).ecs.n() && final(self).ecs.alive[e] && e != old(self).ecs.player_entity && final(self).ecs.combat_stats[e] is Some ==> final(self).ecs.combat_stats[e]->Some_0.hp > 0,
            // an idle frame changes nothing: no pipeline, no mutation
            (old(self).ecs.run_state is AwaitingInput && player::input_result(
                old(self).ecs,
                action,
            ) is AwaitingInput && (forall|e: int|
                0 <= e < old(self).ecs.n() && old(self).ecs.combat_stats[e] is Some ==> old(self).ecs.combat_stats[e]->Some_0.hp > 0)) ==> final(self).ecs == old(self).ecs,
            // the player survives the sweep; death is a reported condition
            final(self).ecs.alive[old(self).ecs.player_entity as int],
            player_died == (final(self).ecs.player_stats().hp <= 0),
            final(self).ecs.player_dead == (old(self).ecs.player_dead || player_died),
            // the log is append-only
            forall|k: int| #![trigger final(self).ecs.log.entries[k]]
                0 <= k < old(self).ecs.log.entries.len() ==> final(self).ecs.log.entries[k]
                    == old(self).ecs.log.entries[k],
    {
        let rs: RunState = self.ecs.run_state;
        let new_run_state: RunState = match rs {
            RunState::PreRun => {
                self.run_systems();
                RunState::AwaitingInput
            },
            RunState::AwaitingInput => player::player_input(self, action),
            RunState::PlayerTurn => {
                self.run_systems();
                RunState::MonsterTurn
            },
            RunState::MonsterTurn => {
                self.run_systems();
                RunState::AwaitingInput
            },
        };
        let ghost mid = self.ecs;
        self.ecs.run_state = new_run_state;
        proof {
            assert forall|j: int| 0 <= j < self.ecs.n() implies self.ecs.entity_wf(j) by {
                assert(mid.entity_wf(j));
            }
        }
        let died = damage_system::delete_the_dead(&mut self.ecs);
        proof {
            assert forall|e: int|
                0 <= e < self.ecs.n() && !(old(self).ecs.run_state is AwaitingInput)
                    implies self.ecs.wants_melee[e] is None && self.ecs.suffer_damage[e] is None by {
                if self.ecs.alive[e] {
                    assert(self.ecs.wants_melee[e] == mid.wants_melee[e]);
                    assert(self.ecs.suffer_damage[e] == mid.suffer_damage[e]);
                    assert(mid.wants_melee[e] is None);
                    assert(mid.suffer_damage[e] is None);
                } else {
                    assert(self.ecs.entity_wf(e));
                }
            }
        }
        died
    }
}

} // verus!
