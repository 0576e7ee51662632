//! Damage application and the death sweep. Apply drains every damage
//! accumulator into its owner's hit points (no floor at zero; the machine
//! floor `i32::MIN` is saturated). The sweep then removes every dead
//! non-player entity and raises a distinct condition for a dead player.

use vstd::prelude::*;
use crate::components::CombatStats;
use crate::melee_combat_system::{sum_seq, suffer_sum};
use crate::world::World;

verus! {

/// Subtraction that saturates at the machine floor.
pub open spec fn sat_sub(hp: int, d: int) -> int {
    if hp - d < i32::MIN {
        i32::MIN as int
    } else {
        hp - d
    }
}

/// Saturating steps of non-negative damage compose into one.
pub proof fn lemma_sat_sub_chain(h: int, a: int, b: int)
    requires
        a >= 0,
        b >= 0,
    ensures
        sat_sub(sat_sub(h, a), b) == sat_sub(h, a + b),
{
}

/// Sum of the first `k` amounts grows by the `k`-th.
pub proof fn lemma_sum_take(s: Seq<i32>, k: int)
    requires
        0 <= k < s.len(),
    ensures
        sum_seq(s.take(k + 1)) == sum_seq(s.take(k)) + s[k],
{
    assert(s.take(k + 1).drop_last() =~= s.take(k));
    assert(s.take(k + 1).last() == s[k]);
}

/// Exec saturating subtraction of a non-negative amount.
fn sub_sat(hp: i32, d: i32) -> (r: i32)
    requires
        d >= 0,
    ensures
        r == sat_sub(hp as int, d as int),
{
    if hp >= i32::MIN + d {
        hp - d
    } else {
        i32::MIN
    }
}

/// The stats entity `e` ends up with after apply.
pub open spec fn stats_after_apply(w: World, e: int) -> Option<CombatStats> {
    if w.suffer_damage[e] is Some && w.combat_stats[e] is Some {
        Some(
            CombatStats {
                max_hp: w.combat_stats[e]->Some_0.max_hp,
                hp: sat_sub(w.combat_stats[e]->Some_0.hp as int, suffer_sum(w, e)) as i32,
                defense: w.combat_stats[e]->Some_0.defense,
                power: w.combat_stats[e]->Some_0.power,
            },
        )
    } else {
        w.combat_stats[e]
    }
}

/// The apply step: every damage accumulator is summed into its owner's
/// hit points exactly once and removed; nothing else changes.
pub fn run_damage(ecs: &mut World)
    requires
        old(ecs).wf(),
    ensures
        final(ecs).wf(),
        final(ecs).n() == old(ecs).n(),
        final(ecs).alive == old(ecs).alive,
        final(ecs).positions == old(ecs).positions,
        final(ecs).renderables == old(ecs).renderables,
        final(ecs).player == old(ecs).player,
        final(ecs).monster == old(ecs).monster,
        final(ecs).names == old(ecs).names,
        final(ecs).fovs == old(ecs).fovs,
        final(ecs).blocks_tile == old(ecs).blocks_tile,
        final(ecs).wants_melee == old(ecs).wants_melee,
        final(ecs).run_state == old(ecs).run_state,
        final(ecs).log == old(ecs).log,
        final(ecs).player_entity == old(ecs).player_entity,
        final(ecs).player_pos == old(ecs).player_pos,
        final(ecs).player_dead == old(ecs).player_dead,
        final(ecs).map == old(ecs).map,
        forall|e: int| #![trigger final(ecs).suffer_damage[e]]
            0 <= e < old(ecs).n() ==> final(ecs).suffer_damage[e] is None,
        forall|e: int| #![trigger final(ecs).combat_stats[e]]
            0 <= e < old(ecs).n() ==> final(ecs).combat_stats[e] == stats_after_apply(*old(ecs), e),
{
    let ghost w0 = *ecs;
    let n = ecs.alive.len();
    let mut e: usize = 0;
    while e < n
        invariant
            w0.wf(),
            ecs.wf(),
            e <= n,
            n == w0.n(),
            ecs.alive == w0.alive,
            ecs.positions == w0.positions,
            ecs.renderables == w0.renderables,
            ecs.player == w0.player,
            ecs.monster == w0.monster,
            ecs.names == w0.names,
            ecs.fovs == w0.fovs,
            ecs.blocks_tile == w0.blocks_tile,
            ecs.wants_melee == w0.wants_melee,
            ecs.run_state == w0.run_state,
            ecs.log == w0.log,
            ecs.player_entity == w0.player_entity,
            ecs.player_pos == w0.player_pos,
            ecs.player_dead == w0.player_dead,
            ecs.map == w0.map,
            forall|j: int| #![trigger ecs.suffer_damage[j]]
                0 <= j < n ==> ecs.suffer_damage[j] == if j < e {
                    None::<crate::components::SufferDamage>
                } else {
                    w0.suffer_damage[j]
                },
            forall|j: int| #![trigger ecs.combat_stats[j]]
                0 <= j < n ==> ecs.combat_stats[j] == if j < e {
                    stats_after_apply(w0, j)
                } else {
                    w0.combat_stats[j]
                },
        decreases n - e,
    {
        proof {
            assert(ecs.entity_wf(e as int));
        }
        let ghost pre = *ecs;
        if ecs.suffer_damage[e].is_some() {
            let stats_opt: Option<CombatStats> = ecs.combat_stats[e];
            match stats_opt {
                Some(stats) => {
                    let len: usize = match &ecs.suffer_damage[e] {
                        Some(sd) => sd.amount.len(),
                        None => 0,
                    };
                    let ghost amounts = ecs.suffer_damage[e as int]->Some_0.amount@;
                    let mut hp: i32 = stats.hp;
                    let mut k: usize = 0;
                    while k < len
                        invariant
                            ecs.wf(),
                            e < n,
                            n == ecs.n(),
                            k <= len,
                            ecs.suffer_damage[e as int] is Some,
                            amounts == ecs.suffer_damage[e as int]->Some_0.amount@,
                            len == amounts.len(),
                            forall|m: int| 0 <= m < len ==> amounts[m] >= 0,
                            hp == sat_sub(stats.hp as int, sum_seq(amounts.take(k as int))),
                        decreases len - k,
                    {
                        let a: i32 = match &ecs.suffer_damage[e] {
                            Some(sd) => sd.amount[k],
                            None => 0,
                        };
                        proof {
                            assert(sum_seq(amounts.take(0)) == 0) by {
                                assert(amounts.take(0) =~= Seq::<i32>::empty());
                            }
                            lemma_sum_nonneg(amounts.take(k as int));
                            lemma_sum_take(amounts, k as int);
                            lemma_sat_sub_chain(
                                stats.hp as int,
                                sum_seq(amounts.take(k as int)),
                                a as int,
                            );
                        }
                        hp = sub_sat(hp, a);
                        k += 1;
                    }
                    proof {
                        assert(amounts.take(len as int) =~= amounts);
                    }
                    ecs.combat_stats.set(
                        e,
                        Some(
                            CombatStats {
                                max_hp: stats.max_hp,
                                hp,
                                defense: stats.defense,
                                power: stats.power,
                            },
                        ),
                    );
                },
                None => {},
            }
            ecs.suffer_damage.set(e, None);
            proof {
                assert forall|j: int| 0 <= j < ecs.n() implies ecs.entity_wf(j) by {
                    assert(pre.entity_wf(j));
                }
            }
        }
        e += 1;
    }
}

/// A sum of non-negative amounts is non-negative.
pub proof fn lemma_sum_nonneg(s: Seq<i32>)
    requires
        forall|m: int| 0 <= m < s.len() ==> s[m] >= 0,
    ensures
        sum_seq(s) >= 0,
    decreases s.len(),
{
    if s.len() > 0 {
        lemma_sum_nonneg(s.drop_last());
    }
}

/// Entity `e` is due for removal: it has stats, they are at or below
/// zero, and it is not the player.
pub open spec fn dead_now(w: World, e: int) -> bool {
    &&& w.combat_stats[e] is Some
    &&& w.combat_stats[e]->Some_0.hp <= 0
    &&& e != w.player_entity
}

/// The death sweep. Every dead non-player entity is removed outright; a
/// dead player stays in the world and the death condition is raised
/// instead. Returns whether the player is dead this tick.
pub fn delete_the_dead(ecs: &mut World) -> (player_died: bool)
    requires
        old(ecs).wf(),
    ensures
        final(ecs).wf(),
        final(ecs).n() == old(ecs).n(),
        final(ecs).run_state == old(ecs).run_state,
        final(ecs).log == old(ecs).log,
        final(ecs).player_entity == old(ecs).player_entity,
        final(ecs).player_pos == old(ecs).player_pos,
        final(ecs).map == old(ecs).map,
        forall|e: int| #![trigger final(ecs).alive[e]]
            0 <= e < old(ecs).n() ==> final(ecs).alive[e] == (old(ecs).alive[e] && !dead_now(*old(ecs), e)),
        forall|e: int| #![trigger final(ecs).alive[e]]
            0 <= e < old(ecs).n() && final(ecs).alive[e] ==> final(ecs).positions[e] == old(ecs).positions[e] && final(ecs).renderables[e] == old(ecs).renderables[e] && final(ecs).player[e] == old(ecs).player[e] && final(ecs).monster[e] == old(ecs).monster[e]
                && final(ecs).names[e] == old(ecs).names[e] && final(ecs).fovs[e] == old(ecs).fovs[e] && final(ecs).blocks_tile[e] == old(ecs).blocks_tile[e] && final(ecs).combat_stats[e] == old(ecs).combat_stats[e] && final(ecs).wants_melee[e] == old(ecs).wants_melee[e] && final(ecs).suffer_damage[e] == old(ecs).suffer_damage[e],
        player_died == (old(ecs).player_stats().hp <= 0),
        final(ecs).player_dead == (old(ecs).player_dead || player_died),
        final(ecs).alive[old(ecs).player_entity as int],
        // with nobody at or below zero, the sweep is a no-op
        (forall|e: int|
            0 <= e < old(ecs).n() && old(ecs).combat_stats[e] is Some ==> old(
                ecs,
            ).combat_stats[e]->Some_0.hp > 0) ==> *final(ecs) == *old(ecs),
{
    let ghost w0 = *ecs;
    let n = ecs.alive.len();
    let mut died: bool = false;
    let mut e: usize = 0;
    while e < n
        invariant
            w0.wf(),
            ecs.wf(),
            e <= n,
            n == w0.n(),
            n == ecs.n(),
            ecs.run_state == w0.run_state,
            ecs.log == w0.log,
            ecs.player_entity == w0.player_entity,
            ecs.player_pos == w0.player_pos,
            ecs.player_dead == w0.player_dead,
            ecs.map == w0.map,
            died == (e > w0.player_entity && w0.player_stats().hp <= 0),
            (forall|j: int|
                0 <= j < n && w0.combat_stats[j] is Some ==> w0.combat_stats[j]->Some_0.hp > 0)
                ==> *ecs == w0 && !died,
            forall|j: int| #![trigger ecs.alive[j]]
                0 <= j < n ==> ecs.alive[j] == (w0.alive[j] && !(j < e && dead_now(w0, j))),
            forall|j: int| #![trigger ecs.alive[j]]
                0 <= j < n && ecs.alive[j] ==> ecs.positions[j] == w0.positions[j]
                    && ecs.renderables[j] == w0.renderables[j] && ecs.player[j] == w0.player[j]
                    && ecs.monster[j] == w0.monster[j] && ecs.names[j] == w0.names[j]
                    && ecs.fovs[j] == w0.fovs[j] && ecs.blocks_tile[j] == w0.blocks_tile[j]
                    && ecs.combat_stats[j] == w0.combat_stats[j] && ecs.wants_melee[j]
                    == w0.wants_melee[j] && ecs.suffer_damage[j] == w0.suffer_damage[j],
            forall|j: int| #![trigger ecs.alive[j]]
                0 <= j < n && !ecs.alive[j] && w0.alive[j] ==> !ecs.player[j],
        decreases n - e,
    {
        proof {
            assert(ecs.entity_wf(e as int));
        }
        let ghost pre = *ecs;
        let is_dead = ecs.alive[e] && match &ecs.combat_stats[e] {
            Some(s) => s.hp <= 0,
            None => false,
        };
        if is_dead {
            if e == ecs.player_entity {
                died = true;
            } else {
                ecs.alive.set(e, false);
                ecs.positions.set(e, None);
                ecs.renderables.set(e, None);
                ecs.player.set(e, false);
                ecs.monster.set(e, false);
                ecs.names.set(e, None);
                ecs.fovs.set(e, None);
                ecs.blocks_tile.set(e, false);
                ecs.combat_stats.set(e, None);
                ecs.wants_melee.set(e, None);
                ecs.suffer_damage.set(e, None);
                proof {
                    assert forall|j: int| 0 <= j < ecs.n() implies ecs.entity_wf(j) by {
                        assert(pre.entity_wf(j));
                    }
                }
            }
        }
        e += 1;
    }
    let ghost fin = *ecs;
    ecs.player_dead = ecs.player_dead || died;
    proof {
        assert forall|j: int| 0 <= j < ecs.n() implies ecs.entity_wf(j) by {
            assert(fin.entity_wf(j));
        }
    }
    died
}

} // verus!
