//! Melee resolution: every pending attack intent is consumed; when both
//! sides still have combat stats and a name, the deterministic damage
//! `max(0, power - defense)` is appended to the target's damage
//! accumulator (created on first hit, zero hits included) and a log entry
//! naming attacker, target and amount is appended.

use vstd::prelude::*;
use crate::components::SufferDamage;
use crate::gamelog::LogEntry;
use crate::world::World;

verus! {

/// The deterministic hit rule: power against defense, floored at zero.
pub open spec fn melee_damage(power: int, defense: int) -> int {
    if power > defense {
        power - defense
    } else {
        0
    }
}

/// The damage floor: a target whose defense is at least the attacker's
/// power takes exactly zero damage, and damage is never negative.
pub proof fn lemma_melee_damage(power: int, defense: int)
    ensures
        melee_damage(power, defense) >= 0,
        defense >= power ==> melee_damage(power, defense) == 0,
        power > defense ==> melee_damage(power, defense) == power - defense,
{
}

/// The target of entity `e`'s intent.
pub open spec fn target_of(w: World, e: int) -> int {
    w.wants_melee[e]->Some_0.target as int
}

/// Intent `e` resolves this pass: the attacker is alive with an intent,
/// and both sides carry combat stats and a name.
pub open spec fn valid_attack(w: World, e: int) -> bool {
    &&& 0 <= e < w.n()
    &&& w.alive[e]
    &&& w.wants_melee[e] is Some
    &&& w.combat_stats[e] is Some
    &&& w.names[e] is Some
    &&& w.alive[target_of(w, e)]
    &&& w.combat_stats[target_of(w, e)] is Some
    &&& w.names[target_of(w, e)] is Some
}

/// The damage attack `e` deals.
pub open spec fn attack_damage(w: World, e: int) -> int {
    melee_damage(
        w.combat_stats[e]->Some_0.power as int,
        w.combat_stats[target_of(w, e)]->Some_0.defense as int,
    )
}

/// Damage dealt to `t` by the attackers with identifier below `k`.
pub open spec fn incoming_upto(w: World, t: int, k: int) -> int
    decreases k,
{
    if k <= 0 {
        0
    } else {
        incoming_upto(w, t, k - 1) + if valid_attack(w, k - 1) && target_of(w, k - 1) == t {
            attack_damage(w, k - 1)
        } else {
            0
        }
    }
}

/// How many attacks resolve among the attackers with identifier below `k`.
pub open spec fn count_attacks_upto(w: World, k: int) -> int
    decreases k,
{
    if k <= 0 {
        0
    } else {
        count_attacks_upto(w, k - 1) + if valid_attack(w, k - 1) {
            1int
        } else {
            0int
        }
    }
}

/// Resolved-attack counts grow with the range they count.
pub proof fn lemma_count_mono(w: World, a: int, b: int)
    requires
        a <= b,
    ensures
        count_attacks_upto(w, a) <= count_attacks_upto(w, b),
    decreases b - a,
{
    if a < b {
        lemma_count_mono(w, a, b - 1);
    }
}

/// Sum of a damage accumulator.
pub open spec fn sum_seq(s: Seq<i32>) -> int
    decreases s.len(),
{
    if s.len() == 0 {
        0
    } else {
        sum_seq(s.drop_last()) + s.last()
    }
}

pub proof fn lemma_sum_push(s: Seq<i32>, x: i32)
    ensures
        sum_seq(s.push(x)) == sum_seq(s) + x,
{
    assert(s.push(x).drop_last() =~= s);
    assert(s.push(x).last() == x);
}

/// The total damage pending against `t`.
pub open spec fn suffer_sum(w: World, t: int) -> int {
    if w.suffer_damage[t] is Some {
        sum_seq(w.suffer_damage[t]->Some_0.amount@)
    } else {
        0
    }
}

/// `entry` records an attack by `attacker` on `target` for `amount`.
pub open spec fn is_attack_entry(
    entry: LogEntry,
    attacker: Seq<char>,
    target: Seq<char>,
    amount: int,
) -> bool {
    &&& entry is Attack
    &&& entry->Attack_attacker@ == attacker
    &&& entry->Attack_target@ == target
    &&& entry->Attack_amount == amount
}

/// The melee pass. Every intent is consumed; each resolving attack adds
/// its damage to the target's accumulator and appends one log entry, in
/// attacker order.
pub fn run_melee_combat(ecs: &mut World)
    requires
        old(ecs).wf(),
    ensures
        final(ecs).wf(),
        final(ecs).n() == old(ecs).n(),
        final(ecs).alive == old(ecs).alive,
        final(ecs).positions == old(ecs).positions,
        final(ecs).renderables == old(ecs).renderables,
        final(ecs).player == old(ecs).player,
        final(ecs).monster == old(ecs).monster,
        final(ecs).names == old(ecs).names,
        final(ecs).fovs == old(ecs).fovs,
        final(ecs).blocks_tile == old(ecs).blocks_tile,
        final(ecs).combat_stats == old(ecs).combat_stats,
        final(ecs).run_state == old(ecs).run_state,
        final(ecs).player_entity == old(ecs).player_entity,
        final(ecs).player_pos == old(ecs).player_pos,
        final(ecs).player_dead == old(ecs).player_dead,
        final(ecs).map == old(ecs).map,
        // every intent is consumed
        forall|e: int| #![trigger final(ecs).wants_melee[e]]
            0 <= e < old(ecs).n() ==> final(ecs).wants_melee[e] is None,
        // pending damage grows by exactly the resolved attacks
        forall|t: int| #![trigger suffer_sum(*final(ecs), t)]
            0 <= t < old(ecs).n() ==> suffer_sum(*final(ecs), t) == suffer_sum(*old(ecs), t)
                + incoming_upto(*old(ecs), t, old(ecs).n()),
        // an accumulator exists exactly where one existed or a hit landed
        forall|t: int| #![trigger final(ecs).suffer_damage[t]]
            0 <= t < old(ecs).n() ==> (final(ecs).suffer_damage[t] is Some <==> (old(
                ecs,
            ).suffer_damage[t] is Some || exists|e: int|
                valid_attack(*old(ecs), e) && target_of(*old(ecs), e) == t)),
        // the log is append-only and gains one entry per resolved attack
        final(ecs).log.entries.len() == old(ecs).log.entries.len() + count_attacks_upto(
            *old(ecs),
            old(ecs).n(),
        ),
        forall|k: int| #![trigger final(ecs).log.entries[k]]
            0 <= k < old(ecs).log.entries.len() ==> final(ecs).log.entries[k] == old(
                ecs,
            ).log.entries[k],
        forall|e: int| #![trigger valid_attack(*old(ecs), e)]
            valid_attack(*old(ecs), e) ==> is_attack_entry(
                final(ecs).log.entries[old(ecs).log.entries.len() + count_attacks_upto(
                    *old(ecs),
                    e,
                )],
                old(ecs).names[e]->Some_0.name@,
                old(ecs).names[target_of(*old(ecs), e)]->Some_0.name@,
                attack_damage(*old(ecs), e),
            ),
{
    let ghost w0 = *ecs;
    let n = ecs.alive.len();
    let ghost l0 = ecs.log.entries@.len() as int;
    let mut e: usize = 0;
    while e < n
        invariant
            w0.wf(),
            ecs.wf(),
            e <= n,
            n == w0.n(),
            l0 == w0.log.entries@.len(),
            ecs.alive == w0.alive,
            ecs.positions == w0.positions,
            ecs.renderables == w0.renderables,
            ecs.player == w0.player,
            ecs.monster == w0.monster,
            ecs.names == w0.names,
            ecs.fovs == w0.fovs,
            ecs.blocks_tile == w0.blocks_tile,
            ecs.combat_stats == w0.combat_stats,
            ecs.run_state == w0.run_state,
            ecs.player_entity == w0.player_entity,
            ecs.player_pos == w0.player_pos,
            ecs.player_dead == w0.player_dead,
            ecs.map == w0.map,
            forall|j: int| #![trigger ecs.wants_melee[j]]
                0 <= j < n ==> ecs.wants_melee[j] == if j < e {
                    None::<crate::components::WantsToMelee>
                } else {
                    w0.wants_melee[j]
                },
            forall|t: int| #![trigger suffer_sum(*ecs, t)]
                0 <= t < n ==> suffer_sum(*ecs, t) == suffer_sum(w0, t) + incoming_upto(w0, t, e as int),
            forall|t: int| #![trigger ecs.suffer_damage[t]]
                0 <= t < n ==> (ecs.suffer_damage[t] is Some <==> (w0.suffer_damage[t] is Some
                    || exists|j: int| j < e && valid_attack(w0, j) && target_of(w0, j) == t)),
            ecs.log.entries.len() == l0 + count_attacks_upto(w0, e as int),
            forall|k: int| #![trigger ecs.log.entries[k]]
                0 <= k < l0 ==> ecs.log.entries[k] == w0.log.entries[k],
            forall|j: int| #![trigger valid_attack(w0, j)]
                0 <= j < e && valid_attack(w0, j) ==> is_attack_entry(
                    ecs.log.entries[l0 + count_attacks_upto(w0, j)],
                    w0.names[j]->Some_0.name@,
                    w0.names[target_of(w0, j)]->Some_0.name@,
                    attack_damage(w0, j),
                ),
        decreases n - e,
    {
        proof {
            assert(ecs.entity_wf(e as int));
        }
        let ghost pre = *ecs;
        if ecs.alive[e] && ecs.wants_melee[e].is_some() {
            let target: usize = match &ecs.wants_melee[e] {
                Some(wm) => wm.target,
                None => 0,
            };
            ecs.wants_melee.set(e, None);
            proof {
                assert forall|j: int| 0 <= j < ecs.n() implies ecs.entity_wf(j) by {
                    assert(pre.entity_wf(j));
                }
                assert(pre.entity_wf(e as int));
            }
            let resolves = ecs.combat_stats[e].is_some() && ecs.names[e].is_some()
                && ecs.alive[target] && ecs.combat_stats[target].is_some()
                && ecs.names[target].is_some();
            if resolves {
                proof {
                    assert(valid_attack(w0, e as int));
                    assert(target_of(w0, e as int) == target as int);
                }
                proof {
                    assert(ecs.entity_wf(e as int));
                    assert(ecs.entity_wf(target as int));
                }
                let power: i32 = match &ecs.combat_stats[e] {
                    Some(s) => s.power,
                    None => 0,
                };
                let defense: i32 = match &ecs.combat_stats[target] {
                    Some(s) => s.defense,
                    None => 0,
                };
                let damage: i32 = if power > defense {
                    power - defense
                } else {
                    0
                };
                proof {
                    assert(damage == attack_damage(w0, e as int));
                }
                let attacker_name: String = match &ecs.names[e] {
                    Some(nm) => nm.name.clone(),
                    None => String::new(),
                };
                let target_name: String = match &ecs.names[target] {
                    Some(nm) => nm.name.clone(),
                    None => String::new(),
                };
                let ghost pre2 = *ecs;
                if ecs.suffer_damage[target].is_some() {
                    match &mut ecs.suffer_damage[target] {
                        Some(sd) => {
                            sd.amount.push(damage);
                        },
                        None => {},
                    }
                    proof {
                        assert(ecs.suffer_damage[target as int]->Some_0.amount@
                            == pre2.suffer_damage[target as int]->Some_0.amount@.push(damage));
                        lemma_sum_push(
                            pre2.suffer_damage[target as int]->Some_0.amount@,
                            damage,
                        );
                    }
                } else {
                    ecs.suffer_damage.set(target, Some(SufferDamage { amount: vec![damage] }));
                    proof {
                        assert(ecs.suffer_damage[target as int]->Some_0.amount@
                            =~= Seq::<i32>::empty().push(damage));
                        lemma_sum_push(Seq::<i32>::empty(), damage);
                    }
                }
                proof {
                    assert(suffer_sum(*ecs, target as int) == suffer_sum(pre2, target as int)
                        + attack_damage(w0, e as int));
                    assert forall|j: int| 0 <= j < ecs.n() implies ecs.entity_wf(j) by {
                        assert(pre2.entity_wf(j));
                        if j == target as int {
                            let s_new = ecs.suffer_damage[j]->Some_0.amount@;
                            assert forall|k: int| 0 <= k < s_new.len() implies s_new[k] >= 0 by {
                                if pre2.suffer_damage[j] is Some && k < pre2.suffer_damage[
                                    j
                                ]->Some_0.amount@.len() {
                                    assert(pre2.suffer_damage[j]->Some_0.amount@[k] >= 0);
                                } else {
                                    assert(s_new[k] == damage);
                                }
                            }
                        } else {
                            assert(ecs.suffer_damage[j] == pre2.suffer_damage[j]);
                        }
                    }
                }
                let entry = LogEntry::Attack {
                    attacker: attacker_name,
                    target: target_name,
                    amount: damage,
                };
                let ghost ge: LogEntry = entry;
                ecs.log.entries.push(entry);
                proof {
                    assert(ecs.log.entries@ == pre.log.entries@.push(ge));
                    assert(is_attack_entry(
                        ge,
                        w0.names[e as int]->Some_0.name@,
                        w0.names[target as int]->Some_0.name@,
                        attack_damage(w0, e as int),
                    ));
                    assert(ecs.log.entries[pre.log.entries@.len() as int] == ge);
                    assert forall|k: int| 0 <= k < pre.log.entries@.len() implies ecs.log.entries[k]
                        == pre.log.entries[k] by {}
                }
            }
        }
        proof {
            assert forall|j: int| 0 <= j < ecs.n() implies ecs.entity_wf(j) by {
                assert(pre.entity_wf(j));
                if ecs.suffer_damage[j] is Some {
                    let s = ecs.suffer_damage[j]->Some_0.amount@;
                    assert forall|k: int| 0 <= k < s.len() implies s[k] >= 0 by {
                        if ecs.suffer_damage[j] == pre.suffer_damage[j] {
                            assert(pre.suffer_damage[j]->Some_0.amount@[k] >= 0);
                        }
                    }
                }
            }
            assert forall|t: int| 0 <= t < n implies suffer_sum(*ecs, t) == suffer_sum(w0, t)
                + incoming_upto(w0, t, e + 1) by {
                assert(suffer_sum(pre, t) == suffer_sum(w0, t) + incoming_upto(w0, t, e as int));
                if !(valid_attack(w0, e as int) && target_of(w0, e as int) == t) {
                    assert(suffer_sum(*ecs, t) == suffer_sum(pre, t));
                }
            }
            lemma_count_mono(w0, 0, e as int);
            assert(ecs.log.entries.len() == l0 + count_attacks_upto(w0, e + 1));
            assert forall|k: int| 0 <= k < l0 implies ecs.log.entries[k] == w0.log.entries[k] by {
                assert(pre.log.entries[k] == w0.log.entries[k]);
                assert(0 <= k < pre.log.entries@.len());
                assert(ecs.log.entries@[k] == pre.log.entries@[k]);
            }
            assert forall|j: int| 0 <= j < e + 1 && valid_attack(w0, j) implies is_attack_entry(
                ecs.log.entries[l0 + count_attacks_upto(w0, j)],
                w0.names[j]->Some_0.name@,
                w0.names[target_of(w0, j)]->Some_0.name@,
                attack_damage(w0, j),
            ) by {
                if j < e {
                    lemma_count_mono(w0, 0, j);
                    lemma_count_mono(w0, j + 1, e as int);
                    assert(l0 + count_attacks_upto(w0, j) < pre.log.entries.len());
                    assert(ecs.log.entries[l0 + count_attacks_upto(w0, j)] == pre.log.entries[l0
                        + count_attacks_upto(w0, j)]);
                }
            }
            assert forall|t: int| 0 <= t < n implies (ecs.suffer_damage[t] is Some <==> (
                w0.suffer_damage[t] is Some || exists|j: int|
                    j < e + 1 && valid_attack(w0, j) && target_of(w0, j) == t)) by {
                if ecs.suffer_damage[t] is Some {
                    if !(w0.suffer_damage[t] is Some) {
                        if pre.suffer_damage[t] is Some {
                            let j = choose|j: int|
                                j < e && valid_attack(w0, j) && target_of(w0, j) == t;
                            assert(j < e + 1 && valid_attack(w0, j) && target_of(w0, j) == t);
                        } else {
                            assert(valid_attack(w0, e as int) && target_of(w0, e as int) == t);
                        }
                    }
                } else {
                    assert(!(w0.suffer_damage[t] is Some));
                    assert forall|j: int|
                        j < e + 1 && valid_attack(w0, j) implies target_of(w0, j) != t by {
                        if j < e {
                            if target_of(w0, j) == t {
                                assert(pre.suffer_damage[t] is Some);
                                assert(ecs.suffer_damage[t] is Some);
                            }
                        } else if j == e {
                            if target_of(w0, j) == t {
                                assert(ecs.suffer_damage[t] is Some);
                            }
                        }
                    }
                }
            }
        }
        e += 1;
    }
}

} // verus!
