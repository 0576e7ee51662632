//! The player's turn: mapping one discrete action to a move or an attack.
//! A move onto a tile held by a blocking combatant becomes an attack
//! intent; a move into a wall or off the grid is silently ignored and
//! consumes no turn.

use vstd::prelude::*;
use crate::components::{Position, WantsToMelee};
use crate::world::World;
use crate::{RunState, State};

verus! {

/// One discrete player action, handed in by the input collaborator.
#[derive(PartialEq, Eq, Copy, Clone, Structural, Debug)]
pub enum Action {
    NoInput,
    Wait,
    Move { dx: i32, dy: i32 },
}

/// Entity `e` is something the player can attack: alive, with combat
/// stats, and not the player itself.
pub open spec fn is_target(w: World, e: usize) -> bool {
    &&& (e as int) < w.n()
    &&& w.alive[e as int]
    &&& w.combat_stats[e as int] is Some
    &&& e != w.player_entity
}

/// The first attackable entity in an occupancy list.
pub open spec fn first_target(w: World, s: Seq<usize>) -> Option<usize>
    decreases s.len(),
{
    if s.len() == 0 {
        None
    } else if is_target(w, s[0]) {
        Some(s[0])
    } else {
        first_target(w, s.drop_first())
    }
}

/// Scanning past non-targets does not change the first target.
pub proof fn lemma_first_target_skip(w: World, s: Seq<usize>, k: int)
    requires
        0 <= k <= s.len(),
        forall|j: int| 0 <= j < k ==> !is_target(w, s[j]),
    ensures
        first_target(w, s) == first_target(w, s.skip(k)),
    decreases k,
{
    if k > 0 {
        assert(s.skip(0) =~= s);
        assert(s.drop_first() =~= s.skip(1));
        lemma_first_target_skip(w, s.skip(1), k - 1);
        assert(s.skip(1).skip(k - 1) =~= s.skip(k));
    } else {
        assert(s.skip(0) =~= s);
    }
}

pub open spec fn valid_delta(dx: int, dy: int) -> bool {
    &&& -1 <= dx <= 1
    &&& -1 <= dy <= 1
    &&& !(dx == 0 && dy == 0)
}

/// Where a move by `(dx, dy)` would land the player.
pub open spec fn move_dest_x(w: World, dx: int) -> int {
    w.player_position().x + dx
}

pub open spec fn move_dest_y(w: World, dy: int) -> int {
    w.player_position().y + dy
}

/// The occupant the move would attack, if any.
pub open spec fn move_target(w: World, dx: int, dy: int) -> Option<usize> {
    first_target(
        w,
        w.map.tile_content[w.map.idx_of(move_dest_x(w, dx), move_dest_y(w, dy))]@,
    )
}

/// The move lands on the grid.
pub open spec fn move_in_bounds(w: World, dx: int, dy: int) -> bool {
    w.map.in_bounds_spec(move_dest_x(w, dx), move_dest_y(w, dy))
}

/// The move steps onto a free tile.
pub open spec fn move_steps(w: World, dx: int, dy: int) -> bool {
    &&& move_in_bounds(w, dx, dy)
    &&& move_target(w, dx, dy) is None
    &&& !w.map.blocked[w.map.idx_of(move_dest_x(w, dx), move_dest_y(w, dy))]
}

/// The move does something: it steps, or it attacks an occupant.
pub open spec fn move_acts(w: World, dx: int, dy: int) -> bool {
    &&& move_in_bounds(w, dx, dy)
    &&& (move_target(w, dx, dy) is Some || move_steps(w, dx, dy))
}

/// Try to move the player by one king-step. Against a blocking combatant
/// the move becomes an attack intent instead; into a wall or off the grid
/// it does nothing. Returns whether a turn was consumed.
pub fn try_move_player(delta_x: i32, delta_y: i32, ecs: &mut World) -> (acted: bool)
    requires
        old(ecs).wf(),
        valid_delta(delta_x as int, delta_y as int),
    ensures
        final(ecs).wf(),
        final(ecs).n() == old(ecs).n(),
        final(ecs).alive == old(ecs).alive,
        final(ecs).renderables == old(ecs).renderables,
        final(ecs).player == old(ecs).player,
        final(ecs).monster == old(ecs).monster,
        final(ecs).names == old(ecs).names,
        final(ecs).fovs == old(ecs).fovs,
        final(ecs).blocks_tile == old(ecs).blocks_tile,
        final(ecs).combat_stats == old(ecs).combat_stats,
        final(ecs).suffer_damage == old(ecs).suffer_damage,
        final(ecs).run_state == old(ecs).run_state,
        final(ecs).log == old(ecs).log,
        final(ecs).player_entity == old(ecs).player_entity,
        final(ecs).player_dead == old(ecs).player_dead,
        final(ecs).map == old(ecs).map,
        acted == move_acts(*old(ecs), delta_x as int, delta_y as int),
        forall|j: int| #![trigger final(ecs).wants_melee[j]]
            0 <= j < old(ecs).n() ==> final(ecs).wants_melee[j] == if j == old(
                ecs,
            ).player_entity && move_in_bounds(*old(ecs), delta_x as int, delta_y as int)
                && move_target(*old(ecs), delta_x as int, delta_y as int) is Some {
                Some(
                    WantsToMelee {
                        target: move_target(
                            *old(ecs),
                            delta_x as int,
                            delta_y as int,
                        )->Some_0,
                    },
                )
            } else {
                old(ecs).wants_melee[j]
            },
        forall|j: int| #![trigger final(ecs).positions[j]]
            0 <= j < old(ecs).n() ==> final(ecs).positions[j] == if j == old(
                ecs,
            ).player_entity && move_steps(*old(ecs), delta_x as int, delta_y as int) {
                Some(
                    Position {
                        x: move_dest_x(*old(ecs), delta_x as int) as i32,
                        y: move_dest_y(*old(ecs), delta_y as int) as i32,
                    },
                )
            } else {
                old(ecs).positions[j]
            },
        final(ecs).player_pos == final(ecs).positions[old(ecs).player_entity as int]->Some_0,
        !acted ==> *final(ecs) == *old(ecs),
{
    let ghost w0 = *ecs;
    proof {
        assert(ecs.entity_wf(ecs.player_entity as int));
    }
    let (px, py): (i32, i32) = match &ecs.positions[ecs.player_entity] {
        Some(p) => (p.x, p.y),
        None => (0, 0),
    };
    let nx: i32 = px + delta_x;
    let ny: i32 = py + delta_y;
    if !ecs.map.in_bounds(nx, ny) {
        return false;
    }
    let dest_idx = ecs.map.xy_idx(nx, ny);
    // look for a combatant on the destination tile
    let mut found: Option<usize> = None;
    let content_len = ecs.map.tile_content[dest_idx].len();
    let mut k: usize = 0;
    while k < content_len
        invariant_except_break
            found is None,
        invariant
            ecs.wf(),
            *ecs == w0,
            dest_idx < ecs.map.tile_content.len(),
            content_len == ecs.map.tile_content[dest_idx as int].len(),
            k <= content_len,
            forall|j: int|
                0 <= j < k ==> !is_target(w0, ecs.map.tile_content[dest_idx as int]@[j]),
        ensures
            *ecs == w0,
            dest_idx < ecs.map.tile_content.len(),
            content_len == ecs.map.tile_content[dest_idx as int].len(),
            (match found {
                Some(t) => is_target(w0, t) && first_target(
                    w0,
                    ecs.map.tile_content[dest_idx as int]@,
                ) == Some(t),
                None => forall|j: int|
                    0 <= j < content_len ==> !is_target(
                        w0,
                        ecs.map.tile_content[dest_idx as int]@[j],
                    ),
            }),
        decreases content_len - k,
    {
        let pot: usize = ecs.map.tile_content[dest_idx][k];
        if ecs.alive[pot] && ecs.combat_stats[pot].is_some() && pot != ecs.player_entity {
            found = Some(pot);
            proof {
                assert(is_target(w0, pot));
                lemma_first_target_skip(w0, w0.map.tile_content[dest_idx as int]@, k as int);
                assert(w0.map.tile_content[dest_idx as int]@.skip(k as int)[0] == pot);
                assert(first_target(w0, w0.map.tile_content[dest_idx as int]@.skip(k as int))
                    == Some(pot));
            }
            break ;
        }
        k += 1;
    }
    proof {
        if found is None {
            lemma_first_target_skip(w0, w0.map.tile_content[dest_idx as int]@, content_len as int);
        }
    }
    match found {
        Some(target) => {
            let pe = ecs.player_entity;
            ecs.wants_melee.set(pe, Some(WantsToMelee { target }));
            proof {
                assert(is_target(w0, target));
                assert forall|j: int| 0 <= j < ecs.n() implies ecs.entity_wf(j) by {
                    assert(w0.entity_wf(j));
                }
            }
            true
        },
        None => {
            if !ecs.map.blocked[dest_idx] {
                let pe = ecs.player_entity;
                ecs.positions.set(pe, Some(Position { x: nx, y: ny }));
                ecs.player_pos = Position { x: nx, y: ny };
                proof {
                    assert forall|j: int| 0 <= j < ecs.n() implies ecs.entity_wf(j) by {
                        assert(w0.entity_wf(j));
                    }
                }
                true
            } else {
                false
            }
        },
    }
}

/// The run state an action leads to from `AwaitingInput`: an action that
/// does something starts the player's turn; anything else waits for more
/// input.
pub open spec fn input_result(w: World, action: Action) -> RunState {
    match action {
        Action::NoInput => RunState::AwaitingInput,
        Action::Wait => RunState::PlayerTurn,
        Action::Move { dx, dy } => if valid_delta(dx as int, dy as int) && move_acts(
            w,
            dx as int,
            dy as int,
        ) {
            RunState::PlayerTurn
        } else {
            RunState::AwaitingInput
        },
    }
}

/// The position component entity `j` holds after the action is handled.
pub open spec fn positions_after(w: World, action: Action, j: int) -> Option<Position> {
    if action is Move && valid_delta(action->Move_dx as int, action->Move_dy as int) && j
        == w.player_entity && move_steps(w, action->Move_dx as int, action->Move_dy as int) {
        Some(
            Position {
                x: move_dest_x(w, action->Move_dx as int) as i32,
                y: move_dest_y(w, action->Move_dy as int) as i32,
            },
        )
    } else {
        w.positions[j]
    }
}

/// The attack intent entity `j` holds after the action is handled.
pub open spec fn wants_after(w: World, action: Action, j: int) -> Option<WantsToMelee> {
    if action is Move && valid_delta(action->Move_dx as int, action->Move_dy as int) && j
        == w.player_entity && move_in_bounds(w, action->Move_dx as int, action->Move_dy as int)
        && move_target(w, action->Move_dx as int, action->Move_dy as int) is Some {
        Some(
            WantsToMelee {
                target: move_target(
                    w,
                    action->Move_dx as int,
                    action->Move_dy as int,
                )->Some_0,
            },
        )
    } else {
        w.wants_melee[j]
    }
}

/// Handle one input action while awaiting input: a valid move is applied
/// through `try_move_player`; the returned state says whether a turn was
/// consumed. The world is otherwise untouched.
pub fn player_input(gs: &mut State, action: Action) -> (rs: RunState)
    requires
        old(gs).ecs.wf(),
    ensures
        final(gs).ecs.wf(),
        rs == input_result(old(gs).ecs, action),
        final(gs).ecs.n() == old(gs).ecs.n(),
        final(gs).ecs.alive == old(gs).ecs.alive,
        final(gs).ecs.renderables == old(gs).ecs.renderables,
        final(gs).ecs.player == old(gs).ecs.player,
        final(gs).ecs.monster == old(gs).ecs.monster,
        final(gs).ecs.names == old(gs).ecs.names,
        final(gs).ecs.fovs == old(gs).ecs.fovs,
        final(gs).ecs.blocks_tile == old(gs).ecs.blocks_tile,
        final(gs).ecs.combat_stats == old(gs).ecs.combat_stats,
        final(gs).ecs.suffer_damage == old(gs).ecs.suffer_damage,
        final(gs).ecs.run_state == old(gs).ecs.run_state,
        final(gs).ecs.log == old(gs).ecs.log,
        final(gs).ecs.player_entity == old(gs).ecs.player_entity,
        final(gs).ecs.player_dead == old(gs).ecs.player_dead,
        final(gs).ecs.map == old(gs).ecs.map,
        forall|j: int| #![trigger final(gs).ecs.positions[j]]
            0 <= j < old(gs).ecs.n() ==> final(gs).ecs.positions[j] == positions_after(
                old(gs).ecs,
                action,
                j,
            ),
        forall|j: int| #![trigger final(gs).ecs.wants_melee[j]]
            0 <= j < old(gs).ecs.n() ==> final(gs).ecs.wants_melee[j] == wants_after(
                old(gs).ecs,
                action,
                j,
            ),
        action is NoInput || action is Wait ==> final(gs).ecs == old(gs).ecs,
        // no turn consumed means nothing happened
        rs is AwaitingInput ==> final(gs).ecs == old(gs).ecs,
{
    match action {
        Action::NoInput => RunState::AwaitingInput,
        Action::Wait => RunState::PlayerTurn,
        Action::Move { dx, dy } => {
            let valid = -1 <= dx && dx <= 1 && -1 <= dy && dy <= 1 && !(dx == 0 && dy == 0);
            if valid {
                let acted = try_move_player(dx, dy, &mut gs.ecs);
                if acted {
                    RunState::PlayerTurn
                } else {
                    RunState::AwaitingInput
                }
            } else {
                RunState::AwaitingInput
            }
        },
    }
}

} // verus!
