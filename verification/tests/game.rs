use vortex::components::{CombatStats, Position};
use vortex::damage_system;
use vortex::gamelog::LogEntry;
use vortex::map::{GameMap, TileType};
use vortex::map_indexing_system;
use vortex::monster_ai_system;
use vortex::player::Action;
use vortex::rect::Rect;
use vortex::spawner;
use vortex::visibility_system;
use vortex::world::World;
use vortex::{RunState, State};

fn open_map(width: i32, height: i32) -> GameMap {
    let mut m = GameMap::new(width, height);
    let room = Rect {
        x1: 0,
        y1: 0,
        x2: width - 2,
        y2: height - 2,
    };
    m.apply_room_to_map(&room);
    m
}

fn small_state() -> State {
    let m = open_map(12, 12);
    State {
        ecs: World::new(m, 5, 5),
    }
}

#[test]
fn xy_idx_formula() {
    let m = GameMap::new(12, 12);
    assert_eq!(m.xy_idx(3, 2), 2 * 12 + 3);
    assert_eq!(m.xy_idx(0, 0), 0);
    assert_eq!(m.xy_idx(11, 11), 143);
}

#[test]
fn new_map_is_all_walls_and_unexplored() {
    let m = GameMap::new(5, 4);
    assert_eq!(m.tiles.len(), 20);
    assert!(m.tiles.iter().all(|t| *t == TileType::Wall));
    assert!(m.revealed_tiles.iter().all(|r| !r));
    assert!(m.visible_tiles.iter().all(|v| !v));
}

#[test]
fn carved_room_interior_is_floor_edges_stay_wall() {
    let mut m = GameMap::new(10, 10);
    let room = Rect {
        x1: 2,
        y1: 2,
        x2: 6,
        y2: 6,
    };
    m.apply_room_to_map(&room);
    // interior
    let i = m.xy_idx(3, 3);
    assert_eq!(m.tiles[i], TileType::Floor);
    let i = m.xy_idx(6, 6);
    assert_eq!(m.tiles[i], TileType::Floor);
    // the x1/y1 edge stays wall
    let i = m.xy_idx(2, 3);
    assert_eq!(m.tiles[i], TileType::Wall);
    let i = m.xy_idx(3, 2);
    assert_eq!(m.tiles[i], TileType::Wall);
}

#[test]
fn builder_keeps_disjoint_rooms_and_carves_them() {
    let candidates = vec![
        Rect { x1: 1, y1: 1, x2: 5, y2: 5 },
        // overlaps the first: dropped
        Rect { x1: 4, y1: 4, x2: 8, y2: 8 },
        Rect { x1: 10, y1: 10, x2: 14, y2: 14 },
        // off the border: dropped
        Rect { x1: 14, y1: 14, x2: 19, y2: 19 },
    ];
    let m = GameMap::new_map_rooms_and_corridors(20, 20, &candidates);
    assert_eq!(m.rooms.len(), 2);
    assert_eq!(m.rooms[0], candidates[0]);
    assert_eq!(m.rooms[1], candidates[2]);
    let i = m.xy_idx(2, 2);
    assert_eq!(m.tiles[i], TileType::Floor);
    let i = m.xy_idx(11, 11);
    assert_eq!(m.tiles[i], TileType::Floor);
    // corridor joins the two room centers
    let (cx, cy) = m.rooms[0].center();
    let (cx2, _) = m.rooms[1].center();
    let i = m.xy_idx((cx + cx2) / 2, cy);
    assert_eq!(m.tiles[i], TileType::Floor);
}

#[test]
fn fov_sees_adjacent_but_not_through_walls() {
    let mut m = open_map(12, 12);
    // wall off the tile east of the player
    let wall_idx = m.xy_idx(6, 5);
    m.tiles[wall_idx] = TileType::Wall;
    let vis = visibility_system::compute_fov(&m, 5, 5, 8);
    // the wall itself is visible, what lies behind it is not
    assert!(vis[m.xy_idx(6, 5)]);
    assert!(!vis[m.xy_idx(7, 5)]);
    assert!(!vis[m.xy_idx(8, 5)]);
    // open directions are visible
    assert!(vis[m.xy_idx(4, 5)]);
    assert!(vis[m.xy_idx(5, 4)]);
    assert!(vis[m.xy_idx(5, 5)]);
}

#[test]
fn fov_respects_radius() {
    let m = open_map(30, 30);
    let vis = visibility_system::compute_fov(&m, 2, 2, 8);
    assert!(vis[m.xy_idx(10, 2)]);
    assert!(!vis[m.xy_idx(11, 2)]);
}

#[test]
fn revealed_tiles_are_monotonic_across_ticks() {
    let mut gs = small_state();
    gs.ecs.log.entries.push(LogEntry::Message {
        text: "Welcome to vortex!".to_string(),
    });
    gs.tick(Action::NoInput); // PreRun primes visibility
    let before: Vec<bool> = gs.ecs.map.revealed_tiles.clone();
    assert!(before.iter().any(|r| *r));
    gs.tick(Action::Move { dx: 1, dy: 0 });
    gs.tick(Action::NoInput); // PlayerTurn
    gs.tick(Action::NoInput); // MonsterTurn
    for i in 0..before.len() {
        if before[i] {
            assert!(gs.ecs.map.revealed_tiles[i], "tile {} lost its revealed flag", i);
        }
    }
}

#[test]
fn indexing_records_blockers_on_their_tiles() {
    let mut gs = small_state();
    let mon = spawner::monster(&mut gs.ecs, 8, 8, 'g', "Goblin");
    map_indexing_system::run_map_indexing(&mut gs.ecs);
    let mi = gs.ecs.map.xy_idx(8, 8);
    let pi = gs.ecs.map.xy_idx(5, 5);
    assert!(gs.ecs.map.tile_content[mi].contains(&mon));
    assert!(gs.ecs.map.tile_content[pi].contains(&gs.ecs.player_entity));
    assert!(gs.ecs.map.blocked[mi]);
    assert!(gs.ecs.map.blocked[pi]);
    // after a move, the index no longer lists the old tile
    gs.ecs.positions[mon] = Some(Position { x: 9, y: 8 });
    map_indexing_system::run_map_indexing(&mut gs.ecs);
    assert!(!gs.ecs.map.tile_content[mi].contains(&mon));
    assert!(!gs.ecs.map.blocked[mi]);
    let mi2 = gs.ecs.map.xy_idx(9, 8);
    assert!(gs.ecs.map.tile_content[mi2].contains(&mon));
}

#[test]
fn scenario_move_onto_empty_floor() {
    let mut gs = small_state();
    gs.tick(Action::NoInput); // PreRun
    assert_eq!(gs.ecs.run_state, RunState::AwaitingInput);
    gs.tick(Action::Move { dx: 1, dy: 0 });
    assert_eq!(
        gs.ecs.positions[gs.ecs.player_entity],
        Some(Position { x: 6, y: 5 })
    );
    assert!(gs.ecs.wants_melee[gs.ecs.player_entity].is_none());
    assert_eq!(gs.ecs.run_state, RunState::PlayerTurn);
}

#[test]
fn scenario_move_onto_blocking_monster_becomes_attack() {
    let mut gs = small_state();
    let mon = spawner::monster(&mut gs.ecs, 6, 5, 'g', "Goblin");
    gs.ecs.combat_stats[mon] = Some(CombatStats {
        max_hp: 16,
        hp: 16,
        defense: 2,
        power: 4,
    });
    gs.tick(Action::NoInput); // PreRun: index the monster's tile
    let log_len = gs.ecs.log.entries.len();
    gs.tick(Action::Move { dx: 1, dy: 0 });
    // no movement; an intent against the monster instead
    assert_eq!(
        gs.ecs.positions[gs.ecs.player_entity],
        Some(Position { x: 5, y: 5 })
    );
    assert_eq!(gs.ecs.run_state, RunState::PlayerTurn);
    let intent = gs.ecs.wants_melee[gs.ecs.player_entity];
    assert!(intent.is_some());
    assert_eq!(intent.unwrap().target, mon);
    // the pipeline resolves it: damage = max(0, 5 - 2) = 3
    gs.tick(Action::NoInput); // PlayerTurn pass
    let stats = gs.ecs.combat_stats[mon].unwrap();
    assert_eq!(stats.hp, 16 - 3);
    assert!(gs.ecs.log.entries.len() > log_len);
    let hit = gs.ecs.log.entries.iter().any(|entry| match entry {
        LogEntry::Attack {
            attacker,
            target,
            amount,
        } => attacker.as_str() == "Player" && target.as_str() == "Goblin" && *amount == 3,
        _ => false,
    });
    assert!(hit, "expected a log entry for the player's hit");
}

#[test]
fn scenario_monster_in_range_attacks_out_of_range_idles() {
    let m = open_map(30, 30);
    let mut ecs = World::new(m, 5, 5);
    let near = spawner::monster(&mut ecs, 6, 5, 'g', "Goblin");
    let far = spawner::monster(&mut ecs, 25, 25, 'o', "Orc");
    visibility_system::run_visibility(&mut ecs);
    map_indexing_system::run_map_indexing(&mut ecs);
    monster_ai_system::run_monster_ai(&mut ecs);
    let near_intent = ecs.wants_melee[near];
    assert!(near_intent.is_some());
    assert_eq!(near_intent.unwrap().target, ecs.player_entity);
    assert!(ecs.wants_melee[far].is_none());
}

#[test]
fn monster_in_sight_but_not_adjacent_idles() {
    let m = open_map(30, 30);
    let mut ecs = World::new(m, 5, 5);
    let watcher = spawner::monster(&mut ecs, 9, 5, 'o', "Orc");
    visibility_system::run_visibility(&mut ecs);
    map_indexing_system::run_map_indexing(&mut ecs);
    monster_ai_system::run_monster_ai(&mut ecs);
    // it sees the player (distance 4 < radius 8) but cannot reach
    assert!(ecs.wants_melee[watcher].is_none());
}

#[test]
fn zero_damage_hit_is_still_logged() {
    let mut gs = small_state();
    let mon = spawner::monster(&mut gs.ecs, 6, 5, 'g', "Goblin");
    // defense 10 >= player power 5: damage is exactly 0
    gs.ecs.combat_stats[mon] = Some(CombatStats {
        max_hp: 16,
        hp: 16,
        defense: 10,
        power: 0,
    });
    gs.tick(Action::NoInput); // PreRun
    gs.tick(Action::Move { dx: 1, dy: 0 });
    let log_len = gs.ecs.log.entries.len();
    gs.tick(Action::NoInput); // PlayerTurn resolves the attack
    assert_eq!(gs.ecs.combat_stats[mon].unwrap().hp, 16);
    let logged_zero = gs.ecs.log.entries[log_len..].iter().any(|entry| match entry {
        LogEntry::Attack { amount, .. } => *amount == 0,
        _ => false,
    });
    assert!(logged_zero, "a zero-damage hit must still be logged");
}

#[test]
fn damage_accumulates_from_two_attackers_and_drains() {
    let mut gs = small_state();
    let m1 = spawner::monster(&mut gs.ecs, 6, 5, 'g', "Goblin");
    let m2 = spawner::monster(&mut gs.ecs, 4, 5, 'o', "Orc");
    gs.tick(Action::NoInput); // PreRun
    assert_eq!(gs.ecs.run_state, RunState::AwaitingInput);
    let hp_before = gs.ecs.combat_stats[gs.ecs.player_entity].unwrap().hp;
    gs.ecs.run_state = RunState::MonsterTurn;
    gs.tick(Action::NoInput);
    // both monsters hit: 2 * max(0, 4 - 2) = 4, applied exactly once
    let hp_after = gs.ecs.combat_stats[gs.ecs.player_entity].unwrap().hp;
    assert_eq!(hp_after, hp_before - 4);
    // the accumulator is gone after the apply step
    assert!(gs.ecs.suffer_damage[gs.ecs.player_entity].is_none());
    assert!(gs.ecs.alive[m1] && gs.ecs.alive[m2]);
}

#[test]
fn dead_monster_is_swept_from_the_world() {
    let mut gs = small_state();
    let mon = spawner::monster(&mut gs.ecs, 6, 5, 'g', "Goblin");
    gs.ecs.combat_stats[mon] = Some(CombatStats {
        max_hp: 16,
        hp: 2,
        defense: 0,
        power: 0,
    });
    gs.tick(Action::NoInput); // PreRun
    gs.tick(Action::Move { dx: 1, dy: 0 }); // attack intent
    gs.tick(Action::NoInput); // PlayerTurn: 5 damage, hp 2 -> -3, swept
    assert!(!gs.ecs.alive[mon]);
    assert!(gs.ecs.positions[mon].is_none());
    assert!(gs.ecs.combat_stats[mon].is_none());
    assert!(!gs.ecs.monster[mon]);
}

#[test]
fn scenario_player_death_is_raised_not_removed() {
    let mut gs = small_state();
    let _mon = spawner::monster(&mut gs.ecs, 6, 5, 'g', "Goblin");
    let pe = gs.ecs.player_entity;
    gs.ecs.combat_stats[pe] = Some(CombatStats {
        max_hp: 30,
        hp: 1,
        defense: 2,
        power: 5,
    });
    gs.tick(Action::NoInput); // PreRun
    gs.ecs.run_state = RunState::MonsterTurn;
    let died = gs.tick(Action::NoInput); // monster hits for 2: hp 1 -> -1
    assert!(died);
    assert!(gs.ecs.alive[pe], "a dead player stays in the world");
    assert!(gs.ecs.player_dead);
    assert!(gs.ecs.combat_stats[pe].unwrap().hp <= 0);
}

#[test]
fn move_into_wall_is_ignored_and_consumes_no_turn() {
    let mut gs = small_state();
    gs.tick(Action::NoInput); // PreRun
    // (5,5) ... the border wall is at x = 11; walk to x = 10 first
    for _ in 0..5 {
        gs.tick(Action::Move { dx: 1, dy: 0 });
        gs.tick(Action::NoInput); // PlayerTurn
        gs.tick(Action::NoInput); // MonsterTurn
    }
    assert_eq!(
        gs.ecs.positions[gs.ecs.player_entity],
        Some(Position { x: 10, y: 5 })
    );
    gs.tick(Action::Move { dx: 1, dy: 0 });
    assert_eq!(
        gs.ecs.positions[gs.ecs.player_entity],
        Some(Position { x: 10, y: 5 })
    );
    assert_eq!(gs.ecs.run_state, RunState::AwaitingInput);
}

#[test]
fn wait_consumes_a_turn_without_moving() {
    let mut gs = small_state();
    gs.tick(Action::NoInput); // PreRun
    gs.tick(Action::Wait);
    assert_eq!(gs.ecs.run_state, RunState::PlayerTurn);
    assert_eq!(
        gs.ecs.positions[gs.ecs.player_entity],
        Some(Position { x: 5, y: 5 })
    );
}

#[test]
fn run_state_cycles_through_the_turn_machine() {
    let mut gs = small_state();
    assert_eq!(gs.ecs.run_state, RunState::PreRun);
    gs.tick(Action::NoInput);
    assert_eq!(gs.ecs.run_state, RunState::AwaitingInput);
    gs.tick(Action::NoInput);
    assert_eq!(gs.ecs.run_state, RunState::AwaitingInput);
    gs.tick(Action::Wait);
    assert_eq!(gs.ecs.run_state, RunState::PlayerTurn);
    gs.tick(Action::NoInput);
    assert_eq!(gs.ecs.run_state, RunState::MonsterTurn);
    gs.tick(Action::NoInput);
    assert_eq!(gs.ecs.run_state, RunState::AwaitingInput);
}

#[test]
fn intents_never_persist_past_the_pass() {
    let mut gs = small_state();
    let _mon = spawner::monster(&mut gs.ecs, 6, 5, 'g', "Goblin");
    gs.tick(Action::NoInput); // PreRun
    gs.tick(Action::Move { dx: 1, dy: 0 }); // attack intent attached
    assert!(gs.ecs.wants_melee[gs.ecs.player_entity].is_some());
    gs.tick(Action::NoInput); // PlayerTurn pass consumes it
    for e in 0..gs.ecs.alive.len() {
        assert!(gs.ecs.wants_melee[e].is_none());
        assert!(gs.ecs.suffer_damage[e].is_none());
    }
}

#[test]
fn spawner_rolls_orc_or_goblin() {
    let m = open_map(12, 12);
    let mut ecs = World::new(m, 5, 5);
    let orc = spawner::random_monster(&mut ecs, 3, 3, 1);
    let goblin = spawner::random_monster(&mut ecs, 7, 7, 2);
    assert_eq!(ecs.names[orc].as_ref().unwrap().name, "Orc");
    assert_eq!(ecs.renderables[orc].as_ref().unwrap().glyph, 'o');
    assert_eq!(ecs.names[goblin].as_ref().unwrap().name, "Goblin");
    assert_eq!(ecs.renderables[goblin].as_ref().unwrap().glyph, 'g');
    let stats = ecs.combat_stats[orc].unwrap();
    assert_eq!(
        (stats.max_hp, stats.hp, stats.defense, stats.power),
        (16, 16, 1, 4)
    );
}

#[test]
fn rect_center_and_intersection() {
    let a = Rect::new(1, 1, 4, 4);
    assert_eq!(a, Rect { x1: 1, y1: 1, x2: 5, y2: 5 });
    assert_eq!(a.center(), (3, 3));
    let b = Rect::new(4, 4, 4, 4);
    let c = Rect::new(6, 6, 2, 2);
    assert!(a.intersect(&b));
    assert!(!a.intersect(&c));
}

#[test]
fn damage_apply_drains_accumulator_exactly_once() {
    let m = open_map(12, 12);
    let mut ecs = World::new(m, 5, 5);
    let mon = spawner::monster(&mut ecs, 8, 8, 'g', "Goblin");
    ecs.suffer_damage[mon] = Some(vortex::components::SufferDamage {
        amount: vec![3, 4, 0],
    });
    damage_system::run_damage(&mut ecs);
    assert_eq!(ecs.combat_stats[mon].unwrap().hp, 16 - 7);
    assert!(ecs.suffer_damage[mon].is_none());
    // a second run changes nothing
    damage_system::run_damage(&mut ecs);
    assert_eq!(ecs.combat_stats[mon].unwrap().hp, 16 - 7);
}

#[test]
fn sweep_reports_player_death_without_removal() {
    let m = open_map(12, 12);
    let mut ecs = World::new(m, 5, 5);
    let pe = ecs.player_entity;
    ecs.combat_stats[pe] = Some(CombatStats {
        max_hp: 30,
        hp: 0,
        defense: 2,
        power: 5,
    });
    let died = damage_system::delete_the_dead(&mut ecs);
    assert!(died);
    assert!(ecs.alive[pe]);
    assert!(ecs.player_dead);
}

#[test]
fn monsters_reveal_tiles_but_only_the_player_sets_visible() {
    let m = open_map(30, 30);
    let mut ecs = World::new(m, 5, 5);
    let _far = spawner::monster(&mut ecs, 20, 20, 'o', "Orc");
    visibility_system::run_visibility(&mut ecs);
    let near_monster = ecs.map.xy_idx(21, 20);
    let near_player = ecs.map.xy_idx(6, 5);
    // the monster's sight reveals its surroundings
    assert!(ecs.map.revealed_tiles[near_monster]);
    assert!(ecs.map.revealed_tiles[near_player]);
    // but the global visible set is the player's alone
    assert!(!ecs.map.visible_tiles[near_monster]);
    assert!(ecs.map.visible_tiles[near_player]);
}

#[test]
fn log_entries_come_in_attacker_order() {
    let mut gs = small_state();
    let first = spawner::monster(&mut gs.ecs, 6, 5, 'g', "Goblin");
    let second = spawner::monster(&mut gs.ecs, 4, 5, 'o', "Orc");
    assert!(first < second);
    gs.tick(Action::NoInput); // PreRun: both already attack once
    let log_len = gs.ecs.log.entries.len();
    gs.ecs.run_state = RunState::MonsterTurn;
    gs.tick(Action::NoInput);
    let tail: Vec<&LogEntry> = gs.ecs.log.entries[log_len..].iter().collect();
    assert_eq!(tail.len(), 2);
    match (tail[0], tail[1]) {
        (
            LogEntry::Attack { attacker: a1, .. },
            LogEntry::Attack { attacker: a2, .. },
        ) => {
            assert_eq!(a1.as_str(), "Goblin");
            assert_eq!(a2.as_str(), "Orc");
        }
        _ => panic!("expected two attack entries"),
    }
}
