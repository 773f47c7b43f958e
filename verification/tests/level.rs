use mikumikutower::game::{GameContext, MouseContext};
use mikumikutower::grid_layout::GridLayout;
use mikumikutower::scene::level::{
    cell_key, turret_range_iter, Enemy, EnemySpawner, Health, Interpolate, LevelScene, PlayerAction, Projectile,
    TopBar, Tower,
};
use mikumikutower::{ReadyState, Rect};

struct Lerp;

impl Interpolate for Lerp {
    fn interpolate(&self, z0: isize, z1: isize, ticks_waited: u32, wait_for: u32) -> isize {
        let alpha = ticks_waited as f32 / wait_for as f32;
        (z0 as f32 - z0 as f32 * alpha + z1 as f32 * alpha) as isize
    }
}

fn level_layout() -> GridLayout {
    GridLayout { area: Rect::new(0, 0, 1280, 720), rows: 18, columns: 32, cell_gap: 0 }
}

#[test]
fn health_damage_stops_at_zero() {
    let mut h = Health::default();
    assert_eq!(h, Health { current: 10, max: 10 });
    h.damage(3);
    assert_eq!(h.current, 7);
    h.damage(200);
    assert_eq!(h.current, 0);
    assert_eq!(h.max, 10);
}

#[test]
fn the_path_runs_down_column_27_then_along_row_16() {
    let path = LevelScene::initial_path();
    assert_eq!(path.len(), 40);
    assert_eq!(path[0], Rect::new(27, 0, 40, 40));
    assert_eq!(path[15], Rect::new(27, 15, 40, 40));
    assert_eq!(path[16], Rect::new(27, 16, 40, 40));
    assert_eq!(path[17], Rect::new(26, 16, 40, 40));
    assert_eq!(path[39], Rect::new(4, 16, 40, 40));
}

#[test]
fn enemies_walk_one_tile_per_cooldown_and_attack_at_the_end() {
    let path = LevelScene::initial_path();
    let mut e = Enemy::teto(Rect::new(27, 9, 32, 32));
    e.walk(&path);
    assert_eq!(e.path_index, 1);
    assert_eq!((e.position.x, e.position.y), (27, 1));
    assert_eq!(e.ready_state, ReadyState::Cooldown { wait_for: 120, ticks_waited: 0 });
    e.walk(&path);
    assert_eq!(e.path_index, 1);
    assert_eq!(e.attack(&path), None);
    e.update(120);
    assert_eq!(e.ready_state, ReadyState::Ready);
    let mut last = Enemy { path_index: 39, ..e };
    last.walk(&path);
    assert_eq!(last.path_index, 39);
    assert_eq!(last.attack(&path), Some(1));
    assert_eq!(last.ready_state, ReadyState::Cooldown { wait_for: 120, ticks_waited: 0 });
    assert_eq!(last.attack(&path), None);
}

#[test]
fn spawner_sends_one_enemy_per_cooldown() {
    let mut s = EnemySpawner::new(10, 120);
    s.update(119);
    assert_eq!(s.spawn(), None);
    s.update(1);
    let e = s.spawn().unwrap();
    assert_eq!(e.position, Rect::new(27, 9, 40, 40));
    assert_eq!(s.spawned, 1);
    s.cooldown();
    assert_eq!(s.ready_state, ReadyState::Cooldown { wait_for: 120, ticks_waited: 0 });
    assert_eq!(s.spawn(), None);
}

#[test]
fn spawner_stops_at_the_rounds_count_and_the_next_round_is_harder() {
    let mut s = EnemySpawner { ready_state: ReadyState::Ready, spawned: 10, ..EnemySpawner::new(10, 120) };
    assert_eq!(s.spawn(), None);
    s.start_next_round();
    assert_eq!(s.round, 1);
    assert_eq!(s.spawned, 0);
    assert_eq!(s.enemies_per_round, 13);
    assert_eq!(s.spawn_in_ticks, 115);
    assert_eq!(s.ready_state, ReadyState::Cooldown { wait_for: 115, ticks_waited: 0 });
    let mut waiting = s;
    waiting.start_next_round();
    assert_eq!(waiting, s);
    let mut fast = EnemySpawner { ready_state: ReadyState::Ready, spawn_in_ticks: 12, ..s };
    fast.start_next_round();
    assert_eq!(fast.spawn_in_ticks, 10);
}

#[test]
fn towers_cool_down_after_a_shot() {
    let mut t = Tower::miku(Rect::new(3, 4, 32, 32));
    assert!(t.can_shoot());
    assert_eq!((t.cost, t.damage, t.cooldown, t.range), (20, 5, 30, 5));
    t.cooldown();
    assert!(!t.can_shoot());
    t.update(29);
    assert!(!t.can_shoot());
    t.update(1);
    assert!(t.can_shoot());
    assert_eq!((Tower::rin(t.position).cost, Tower::luka(t.position).cost, Tower::basic(t.position).cost), (15, 30, 10));
}

#[test]
fn projectiles_fly_to_their_target() {
    let layout = level_layout();
    let mut p = Projectile::new((0, 0), (100, 40), 3, 10, &layout);
    assert_eq!(p.position, Rect::new(0, 0, 40, 40));
    assert!(!p.has_arrived());
    p.update(5, &Lerp);
    assert_eq!((p.position.x, p.position.y), (50, 20));
    p.update(5, &Lerp);
    assert!(p.has_arrived());
    assert_eq!((p.position.x, p.position.y), (100, 40));
    let t = Tower::basic(Rect::new(2, 2, 32, 32));
    let shot = t.projectile(&layout, (7, 9));
    assert_eq!(shot.start, (0, 0));
    assert_eq!(shot.end, (7, 9));
    assert_eq!(shot.hit_when_ready, ReadyState::Cooldown { wait_for: 12, ticks_waited: 0 });
}

#[test]
fn top_bar_buys_and_refunds() {
    let mut bar = TopBar::default();
    assert_eq!(bar.money, 50);
    let miku = bar.miku_tower;
    bar.buy_tower(&miku);
    assert_eq!(bar.money, 30);
    let pricey = Tower { cost: 40, ..miku };
    bar.buy_tower(&pricey);
    assert_eq!(bar.money, 30);
    bar.refund_tower(&miku);
    assert_eq!(bar.money, 50);
    let mut rich = TopBar { money: u32::MAX - 1, ..bar };
    rich.refund_tower(&miku);
    assert_eq!(rich.money, u32::MAX);
}

#[test]
fn top_bar_click_puts_a_tower_in_hand_and_right_click_puts_it_back() {
    let layout = level_layout();
    let mut bar = TopBar::default();
    let mut ctx = GameContext::default();
    ctx.mouse_context = MouseContext { left_clicked: true, right_clicked: false, position: Some((10, 10)) };
    bar.update(1, &mut ctx, &layout);
    assert!(matches!(bar.current_action, Some(PlayerAction::PlaceTower(t)) if t.cost == 20));
    assert_eq!(bar.money, 30);
    assert!(!ctx.mouse_context.left_clicked);
    ctx.mouse_context = MouseContext { left_clicked: false, right_clicked: true, position: Some((10, 10)) };
    bar.update(1, &mut ctx, &layout);
    assert_eq!(bar.current_action, None);
    assert_eq!(bar.money, 50);
    assert!(!ctx.mouse_context.right_clicked);
}

#[test]
fn turret_range_is_a_diamond() {
    assert_eq!(turret_range_iter(1, 1, 1, 18, 32), vec![(0, 1), (1, 0), (1, 1), (1, 2), (2, 1)]);
    assert_eq!(turret_range_iter(0, 0, 1, 18, 32), vec![(0, 0), (0, 1), (1, 0)]);
    assert_eq!(turret_range_iter(4, 4, 0, 18, 32), vec![(4, 4)]);
    assert_eq!(turret_range_iter(3, 3, 2, 18, 32).len(), 13);
}

#[test]
fn cell_keys_pack_row_and_column() {
    assert_eq!(cell_key(2, 3), (2u128 << 64) + 3);
    assert_ne!(cell_key(1, 0), cell_key(0, 1));
}

#[test]
fn a_fresh_level() {
    let level = LevelScene::default();
    assert_eq!(level.base.health, Health { current: 10, max: 10 });
    assert_eq!(level.base.position, Rect::new(3, 16, 32, 32));
    assert_eq!(level.enemies.len(), 1);
    assert_eq!(level.towers.len(), 0);
    assert_eq!(level.top_bar.money, 50);
    assert!(level.can_update(1));
}

#[test]
fn placed_towers_are_listed_under_the_cells_they_reach() {
    let mut level = LevelScene::default();
    level.add_tower(Tower::basic(Rect::new(27, 3, 32, 32)));
    level.add_tower(Tower::basic(Rect::new(10, 10, 32, 32)));
    assert_eq!(level.cell_to_turrets.get(&cell_key(1, 27)), Some(&vec![0]));
    assert_eq!(level.cell_to_turrets.get(&cell_key(10, 12)), Some(&vec![1]));
    assert_eq!(level.cell_to_turrets.get(&cell_key(7, 20)), None);
    assert_eq!(level.cell_to_turrets.len(), 57 + 61);
}

#[test]
fn a_ready_tower_next_to_a_stepping_enemy_cannot_fire_safely() {
    let mut level = LevelScene::default();
    level.add_tower(Tower::basic(Rect::new(27, 3, 32, 32)));
    assert!(!level.can_update(1));
    let mut cooling = Tower::basic(Rect::new(27, 3, 32, 32));
    cooling.cooldown();
    let mut other = LevelScene::default();
    other.add_tower(cooling);
    assert!(other.can_update(1));
    assert!(!other.can_update(30));
}

#[test]
fn a_level_tick_without_shots() {
    let mut level = LevelScene::default();
    let mut ctx = GameContext::default();
    assert!(level.can_update(1));
    level.update(1, &mut ctx, &Lerp);
    assert_eq!(level.enemies.len(), 1);
    assert_eq!((level.enemies[0].position.x, level.enemies[0].position.y), (27, 1));
    assert_eq!(level.base.health.current, 10);
    assert_eq!(level.enemy_spawner.ready_state, ReadyState::Cooldown { wait_for: 120, ticks_waited: 1 });
    assert_eq!(level.top_bar.money, 50);
}

#[test]
fn a_level_draws_when_there_is_a_renderer() {
    let mut level = LevelScene::default();
    let mut ctx = GameContext::default();
    level.draw(&mut ctx);
    assert!(ctx.renderer.is_none());
    ctx.renderer = Some(mikumikutower::renderer::RenderQueue::new());
    level.draw(&mut ctx);
    assert!(ctx.renderer.unwrap().commands.len() > 32 * 18);
}

#[test]
fn towers_off_the_grid_reach_no_cell() {
    let mut level = LevelScene::default();
    level.add_tower(Tower::basic(Rect::new(-100, -100, 32, 32)));
    level.add_tower(Tower::basic(Rect::new(1000, 1000, 32, 32)));
    assert_eq!(level.towers.len(), 2);
    assert!(level.cell_to_turrets.is_empty());
}

#[test]
fn placing_the_tower_in_hand_on_any_grid() {
    let mut level = LevelScene::default();
    let layout = GridLayout { area: Rect::new(0, 0, 100, 100), rows: 10, columns: 10, cell_gap: 0 };
    let mut ctx = GameContext::default();
    level.top_bar.current_action = Some(PlayerAction::PlaceTower(Tower::rin(Rect::new(0, 0, 32, 32))));
    ctx.mouse_context = MouseContext { left_clicked: true, right_clicked: false, position: Some((35, 52)) };
    level.check_action(&layout, &mut ctx);
    assert_eq!(level.towers.len(), 1);
    assert_eq!((level.towers[0].position.x, level.towers[0].position.y), (3, 5));
    assert_eq!(level.top_bar.current_action, None);
    assert!(!ctx.mouse_context.left_clicked);
    level.top_bar.current_action = Some(PlayerAction::PlaceTower(Tower::rin(Rect::new(0, 0, 32, 32))));
    ctx.mouse_context = MouseContext { left_clicked: true, right_clicked: false, position: Some((35, 52)) };
    level.check_action(&layout, &mut ctx);
    assert_eq!(level.towers.len(), 1);
    assert!(level.top_bar.current_action.is_some());
    ctx.mouse_context = MouseContext { left_clicked: true, right_clicked: false, position: Some((35, 2)) };
    level.check_action(&layout, &mut ctx);
    assert_eq!(level.towers.len(), 1);
    ctx.mouse_context = MouseContext { left_clicked: false, right_clicked: true, position: Some((35, 2)) };
    level.check_action(&layout, &mut ctx);
    assert_eq!(level.top_bar.current_action, None);
    assert_eq!(level.top_bar.money, 65);
}

struct Tagged;

impl Interpolate for Tagged {
    fn interpolate(&self, z0: isize, z1: isize, ticks_waited: u32, wait_for: u32) -> isize {
        z0 * 1_000_000 + z1 * 1_000 + ticks_waited as isize * 10 + wait_for as isize
    }
}

#[test]
fn shots_in_flight_sit_where_the_interpolation_puts_them() {
    let layout = level_layout();
    let mut p = Projectile::new((1, 2), (3, 4), 3, 9, &layout);
    p.update(5, &Tagged);
    assert_eq!((p.position.x, p.position.y), (1_003_059, 2_004_059));
    p.update(4, &Tagged);
    assert!(p.has_arrived());
    assert_eq!((p.position.x, p.position.y), (3, 4));
}
