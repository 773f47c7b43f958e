//! The level: enemies walk a path toward the base, towers placed on the
//! grid shoot them, defeated enemies pay out money to buy more towers.
use vstd::prelude::*;

use std::collections::HashMap;

use crate::constants::{
    sprite_info_energy, sprite_info_grass, sprite_info_highlight, sprite_info_leek, sprite_info_road, sprite_info_luka_tower, sprite_info_miku,
    sprite_info_miku_tower, sprite_info_rin_tower, sprite_info_teto_walking,
};
use crate::constants::{TEXTURE_ID_FONTSHEET, TEXTURE_ID_LEEKSHEET, TEXTURE_ID_MIKU};
use crate::font::{get_rects_for_str, spec_glyph_rect};
use crate::renderer::RenderQueue;
use crate::game::{GameContext, MouseContext};
use crate::grid_layout::GridLayout;
use crate::renderer::{draw_rect, RenderCommand};
use crate::{advance_ready_state, fits_isize, sat_add_u32, sat_sub, spec_advance_ready_state, ReadyState, Rect, SpriteInfo};

verus! {

/// Hit points.
#[derive(Debug, Clone, Copy, PartialEq, Eq, Structural)]
pub struct Health {
    pub current: u8,
    pub max: u8,
}

impl Health {
    /// Loses `amount` hit points, down to zero at most.
    pub fn damage(&mut self, amount: u8)
        ensures
            final(self).current == sat_sub(old(self).current as int, amount as int),
            final(self).max == old(self).max,
    {
        self.current = self.current.saturating_sub(amount);
    }
}

impl Default for Health {
    fn default() -> (h: Health)
        ensures
            h == (Health { current: 10, max: 10 }),
    {
        let max: u8 = 10;
        Health { current: max, max }
    }
}

/// An enemy walking the path, one tile per cooldown.
#[derive(Debug, Clone, Copy, PartialEq, Eq, Structural)]
pub struct Enemy {
    pub position: Rect,
    pub health: Health,
    pub sprite_info: SpriteInfo,
    pub ready_state: ReadyState,
    pub path_index: usize,
    pub speed: u32,
}

impl Enemy {
    pub open spec fn spec_teto(position: Rect) -> Enemy {
        Enemy {
            position,
            health: Health { current: 10, max: 10 },
            sprite_info: SpriteInfo {
                start_x: 448,
                start_y: 0,
                width: 32,
                height: 32,
                frames: 2,
                current_frame: 0,
                framerate_per_second: 16,
                delta: 0,
            },
            ready_state: ReadyState::Ready,
            path_index: 0,
            speed: 120,
        }
    }

    /// The enemy after `ticks` more ticks: its cooldown and animation run on.
    pub open spec fn spec_update(self, ticks: u32) -> Enemy {
        Enemy {
            ready_state: spec_advance_ready_state(self.ready_state, ticks),
            sprite_info: self.sprite_info.spec_advance(ticks),
            ..self
        }
    }

    /// The enemy after trying to walk: when ready and not yet at the end of
    /// the path it steps onto the next tile and starts its cooldown.
    pub open spec fn spec_walk(self, path: Seq<Rect>) -> Enemy {
        let last = path.len() - 1;
        if self.path_index >= last {
            self
        } else if self.ready_state is Ready {
            let idx = self.path_index + 1;
            let tile = path[idx];
            Enemy {
                path_index: idx as usize,
                position: Rect { x: tile.x, y: tile.y, ..self.position },
                ready_state: ReadyState::Cooldown { wait_for: self.speed, ticks_waited: 0 },
                ..self
            }
        } else {
            self
        }
    }

    /// Whether the enemy attacks the base: ready at the end of the path.
    pub open spec fn spec_attacks(self, path: Seq<Rect>) -> bool {
        self.path_index >= path.len() - 1 && self.ready_state is Ready
    }

    /// The enemy after its attack: an attack starts its cooldown.
    pub open spec fn spec_attack(self, path: Seq<Rect>) -> Enemy {
        if self.spec_attacks(path) {
            Enemy { ready_state: ReadyState::Cooldown { wait_for: self.speed, ticks_waited: 0 }, ..self }
        } else {
            self
        }
    }

    /// The enemy's fields hold what the level relies on.
    /// Its sprite animates safely, and it is still standing.
    pub open spec fn wf(self) -> bool {
        &&& self.sprite_info.wf()
        &&& self.health.current > 0
    }

    pub fn teto(position: Rect) -> (e: Enemy)
        ensures
            e == Enemy::spec_teto(position),
            e.wf(),
    {
        Self {
            position,
            health: Health::default(),
            sprite_info: sprite_info_teto_walking(),
            ready_state: ReadyState::Ready,
            path_index: 0,
            speed: 120,
        }
    }

    pub fn update(&mut self, ticks: u32)
        requires
            old(self).sprite_info.advance_ok(ticks),
        ensures
            *final(self) == old(self).spec_update(ticks),
    {
        self.ready_state = advance_ready_state(self.ready_state, ticks);
        self.sprite_info.advance(ticks);
    }

    pub fn walk(&mut self, path: &Vec<Rect>)
        requires
            path@.len() > 0,
        ensures
            *final(self) == old(self).spec_walk(path@),
    {
        let last_index: usize = path.len() - 1;
        if self.path_index >= last_index {
            return;
        }
        match self.ready_state {
            ReadyState::Ready => {
                self.path_index = self.path_index.saturating_add(1);
                let idx: usize = if self.path_index < last_index {
                    self.path_index
                } else {
                    last_index
                };
                let tile: Rect = path[idx];
                self.position.y = tile.y;
                self.position.x = tile.x;
                self.ready_state = ReadyState::Cooldown { wait_for: self.speed, ticks_waited: 0 };
            },
            _ => {},
        }
    }

    /// Attacks the base when ready at the end of the path, for one damage.
    pub fn attack(&mut self, path: &Vec<Rect>) -> (damage: Option<u8>)
        requires
            path@.len() > 0,
        ensures
            *final(self) == old(self).spec_attack(path@),
            damage == (if old(self).spec_attacks(path@) {
                Some(1u8)
            } else {
                None
            }),
    {
        let last_index: usize = path.len() - 1;
        if self.path_index < last_index {
            return None;
        }
        match self.ready_state {
            ReadyState::Ready => {
                self.ready_state = ReadyState::Cooldown { wait_for: self.speed, ticks_waited: 0 };
                let damage: u8 = 1;
                Some(damage)
            },
            _ => None,
        }
    }

    pub fn get_rect(&self) -> (r: Rect)
        requires
            self.sprite_info.frame_x() <= u32::MAX,
        ensures
            r == self.sprite_info.spec_rect(),
    {
        self.sprite_info.get_rect()
    }
}

/// How an enemy walks: a ready enemy short of the path's last tile steps
/// onto the next tile, takes its place and starts a cooldown of `speed`
/// ticks; an enemy on the last tile, or still cooling down, stays as it is.
/// So ready steps bring every enemy to the last tile, where it attacks.
pub proof fn lemma_walk_steps_to_next_tile(e: Enemy, path: Seq<Rect>)
    requires
        0 < path.len() <= usize::MAX,
    ensures
        e.path_index + 1 < path.len() && e.ready_state is Ready ==> {
            let w = e.spec_walk(path);
            &&& w.path_index == e.path_index + 1
            &&& w.position.x == path[e.path_index + 1].x
            &&& w.position.y == path[e.path_index + 1].y
            &&& w.position.width == e.position.width
            &&& w.position.height == e.position.height
            &&& w.ready_state == (ReadyState::Cooldown { wait_for: e.speed, ticks_waited: 0 })
            &&& w.health == e.health
            &&& w.sprite_info == e.sprite_info
            &&& w.speed == e.speed
        },
        e.path_index + 1 >= path.len() || e.ready_state !is Ready ==> e.spec_walk(path) == e,
        e.path_index + 1 == path.len() - 1 && e.ready_state is Ready ==> !e.spec_attacks(path) && e.spec_walk(
            path,
        ).path_index == path.len() - 1,
        e.path_index >= path.len() - 1 && e.ready_state is Ready ==> e.spec_attacks(path),
        e.path_index < path.len() - 1 ==> !e.spec_attacks(path),
{
}

/// Sends enemies in rounds: a number of enemies per round, one per spawn
/// cooldown.
#[derive(Debug, Clone, Copy, PartialEq, Eq, Structural)]
pub struct EnemySpawner {
    pub ready_state: ReadyState,
    pub enemies_per_round: u32,
    pub spawn_in_ticks: u32,
    pub round: u32,
    pub spawned: u32,
}

/// Where new enemies appear.
pub open spec fn spec_spawn_position() -> Rect {
    Rect { x: 27, y: 9, width: 40, height: 40 }
}

impl EnemySpawner {
    /// Whether a spawn happens now: the round is not complete and the
    /// spawner is ready.
    pub open spec fn spec_spawns(self) -> bool {
        self.spawned < self.enemies_per_round && self.ready_state is Ready
    }

    /// The spawner after a spawn attempt.
    pub open spec fn spec_after_spawn(self) -> EnemySpawner {
        if self.spec_spawns() {
            EnemySpawner { spawned: sat_add_u32(self.spawned as int, 1) as u32, ..self }
        } else {
            self
        }
    }

    /// The spawner waiting out a fresh spawn cooldown.
    pub open spec fn spec_cooldown(self) -> EnemySpawner {
        EnemySpawner {
            ready_state: ReadyState::Cooldown { wait_for: self.spawn_in_ticks, ticks_waited: 0 },
            ..self
        }
    }

    /// The next round: one more round, a third more enemies, spawns five
    /// ticks faster but no faster than every ten ticks; only once ready.
    pub open spec fn spec_next_round(self) -> EnemySpawner {
        if self.ready_state is Ready {
            EnemySpawner {
                round: sat_add_u32(self.round as int, 1) as u32,
                spawned: 0,
                enemies_per_round: sat_add_u32(
                    self.enemies_per_round as int,
                    self.enemies_per_round as int / 3,
                ) as u32,
                spawn_in_ticks: if self.spawn_in_ticks - 5 > 10 {
                    (self.spawn_in_ticks - 5) as u32
                } else {
                    10
                },
                ..self
            }.spec_cooldown()
        } else {
            self
        }
    }

    /// The arithmetic of `start_next_round` stays within `u32`.
    pub open spec fn next_round_ok(self) -> bool {
        self.ready_state is Ready ==> self.spawn_in_ticks >= 5
    }

    pub fn new(enemies_in_starting_round: u32, spawn_in_ticks: u32) -> (s: EnemySpawner)
        ensures
            s == (EnemySpawner {
                ready_state: ReadyState::Cooldown { wait_for: spawn_in_ticks, ticks_waited: 0 },
                enemies_per_round: enemies_in_starting_round,
                spawn_in_ticks,
                round: 0,
                spawned: 0,
            }),
    {
        Self {
            ready_state: ReadyState::Cooldown { wait_for: spawn_in_ticks, ticks_waited: 0 },
            enemies_per_round: enemies_in_starting_round,
            spawn_in_ticks,
            round: 0,
            spawned: 0,
        }
    }

    /// The spawner after `ticks` more ticks of its cooldown.
    pub open spec fn spec_update(self, ticks: u32) -> EnemySpawner {
        EnemySpawner { ready_state: spec_advance_ready_state(self.ready_state, ticks), ..self }
    }

    pub fn update(&mut self, ticks: u32)
        ensures
            *final(self) == old(self).spec_update(ticks),
    {
        self.ready_state = advance_ready_state(self.ready_state, ticks);
    }

    /// A new enemy at the spawn position, when one is due.
    pub fn spawn(&mut self) -> (e: Option<Enemy>)
        ensures
            *final(self) == old(self).spec_after_spawn(),
            e == (if old(self).spec_spawns() {
                Some(Enemy::spec_teto(spec_spawn_position()))
            } else {
                None
            }),
    {
        if self.spawned >= self.enemies_per_round {
            return None;
        }
        match self.ready_state {
            ReadyState::Ready => {
                let enemy = Enemy::teto(Rect::new(27, 9, 40, 40));
                self.spawned = self.spawned.saturating_add(1);
                Some(enemy)
            },
            _ => None,
        }
    }

    pub fn cooldown(&mut self)
        ensures
            *final(self) == old(self).spec_cooldown(),
    {
        self.ready_state = ReadyState::Cooldown { wait_for: self.spawn_in_ticks, ticks_waited: 0 };
    }

    pub fn start_next_round(&mut self)
        requires
            old(self).next_round_ok(),
        ensures
            *final(self) == old(self).spec_next_round(),
    {
        match self.ready_state {
            ReadyState::Ready => {
                self.round = self.round.saturating_add(1);
                self.spawned = 0;
                self.enemies_per_round = self.enemies_per_round.saturating_add(
                    self.enemies_per_round / 3,
                );
                let faster: u32 = self.spawn_in_ticks - 5;
                self.spawn_in_ticks = if faster > 10 {
                    faster
                } else {
                    10
                };
                self.cooldown();
            },
            _ => {},
        }
    }
}

/// A round never spawns more enemies than it holds: a spawner that has not
/// spawned more than its round's count keeps to it, whether it spawns or
/// starts the next round.
pub proof fn lemma_spawner_keeps_round_count(s: EnemySpawner)
    requires
        s.spawned <= s.enemies_per_round,
    ensures
        s.spec_after_spawn().spawned <= s.spec_after_spawn().enemies_per_round,
        s.spec_next_round().spawned <= s.spec_next_round().enemies_per_round,
{
}

/// Once a round starts its spawns keep a spawn cooldown: the round count
/// grows by one and no enemy of the new round is due at once.
pub proof fn lemma_next_round_waits(s: EnemySpawner)
    requires
        s.ready_state is Ready,
        s.spawn_in_ticks >= 5,
    ensures
        s.spec_next_round().round == sat_add_u32(s.round as int, 1),
        s.spec_next_round().spawned == 0,
        s.spec_next_round().spawn_in_ticks >= 10,
        s.spec_next_round().ready_state is Cooldown,
        !s.spec_next_round().spec_spawns(),
{
}

/// The base the enemies attack.
#[derive(Debug, Clone, Copy, PartialEq, Eq, Structural)]
pub struct Base {
    pub position: Rect,
    pub health: Health,
    pub sprite_info: SpriteInfo,
}

impl Default for Base {
    fn default() -> (b: Base)
        ensures
            b.position == (Rect { x: 3, y: 16, width: 32, height: 32 }),
            b.health == (Health { current: 10, max: 10 }),
            b.sprite_info == (SpriteInfo {
                start_x: 0,
                start_y: 0,
                width: 71,
                height: 54,
                frames: 6,
                current_frame: 0,
                framerate_per_second: 10,
                delta: 0,
            }),
            b.sprite_info.wf(),
    {
        Base {
            position: Rect::new(3, 16, 32, 32),
            health: Health::default(),
            sprite_info: sprite_info_miku(),
        }
    }
}

/// Computes the point a fraction `ticks_waited / wait_for` of the way from
/// `z0` to `z1`, as the backend's arithmetic does it.
pub trait Interpolate {
    fn interpolate(&self, z0: isize, z1: isize, ticks_waited: u32, wait_for: u32) -> isize;
}

/// A shot flying from a tower to its target, hitting when its timer is
/// ready.
#[derive(Debug, Clone, Copy, PartialEq, Eq)]
pub struct Projectile {
    pub position: Rect,
    pub start: (isize, isize),
    pub end: (isize, isize),
    pub damage: u8,
    pub hit_when_ready: ReadyState,
    pub sprite_info: SpriteInfo,
}

impl Projectile {
    /// The shot after `ticks` more ticks, but for where it is in flight: it
    /// has arrived at its target once ready.
    pub open spec fn spec_update(self, ticks: u32) -> Projectile {
        let hit = spec_advance_ready_state(self.hit_when_ready, ticks);
        Projectile {
            hit_when_ready: hit,
            sprite_info: self.sprite_info.spec_advance(ticks),
            position: if hit is Ready {
                Rect { x: self.end.0, y: self.end.1, ..self.position }
            } else {
                self.position
            },
            ..self
        }
    }

    /// `p` is this shot after an update, wherever it flies: all fields but the
    /// in flight position are as `spec_update` says.
    pub open spec fn updated_as(self, p: Projectile, ticks: u32) -> bool {
        let q = self.spec_update(ticks);
        &&& p.start == q.start
        &&& p.end == q.end
        &&& p.damage == q.damage
        &&& p.hit_when_ready == q.hit_when_ready
        &&& p.sprite_info == q.sprite_info
        &&& p.position.width == q.position.width
        &&& p.position.height == q.position.height
        &&& q.hit_when_ready is Ready ==> p.position == q.position
    }

    pub open spec fn spec_arrived(self) -> bool {
        self.hit_when_ready is Ready
    }

    /// While `p` is still in flight, each of its coordinates is what
    /// `interpolation` gave for the way from this shot's start to its end,
    /// at the point its timer has reached.
    pub open spec fn placed_by<I: Interpolate>(self, interpolation: &I, p: Projectile) -> bool {
        match p.hit_when_ready {
            ReadyState::Cooldown { wait_for, ticks_waited } => {
                &&& call_ensures(
                    I::interpolate,
                    (interpolation, self.start.0, self.end.0, ticks_waited, wait_for),
                    p.position.x,
                )
                &&& call_ensures(
                    I::interpolate,
                    (interpolation, self.start.1, self.end.1, ticks_waited, wait_for),
                    p.position.y,
                )
            },
            ReadyState::Ready => true,
        }
    }

    pub fn new(
        start: (isize, isize),
        end: (isize, isize),
        damage: u8,
        ticks_until_hit: u32,
        layout: &GridLayout,
    ) -> (p: Projectile)
        requires
            layout.cell_size_ok(),
        ensures
            p == (Projectile {
                position: Rect {
                    x: start.0,
                    y: start.1,
                    width: layout.spec_cell_size().0 as isize,
                    height: layout.spec_cell_size().1 as isize,
                },
                start,
                end,
                damage,
                hit_when_ready: ReadyState::Cooldown { wait_for: ticks_until_hit, ticks_waited: 0 },
                sprite_info: SpriteInfo {
                    start_x: 512,
                    start_y: 0,
                    width: 32,
                    height: 32,
                    frames: 1,
                    current_frame: 0,
                    framerate_per_second: 60,
                    delta: 0,
                },
            }),
            p.sprite_info.wf(),
    {
        let cell_size: (isize, isize) = layout.cell_size();
        Projectile {
            position: Rect::new(start.0, start.1, cell_size.0, cell_size.1),
            start,
            end,
            damage,
            hit_when_ready: ReadyState::Cooldown { wait_for: ticks_until_hit, ticks_waited: 0 },
            sprite_info: sprite_info_energy(),
        }
    }

    /// Moves the shot on: at its target once its timer is ready, otherwise
    /// the interpolated point along the way.
    pub fn update<I: Interpolate>(&mut self, ticks: u32, interpolation: &I)
        requires
            old(self).sprite_info.advance_ok(ticks),
        ensures
            old(self).updated_as(*final(self), ticks),
            old(self).placed_by(interpolation, *final(self)),
    {
        self.hit_when_ready = advance_ready_state(self.hit_when_ready, ticks);
        self.sprite_info.advance(ticks);
        match self.hit_when_ready {
            ReadyState::Ready => {
                self.position.x = self.end.0;
                self.position.y = self.end.1;
            },
            ReadyState::Cooldown { wait_for, ticks_waited } => {
                self.position.x = interpolation.interpolate(
                    self.start.0,
                    self.end.0,
                    ticks_waited,
                    wait_for,
                );
                self.position.y = interpolation.interpolate(
                    self.start.1,
                    self.end.1,
                    ticks_waited,
                    wait_for,
                );
            },
        }
    }

    pub fn get_rect(&self) -> (r: Rect)
        requires
            self.sprite_info.frame_x() <= u32::MAX,
        ensures
            r == self.sprite_info.spec_rect(),
    {
        self.sprite_info.get_rect()
    }

    pub fn has_arrived(&self) -> (b: bool)
        ensures
            b == self.spec_arrived(),
    {
        match self.hit_when_ready {
            ReadyState::Ready => true,
            _ => false,
        }
    }
}

/// A tower on the grid, shooting enemies in range whenever its cooldown
/// allows.  Its position is a row and column: `x` the column, `y` the row.
#[derive(Debug, Clone, Copy, PartialEq, Eq, Structural)]
pub struct Tower {
    pub position: Rect,
    pub state: ReadyState,
    pub range: u16,
    pub sprite_info: SpriteInfo,
    pub cost: u32,
    pub damage: u8,
    pub cooldown: u32,
}

impl Tower {
    pub open spec fn spec_can_shoot(self) -> bool {
        self.state is Ready
    }

    pub open spec fn spec_update(self, ticks: u32) -> Tower {
        Tower {
            state: spec_advance_ready_state(self.state, ticks),
            sprite_info: self.sprite_info.spec_advance(ticks),
            ..self
        }
    }

    pub open spec fn spec_cooldown(self) -> Tower {
        Tower { state: ReadyState::Cooldown { wait_for: self.cooldown, ticks_waited: 0 }, ..self }
    }

    /// The basic tower, at `position`.
    pub open spec fn spec_basic(position: Rect) -> Tower {
        Tower {
            position,
            state: ReadyState::Ready,
            range: 5,
            sprite_info: SpriteInfo {
                start_x: 0,
                start_y: 0,
                width: 32,
                height: 32,
                frames: 1,
                current_frame: 0,
                framerate_per_second: 60,
                delta: 0,
            },
            cost: 10,
            damage: 1,
            cooldown: 30,
        }
    }

    /// A tower variant: the basic tower with another sprite, cost, damage and
    /// cooldown.
    pub open spec fn spec_variant(
        position: Rect,
        sprite_start_x: u32,
        framerate: u32,
        cost: u32,
        damage: u8,
        cooldown: u32,
    ) -> Tower {
        Tower {
            sprite_info: SpriteInfo {
                start_x: sprite_start_x,
                start_y: 0,
                width: 32,
                height: 32,
                frames: 2,
                current_frame: 0,
                framerate_per_second: framerate,
                delta: 0,
            },
            cost,
            damage,
            cooldown,
            ..Tower::spec_basic(position)
        }
    }

    /// The shot a tower fires at `to`: it leaves from the tower's cell on
    /// the screen and takes `60 / range` ticks.
    pub open spec fn spec_projectile(self, layout: GridLayout, to: (isize, isize)) -> Projectile {
        let from = layout.spec_cell_rect();
        Projectile {
            position: Rect {
                x: from.x,
                y: from.y,
                width: layout.spec_cell_size().0 as isize,
                height: layout.spec_cell_size().1 as isize,
            },
            start: (from.x, from.y),
            end: to,
            damage: self.damage,
            hit_when_ready: ReadyState::Cooldown { wait_for: (60int / (self.range as int)) as u32, ticks_waited: 0 },
            sprite_info: SpriteInfo {
                start_x: 512,
                start_y: 0,
                width: 32,
                height: 32,
                frames: 1,
                current_frame: 0,
                framerate_per_second: 60,
                delta: 0,
            },
        }
    }

    pub fn can_shoot(&self) -> (b: bool)
        ensures
            b == self.spec_can_shoot(),
    {
        match self.state {
            ReadyState::Ready => true,
            _ => false,
        }
    }

    pub fn cooldown(&mut self)
        ensures
            *final(self) == old(self).spec_cooldown(),
    {
        self.state = ReadyState::Cooldown { wait_for: self.cooldown, ticks_waited: 0 };
    }

    pub fn update(&mut self, ticks: u32)
        requires
            old(self).sprite_info.advance_ok(ticks),
        ensures
            *final(self) == old(self).spec_update(ticks),
    {
        self.state = advance_ready_state(self.state, ticks);
        self.sprite_info.advance(ticks);
    }

    pub fn projectile(&self, layout: &GridLayout, to: (isize, isize)) -> (p: Projectile)
        requires
            layout.cell_size_ok(),
            layout.origin_ok(),
            self.range > 0,
        ensures
            p == self.spec_projectile(*layout, to),
    {
        let screen_coordinates: Rect = layout.cell_rect(
            self.position.y as usize,
            self.position.x as usize,
        );
        let (x, y) = (screen_coordinates.x, screen_coordinates.y);
        let ticks_until_hit: u32 = 60 / self.range as u32;
        Projectile::new((x, y), to, self.damage, ticks_until_hit, layout)
    }

    pub fn basic(position: Rect) -> (t: Tower)
        ensures
            t == Tower::spec_basic(position),
            t.sprite_info.wf(),
    {
        Self {
            position,
            state: ReadyState::Ready,
            range: 5,
            sprite_info: sprite_info_leek(),
            cost: 10,
            damage: 1,
            cooldown: 30,
        }
    }

    /// An average tower.
    pub fn miku(position: Rect) -> (t: Tower)
        ensures
            t == Tower::spec_variant(position, 224, 8, 20, 5, 30),
            t.sprite_info.wf(),
    {
        let mut base = Self::basic(position);
        base.sprite_info = sprite_info_miku_tower();
        base.cost = 20;
        base.damage = 5;
        base.cooldown = 30;
        base
    }

    /// A fast tower with less damage.
    pub fn rin(position: Rect) -> (t: Tower)
        ensures
            t == Tower::spec_variant(position, 288, 4, 15, 3, 15),
            t.sprite_info.wf(),
    {
        let mut base = Self::basic(position);
        base.sprite_info = sprite_info_rin_tower();
        base.cost = 15;
        base.damage = 3;
        base.cooldown = 15;
        base
    }

    /// A slow tower with much damage.
    pub fn luka(position: Rect) -> (t: Tower)
        ensures
            t == Tower::spec_variant(position, 352, 16, 30, 15, 60),
            t.sprite_info.wf(),
    {
        let mut base = Self::basic(position);
        base.sprite_info = sprite_info_luka_tower();
        base.cost = 30;
        base.damage = 15;
        base.cooldown = 60;
        base
    }
}

/// What the player has chosen to do next.
#[derive(Debug, Clone, Copy, PartialEq, Eq, Structural)]
pub enum PlayerAction {
    PlaceTower(Tower),
}

/// The menu row: the towers for sale, the action in hand, the money and
/// the number of enemies defeated.
#[derive(Debug, Clone, Copy, PartialEq, Eq, Structural)]
pub struct TopBar {
    pub miku_tower: Tower,
    pub rin_tower: Tower,
    pub luka_tower: Tower,
    pub current_action: Option<PlayerAction>,
    pub money: u32,
    pub defeated: u32,
}

/// The arithmetic the scenes do with a layout's cells stays within `isize`:
/// cells can be listed, the first cell has room to its right and below, and
/// one more than a cell's corner is still an `isize`.
pub open spec fn layout_ok(layout: GridLayout) -> bool {
    &&& layout.cells_ok()
    &&& fits_isize(layout.spec_origin().0 + layout.spec_cell_size().0)
    &&& fits_isize(layout.spec_origin().1 + layout.spec_cell_size().1)
    &&& forall|k: int|
        0 <= k < layout.spec_cells().len() ==> {
            &&& #[trigger] layout.spec_cells()[k].2.x < isize::MAX
            &&& layout.spec_cells()[k].2.y < isize::MAX
        }
}

/// A tower's menu button after a tick: when the pointer is over it, it
/// animates, and a left click buys it into the player's hand if the hand is
/// empty and the money suffices.
pub open spec fn spec_tower_button(
    tower: Tower,
    action: Option<PlayerAction>,
    money: u32,
    mouse: MouseContext,
    hovered: bool,
    ticks: u32,
) -> (Tower, Option<PlayerAction>, u32, MouseContext) {
    if hovered {
        let t = Tower { sprite_info: tower.sprite_info.spec_advance(ticks), ..tower };
        if mouse.left_clicked && action is None && money >= t.cost {
            (
                t,
                Some(PlayerAction::PlaceTower(t)),
                sat_sub(money as int, t.cost as int) as u32,
                MouseContext { left_clicked: false, ..mouse },
            )
        } else {
            (t, action, money, mouse)
        }
    } else {
        (tower, action, money, mouse)
    }
}

impl TopBar {
    pub open spec fn wf(self) -> bool {
        &&& self.miku_tower.sprite_info.wf()
        &&& self.rin_tower.sprite_info.wf()
        &&& self.luka_tower.sprite_info.wf()
        &&& self.miku_tower.range > 0
        &&& self.rin_tower.range > 0
        &&& self.luka_tower.range > 0
        &&& match self.current_action {
            Some(PlayerAction::PlaceTower(t)) => t.sprite_info.wf() && t.range > 0,
            None => true,
        }
    }

    /// Whether the pointer is over a tower's button; the button's cell is
    /// the one `cell_rect` gives.
    pub open spec fn spec_hovered(layout: GridLayout, mouse: MouseContext) -> bool {
        match layout.spec_cell_for_mouse(mouse.position) {
            Some((_r, _c, rect)) => layout.spec_cell_rect().spec_contains(rect.x + 1, rect.y + 1),
            None => false,
        }
    }

    /// The menu and the pointer after a tick.  Nothing happens while the
    /// pointer is off the grid.  Otherwise each button in turn may be bought
    /// from, then a right click puts a tower in hand back and refunds it.
    pub open spec fn spec_update(self, mouse: MouseContext, ticks: u32, layout: GridLayout) -> (TopBar, MouseContext) {
        if layout.spec_cell_for_mouse(mouse.position) is None {
            (self, mouse)
        } else {
            let hovered = Self::spec_hovered(layout, mouse);
            let (miku, a1, m1, mouse1) = spec_tower_button(self.miku_tower, self.current_action, self.money, mouse, hovered, ticks);
            let (rin, a2, m2, mouse2) = spec_tower_button(self.rin_tower, a1, m1, mouse1, hovered, ticks);
            let (luka, a3, m3, mouse3) = spec_tower_button(self.luka_tower, a2, m2, mouse2, hovered, ticks);
            if mouse3.right_clicked && a3 is Some {
                let t = a3->0->0;
                (
                    TopBar {
                        miku_tower: miku,
                        rin_tower: rin,
                        luka_tower: luka,
                        current_action: None,
                        money: sat_add_u32(m3 as int, t.cost as int) as u32,
                        ..self
                    },
                    MouseContext { right_clicked: false, ..mouse3 },
                )
            } else {
                (
                    TopBar { miku_tower: miku, rin_tower: rin, luka_tower: luka, current_action: a3, money: m3, ..self },
                    mouse3,
                )
            }
        }
    }

    /// The draw commands of the menu: each tower's sprite in its cell.
    pub open spec fn spec_draw(self, layout: GridLayout) -> Seq<RenderCommand> {
        seq![
            draw_rect(TEXTURE_ID_LEEKSHEET, self.miku_tower.sprite_info.spec_rect(), layout.spec_cell_rect()),
            draw_rect(TEXTURE_ID_LEEKSHEET, self.rin_tower.sprite_info.spec_rect(), layout.spec_cell_rect()),
            draw_rect(TEXTURE_ID_LEEKSHEET, self.luka_tower.sprite_info.spec_rect(), layout.spec_cell_rect()),
        ]
    }

    fn update_button(
        tower: &mut Tower,
        current_action: &mut Option<PlayerAction>,
        money: &mut u32,
        mouse: &mut MouseContext,
        hovered: bool,
        ticks: u32,
    )
        requires
            old(tower).sprite_info.wf(),
            old(tower).range > 0,
            match *old(current_action) {
                Some(PlayerAction::PlaceTower(t)) => t.sprite_info.wf() && t.range > 0,
                None => true,
            },
        ensures
            match *final(current_action) {
                Some(PlayerAction::PlaceTower(t)) => t.sprite_info.wf() && t.range > 0,
                None => true,
            },
            final(tower).range == old(tower).range,
            (*final(tower), *final(current_action), *final(money), *final(mouse)) == spec_tower_button(
                *old(tower),
                *old(current_action),
                *old(money),
                *old(mouse),
                hovered,
                ticks,
            ),
            final(tower).sprite_info.wf(),
    {
        if hovered {
            proof {
                crate::lemma_sprite_advance_keeps_wf(tower.sprite_info, ticks);
            }
            tower.sprite_info.advance(ticks);
            if mouse.left_clicked && current_action.is_none() && *money >= tower.cost {
                *current_action = Some(PlayerAction::PlaceTower(*tower));
                mouse.consume_left_click();
                *money = money.saturating_sub(tower.cost);
            }
        }
    }

    pub fn update(&mut self, ticks: u32, game_context: &mut GameContext, layout: &GridLayout)
        requires
            old(self).wf(),
            layout_ok(*layout),
        ensures
            (*final(self), final(game_context).mouse_context) == old(self).spec_update(
                old(game_context).mouse_context,
                ticks,
                *layout,
            ),
            final(self).wf(),
            final(game_context).screen_size == old(game_context).screen_size,
            final(game_context).renderer == old(game_context).renderer,
            final(game_context).next_scene == old(game_context).next_scene,
            final(game_context).asset_loader == old(game_context).asset_loader,
            final(game_context).audio == old(game_context).audio,
            final(game_context).shutdown_flag == old(game_context).shutdown_flag,
    {
        let hit = layout.cell_for_mouse(game_context.mouse_context.position);
        let Some((_r, _c, rect)) = hit else {
            return;
        };
        proof {
            crate::grid_layout::lemma_first_hit_is_cell(
                layout.spec_cells(),
                game_context.mouse_context.position.unwrap().0 as int,
                game_context.mouse_context.position.unwrap().1 as int,
            );
            let k = choose|k: int| 0 <= k < layout.spec_cells().len() && layout.spec_cells()[k] == (_r, _c, rect);
            assert(layout.spec_cells()[k].2.x < isize::MAX);
        }
        let tower_cell: Rect = layout.cell_rect(0, 0);
        let hovered: bool = tower_cell.contains(rect.x + 1, rect.y + 1);
        Self::update_button(
            &mut self.miku_tower,
            &mut self.current_action,
            &mut self.money,
            &mut game_context.mouse_context,
            hovered,
            ticks,
        );
        Self::update_button(
            &mut self.rin_tower,
            &mut self.current_action,
            &mut self.money,
            &mut game_context.mouse_context,
            hovered,
            ticks,
        );
        Self::update_button(
            &mut self.luka_tower,
            &mut self.current_action,
            &mut self.money,
            &mut game_context.mouse_context,
            hovered,
            ticks,
        );
        if game_context.mouse_context.right_clicked {
            match self.current_action {
                Some(PlayerAction::PlaceTower(tower)) => {
                    self.money = self.money.saturating_add(tower.cost);
                    game_context.mouse_context.consume_right_click();
                    self.current_action = None;
                },
                _ => {},
            }
        }
    }

    pub fn draw(&mut self, game_context: &mut GameContext, layout: &GridLayout)
        requires
            old(self).wf(),
            layout.cell_size_ok(),
            layout.origin_ok(),
        ensures
            *final(self) == *old(self),
            final(game_context).renderer is Some == old(game_context).renderer is Some,
            old(game_context).renderer is Some ==> final(game_context).renderer.unwrap().commands@
                == old(game_context).renderer.unwrap().commands@ + old(self).spec_draw(*layout),
            final(game_context).mouse_context == old(game_context).mouse_context,
            final(game_context).screen_size == old(game_context).screen_size,
            final(game_context).next_scene == old(game_context).next_scene,
            final(game_context).asset_loader == old(game_context).asset_loader,
            final(game_context).audio == old(game_context).audio,
            final(game_context).shutdown_flag == old(game_context).shutdown_flag,
    {
        let renderer = match &mut game_context.renderer {
            Some(r) => r,
            None => {
                return;
            },
        };
        proof {
            crate::lemma_sprite_frame_fits(self.miku_tower.sprite_info);
            crate::lemma_sprite_frame_fits(self.rin_tower.sprite_info);
            crate::lemma_sprite_frame_fits(self.luka_tower.sprite_info);
        }
        let cell: Rect = layout.cell_rect(0, 0);
        let src: Rect = self.miku_tower.sprite_info.get_rect();
        renderer.send_command(RenderCommand::DrawRect { texture_id: TEXTURE_ID_LEEKSHEET, source: src, destination: cell });
        let src: Rect = self.rin_tower.sprite_info.get_rect();
        renderer.send_command(RenderCommand::DrawRect { texture_id: TEXTURE_ID_LEEKSHEET, source: src, destination: cell });
        let src: Rect = self.luka_tower.sprite_info.get_rect();
        renderer.send_command(RenderCommand::DrawRect { texture_id: TEXTURE_ID_LEEKSHEET, source: src, destination: cell });
    }

    /// The menu after paying for a tower, if the money suffices.
    pub open spec fn spec_buy(self, tower: Tower) -> TopBar {
        if tower.cost > self.money {
            self
        } else {
            TopBar { money: (self.money - tower.cost) as u32, ..self }
        }
    }

    /// The menu after a tower's cost is given back, up to the most money
    /// there can be.
    pub open spec fn spec_refund(self, tower: Tower) -> TopBar {
        TopBar { money: sat_add_u32(self.money as int, tower.cost as int) as u32, ..self }
    }

    /// Pays for a tower if the money suffices.
    pub fn buy_tower(&mut self, tower: &Tower)
        ensures
            *final(self) == old(self).spec_buy(*tower),
    {
        if tower.cost > self.money {
            return;
        }
        self.money = self.money.saturating_sub(tower.cost);
    }

    /// Gives a tower's cost back.
    pub fn refund_tower(&mut self, tower: &Tower)
        ensures
            *final(self) == old(self).spec_refund(*tower),
    {
        self.money = self.money.saturating_add(tower.cost);
    }
}

/// Refunding a tower just bought gives the money back: the menu is as it
/// was.
pub proof fn lemma_refund_undoes_buy(bar: TopBar, tower: Tower)
    requires
        tower.cost <= bar.money,
    ensures
        bar.spec_buy(tower).spec_refund(tower) == bar,
{
}

/// A right click on the grid undoes a purchase: after a tick that buys a
/// tower into an empty hand, a tick with a right click and no left click
/// over a cell of the grid empties the hand, gives back exactly the money
/// paid, and consumes the right click.
pub proof fn lemma_right_click_undoes_purchase(
    bar: TopBar,
    mouse1: MouseContext,
    ticks1: u32,
    mouse2: MouseContext,
    ticks2: u32,
    layout: GridLayout,
)
    requires
        bar.current_action is None,
        bar.spec_update(mouse1, ticks1, layout).0.current_action is Some,
        layout.spec_cell_for_mouse(mouse2.position) is Some,
        mouse2.right_clicked,
        !mouse2.left_clicked,
    ensures
        ({
            let (bar2, after_mouse) = bar.spec_update(mouse1, ticks1, layout).0.spec_update(mouse2, ticks2, layout);
            &&& bar2.current_action is None
            &&& bar2.money == bar.money
            &&& !after_mouse.right_clicked
        }),
{
}

/// The tower buttons answer only a pointer over their cell.  While the
/// pointer's cell does not reach into the button cell (`cell_rect` of the
/// tower), an update buys nothing: the hand, the money and the left click
/// are as they were, but for a right click putting a tower in hand back.
/// Over the button cell, a left click with an empty hand and enough money
/// buys the first button's tower: it goes into the hand, its cost is paid
/// and the click is consumed.
pub proof fn lemma_top_bar_buys_only_over_the_buttons(bar: TopBar, mouse: MouseContext, ticks: u32, layout: GridLayout)
    ensures
        ({
            let (after, after_mouse) = bar.spec_update(mouse, ticks, layout);
            &&& (layout.spec_cell_for_mouse(mouse.position) matches Some((_r, _c, rect))
                && !layout.spec_cell_rect().spec_contains(rect.x + 1, rect.y + 1) && !(mouse.right_clicked
                && bar.current_action is Some)) ==> {
                &&& after.current_action == bar.current_action
                &&& after.money == bar.money
                &&& after_mouse == mouse
                &&& after.miku_tower == bar.miku_tower
                &&& after.rin_tower == bar.rin_tower
                &&& after.luka_tower == bar.luka_tower
            }
            &&& layout.spec_cell_for_mouse(mouse.position) is None ==> after == bar && after_mouse == mouse
            &&& (layout.spec_cell_for_mouse(mouse.position) matches Some((_r, _c, rect))
                && layout.spec_cell_rect().spec_contains(rect.x + 1, rect.y + 1) && mouse.left_clicked
                && !mouse.right_clicked && bar.current_action is None && bar.money >= bar.miku_tower.cost) ==> {
                &&& after.current_action == Some(
                    PlayerAction::PlaceTower(
                        Tower { sprite_info: bar.miku_tower.sprite_info.spec_advance(ticks), ..bar.miku_tower },
                    ),
                )
                &&& after.money == bar.money - bar.miku_tower.cost
                &&& !after_mouse.left_clicked
                &&& after_mouse.position == mouse.position
            }
        }),
{
}

/// `|a - b|`.
pub open spec fn spec_dist(a: int, b: int) -> int {
    if a >= b {
        a - b
    } else {
        b - a
    }
}

/// The smaller of two numbers.
pub open spec fn spec_min(a: int, b: int) -> int {
    if a < b {
        a
    } else {
        b
    }
}

/// The first row (or column) a turret's range box covers.
pub open spec fn range_lo(center: int, range: int) -> int {
    sat_sub(center, range)
}

/// The last row (or column) a turret's range box covers, clipped at `max`.
pub open spec fn range_hi(center: int, range: int, max: int) -> int {
    spec_min(center + range, max)
}

/// The cell `(r, c)` is within a turret's reach: inside the clipped box
/// around the center and no more than `range` steps from it, counting rows
/// and columns.
pub open spec fn in_turret_range(
    center_r: int,
    center_c: int,
    range: int,
    max_rows: int,
    max_columns: int,
    r: int,
    c: int,
) -> bool {
    &&& range_lo(center_r, range) <= r <= range_hi(center_r, range, max_rows)
    &&& range_lo(center_c, range) <= c <= range_hi(center_c, range, max_columns)
    &&& spec_dist(center_c, c) + spec_dist(center_r, r) <= range
}

/// The arithmetic of `turret_range_iter` stays within `usize`.
pub open spec fn turret_range_ok(
    center_r: usize,
    center_c: usize,
    range: usize,
    max_rows: usize,
    max_columns: usize,
) -> bool {
    &&& center_r + range <= usize::MAX
    &&& center_c + range <= usize::MAX
    &&& forall|r: int, c: int|
        range_lo(center_r as int, range as int) <= r <= range_hi(center_r as int, range as int, max_rows as int)
            && range_lo(center_c as int, range as int) <= c <= range_hi(center_c as int, range as int, max_columns as int)
            ==> #[trigger] spec_dist(center_c as int, c) + #[trigger] spec_dist(center_r as int, r) <= usize::MAX
}

/// `a` comes before `b` in row major order.
pub open spec fn lex_lt(a: (int, int), b: (int, int)) -> bool {
    a.0 < b.0 || (a.0 == b.0 && a.1 < b.1)
}

/// `keys` lists each cell within a turret's reach once, row by row and
/// each row left to right.
pub open spec fn lists_turret_range(
    keys: Seq<(usize, usize)>,
    center_r: usize,
    center_c: usize,
    range: usize,
    max_rows: usize,
    max_columns: usize,
) -> bool {
    &&& forall|i: int|
        0 <= i < keys.len() ==> in_turret_range(
            center_r as int,
            center_c as int,
            range as int,
            max_rows as int,
            max_columns as int,
            (#[trigger] keys[i]).0 as int,
            keys[i].1 as int,
        )
    &&& forall|r: int, c: int|
        #[trigger] in_turret_range(
            center_r as int,
            center_c as int,
            range as int,
            max_rows as int,
            max_columns as int,
            r,
            c,
        ) ==> keys.contains((r as usize, c as usize))
    &&& sorted_keys(keys)
}

/// The keys come in row major order, none twice.
pub open spec fn sorted_keys(keys: Seq<(usize, usize)>) -> bool {
    forall|i: int, j: int|
        0 <= i < j < keys.len() ==> lex_lt((keys[i].0 as int, keys[i].1 as int), (keys[j].0 as int, keys[j].1 as int))
}

/// The cells within a turret's reach, in the order `turret_range_iter`
/// lists them.
pub open spec fn spec_turret_keys(
    center_r: usize,
    center_c: usize,
    range: usize,
    max_rows: usize,
    max_columns: usize,
) -> Seq<(usize, usize)> {
    choose|keys: Seq<(usize, usize)>| lists_turret_range(keys, center_r, center_c, range, max_rows, max_columns)
}

/// Two sorted lists of the same cells are the same list.
pub proof fn lemma_sorted_keys_unique(a: Seq<(usize, usize)>, b: Seq<(usize, usize)>)
    requires
        sorted_keys(a),
        sorted_keys(b),
        forall|x: (usize, usize)| a.contains(x) <==> b.contains(x),
    ensures
        a == b,
    decreases a.len(),
{
    if a.len() == 0 {
        if b.len() > 0 {
            assert(b.contains(b[0]));
        }
        assert(a =~= b);
    } else {
        assert(a.contains(a[0]));
        assert(b.contains(a[0]));
        assert(b.len() > 0);
        assert(b.contains(b[0]));
        assert(a.contains(b[0]));
        let ia = choose|i: int| 0 <= i < a.len() && a[i] == b[0];
        let ib = choose|i: int| 0 <= i < b.len() && b[i] == a[0];
        if ia > 0 {
            assert(lex_lt((a[0].0 as int, a[0].1 as int), (a[ia].0 as int, a[ia].1 as int)));
            if ib > 0 {
                assert(lex_lt((b[0].0 as int, b[0].1 as int), (b[ib].0 as int, b[ib].1 as int)));
            }
        }
        assert(a[0] == b[0]);
        let a1 = a.drop_first();
        let b1 = b.drop_first();
        assert forall|x: (usize, usize)| a1.contains(x) <==> b1.contains(x) by {
            if a1.contains(x) {
                let i = choose|i: int| 0 <= i < a1.len() && a1[i] == x;
                assert(a[i + 1] == x);
                assert(lex_lt((a[0].0 as int, a[0].1 as int), (a[i + 1].0 as int, a[i + 1].1 as int)));
                assert(b.contains(x));
                let j = choose|j: int| 0 <= j < b.len() && b[j] == x;
                assert(j != 0);
                assert(b1[j - 1] == x);
            }
            if b1.contains(x) {
                let i = choose|i: int| 0 <= i < b1.len() && b1[i] == x;
                assert(b[i + 1] == x);
                assert(lex_lt((b[0].0 as int, b[0].1 as int), (b[i + 1].0 as int, b[i + 1].1 as int)));
                assert(a.contains(x));
                let j = choose|j: int| 0 <= j < a.len() && a[j] == x;
                assert(j != 0);
                assert(a1[j - 1] == x);
            }
        }
        lemma_sorted_keys_unique(a1, b1);
        assert(a.len() == b.len());
        assert forall|i: int| 0 <= i < a.len() implies a[i] == b[i] by {
            if i > 0 {
                assert(a[i] == a1[i - 1]);
                assert(b[i] == b1[i - 1]);
            }
        }
        assert(a =~= b);
    }
}

/// Two lists of the cells within a turret's reach are the same list.
proof fn lemma_turret_keys_unique(
    a: Seq<(usize, usize)>,
    b: Seq<(usize, usize)>,
    center_r: usize,
    center_c: usize,
    range: usize,
    max_rows: usize,
    max_columns: usize,
)
    requires
        lists_turret_range(a, center_r, center_c, range, max_rows, max_columns),
        lists_turret_range(b, center_r, center_c, range, max_rows, max_columns),
    ensures
        a == b,
{
    assert forall|x: (usize, usize)| a.contains(x) <==> b.contains(x) by {
        if a.contains(x) {
            let i = choose|i: int| 0 <= i < a.len() && a[i] == x;
            assert(in_turret_range(center_r as int, center_c as int, range as int, max_rows as int, max_columns as int, a[i].0 as int, a[i].1 as int));
        }
        if b.contains(x) {
            let i = choose|i: int| 0 <= i < b.len() && b[i] == x;
            assert(in_turret_range(center_r as int, center_c as int, range as int, max_rows as int, max_columns as int, b[i].0 as int, b[i].1 as int));
        }
    }
    lemma_sorted_keys_unique(a, b);
}

/// The cells within a turret's reach, row by row and each row left to right,
/// every such cell once.
pub fn turret_range_iter(
    center_r: usize,
    center_c: usize,
    range: usize,
    max_rows: usize,
    max_columns: usize,
) -> (keys: Vec<(usize, usize)>)
    requires
        turret_range_ok(center_r, center_c, range, max_rows, max_columns),
    ensures
        forall|i: int|
            0 <= i < keys@.len() ==> in_turret_range(
                center_r as int,
                center_c as int,
                range as int,
                max_rows as int,
                max_columns as int,
                (#[trigger] keys@[i]).0 as int,
                keys@[i].1 as int,
            ),
        forall|r: int, c: int|
            #[trigger] in_turret_range(
                center_r as int,
                center_c as int,
                range as int,
                max_rows as int,
                max_columns as int,
                r,
                c,
            ) ==> keys@.contains((r as usize, c as usize)),
        forall|i: int, j: int|
            0 <= i < j < keys@.len() ==> lex_lt(
                (keys@[i].0 as int, keys@[i].1 as int),
                (keys@[j].0 as int, keys@[j].1 as int),
            ),
        keys@ == spec_turret_keys(center_r, center_c, range, max_rows, max_columns),
{
    let cr: usize = center_r;
    let cc: usize = center_c;
    let r_lo: usize = cr.saturating_sub(range);
    let r_hi: usize = if cr + range < max_rows {
        cr + range
    } else {
        max_rows
    };
    let c_lo: usize = cc.saturating_sub(range);
    let c_hi: usize = if cc + range < max_columns {
        cc + range
    } else {
        max_columns
    };
    let mut keys: Vec<(usize, usize)> = Vec::new();
    let mut r: usize = r_lo;
    let mut more_rows: bool = r_lo <= r_hi;
    while more_rows
        invariant
            turret_range_ok(center_r, center_c, range, max_rows, max_columns),
            cr == center_r,
            cc == center_c,
            r_lo == range_lo(cr as int, range as int),
            r_hi == range_hi(cr as int, range as int, max_rows as int),
            c_lo == range_lo(cc as int, range as int),
            c_hi == range_hi(cc as int, range as int, max_columns as int),
            more_rows ==> r_lo <= r <= r_hi,
            forall|i: int| 0 <= i < keys@.len() ==> #[trigger] in_turret_range(cr as int, cc as int, range as int, max_rows as int, max_columns as int, keys@[i].0 as int, keys@[i].1 as int),
            forall|i: int| 0 <= i < keys@.len() ==> (more_rows ==> (#[trigger] keys@[i]).0 < r),
            forall|r2: int, c2: int|
                #[trigger] in_turret_range(cr as int, cc as int, range as int, max_rows as int, max_columns as int, r2, c2) && (!more_rows || r2 < r) ==> keys@.contains((r2 as usize, c2 as usize)),
            forall|i: int, j: int|
                0 <= i < j < keys@.len() ==> lex_lt(
                    (keys@[i].0 as int, keys@[i].1 as int),
                    (keys@[j].0 as int, keys@[j].1 as int),
                ),
        decreases r_hi - r + (if more_rows {
            1int
        } else {
            0
        }),
    {
        let mut c: usize = c_lo;
        let mut more_cols: bool = c_lo <= c_hi;
        let ghost keys_before = keys@;
        while more_cols
            invariant
                turret_range_ok(center_r, center_c, range, max_rows, max_columns),
                cr == center_r,
                cc == center_c,
                r_lo == range_lo(cr as int, range as int),
                r_hi == range_hi(cr as int, range as int, max_rows as int),
                c_lo == range_lo(cc as int, range as int),
                c_hi == range_hi(cc as int, range as int, max_columns as int),
                r_lo <= r <= r_hi,
                more_cols ==> c_lo <= c <= c_hi,
                forall|i: int| 0 <= i < keys@.len() ==> #[trigger] in_turret_range(cr as int, cc as int, range as int, max_rows as int, max_columns as int, keys@[i].0 as int, keys@[i].1 as int),
                forall|i: int|
                    0 <= i < keys@.len() ==> (more_cols ==> lex_lt(
                        ((#[trigger] keys@[i]).0 as int, keys@[i].1 as int),
                        (r as int, c as int),
                    )) && (!more_cols ==> keys@[i].0 <= r),
                forall|r2: int, c2: int|
                    #[trigger] in_turret_range(cr as int, cc as int, range as int, max_rows as int, max_columns as int, r2, c2) && (r2 < r || (r2 == r && (!more_cols || c2 < c))) ==> keys@.contains(
                        (r2 as usize, c2 as usize),
                    ),
                forall|i: int, j: int|
                    0 <= i < j < keys@.len() ==> lex_lt(
                        (keys@[i].0 as int, keys@[i].1 as int),
                        (keys@[j].0 as int, keys@[j].1 as int),
                    ),
            decreases c_hi - c + (if more_cols {
                1int
            } else {
                0
            }),
        {
            let x: usize = if cc > c {
                cc - c
            } else {
                c - cc
            };
            let y: usize = if cr > r {
                cr - r
            } else {
                r - cr
            };
            proof {
                assert(spec_dist(cc as int, c as int) + spec_dist(cr as int, r as int) <= usize::MAX);
            }
            if x + y <= range {
                let ghost old_keys = keys@;
                keys.push((r, c));
                proof {
                    assert forall|r2: int, c2: int|
                        #[trigger] in_turret_range(cr as int, cc as int, range as int, max_rows as int, max_columns as int, r2, c2) && (r2 < r || (r2 == r && c2 <= c)) implies keys@.contains(
                        (r2 as usize, c2 as usize),
                    ) by {
                        if r2 == r && c2 == c {
                            assert(keys@[old_keys.len() as int] == (r, c));
                        } else {
                            assert(old_keys.contains((r2 as usize, c2 as usize)));
                            let k = choose|k: int| 0 <= k < old_keys.len() && old_keys[k] == (r2 as usize, c2 as usize);
                            assert(keys@[k] == old_keys[k]);
                        }
                    }
                }
            }
            if c == c_hi {
                more_cols = false;
            } else {
                c = c + 1;
            }
        }
        if r == r_hi {
            more_rows = false;
        } else {
            r = r + 1;
        }
    }
    proof {
        assert(lists_turret_range(keys@, center_r, center_c, range, max_rows, max_columns));
        lemma_turret_keys_unique(
            keys@,
            spec_turret_keys(center_r, center_c, range, max_rows, max_columns),
            center_r,
            center_c,
            range,
            max_rows,
            max_columns,
        );
    }
    keys
}

/// The key under which a cell's turrets are listed: row and column side by
/// side in one number.
pub open spec fn spec_cell_key(r: int, c: int) -> int {
    r * 0x1_0000_0000_0000_0000 + c
}

pub fn cell_key(r: usize, c: usize) -> (k: u128)
    ensures
        k == spec_cell_key(r as int, c as int),
{
    proof {
        assert(r * 0x1_0000_0000_0000_0000 + c <= u128::MAX) by (nonlinear_arith)
            requires
                r <= 0xffff_ffff_ffff_ffff,
                c <= 0xffff_ffff_ffff_ffff,
        ;
    }
    r as u128 * 0x1_0000_0000_0000_0000u128 + c as u128
}

/// Different cells have different keys.
pub proof fn lemma_cell_key_injective(r1: usize, c1: usize, r2: usize, c2: usize)
    requires
        spec_cell_key(r1 as int, c1 as int) == spec_cell_key(r2 as int, c2 as int),
    ensures
        r1 == r2,
        c1 == c2,
{
    let b: int = 0x1_0000_0000_0000_0000;
    vstd::arithmetic::div_mod::lemma_fundamental_div_mod_converse(spec_cell_key(r1 as int, c1 as int), b, r1 as int, c1 as int);
    vstd::arithmetic::div_mod::lemma_fundamental_div_mod_converse(spec_cell_key(r2 as int, c2 as int), b, r2 as int, c2 as int);
}

/// The level scene.
pub struct LevelScene {
    pub base: Base,
    pub towers: Vec<Tower>,
    pub path: Vec<Rect>,
    pub grass: SpriteInfo,
    pub road: SpriteInfo,
    pub highlight: SpriteInfo,
    pub top_bar: TopBar,
    pub enemies: Vec<Enemy>,
    pub cell_to_turrets: HashMap<u128, Vec<usize>>,
    pub projectiles: Vec<Projectile>,
    pub enemy_spawner: EnemySpawner,
}

impl Default for TopBar {
    fn default() -> (t: TopBar)
        ensures
            t == (TopBar {
                miku_tower: Tower::spec_variant(Rect { x: 0, y: 0, width: 32, height: 32 }, 224, 8, 20, 5, 30),
                rin_tower: Tower::spec_variant(Rect { x: 1, y: 0, width: 32, height: 32 }, 288, 4, 15, 3, 15),
                luka_tower: Tower::spec_variant(Rect { x: 2, y: 0, width: 32, height: 32 }, 352, 16, 30, 15, 60),
                current_action: None,
                money: 50,
                defeated: 0,
            }),
            t.wf(),
    {
        TopBar {
            miku_tower: Tower::miku(Rect::new(0, 0, 32, 32)),
            rin_tower: Tower::rin(Rect::new(1, 0, 32, 32)),
            luka_tower: Tower::luka(Rect::new(2, 0, 32, 32)),
            current_action: None,
            money: 50,
            defeated: 0,
        }
    }
}

/// The enemies' path goes down column 27 to row 16, then left along row 16
/// to column 4.
pub open spec fn on_path(c: int, r: int) -> bool {
    (r == 16 && 3 < c < 28) || (r < 16 && c == 27)
}

/// The path tile at column `c` and row `r`.
pub open spec fn path_tile(c: int, r: int) -> Rect {
    Rect { x: c as isize, y: r as isize, width: 40, height: 40 }
}

/// The path tiles of column `c` among its first `rows` rows, top to bottom.
pub open spec fn column_tiles(c: int, rows: nat) -> Seq<Rect>
    decreases rows,
{
    if rows == 0 {
        Seq::empty()
    } else {
        column_tiles(c, (rows - 1) as nat) + if on_path(c, rows - 1) {
            seq![path_tile(c, rows - 1)]
        } else {
            Seq::empty()
        }
    }
}

/// The path tiles of the rightmost `n` of the 32 columns, right to left.
pub open spec fn path_columns(n: nat) -> Seq<Rect>
    decreases n,
{
    if n == 0 {
        Seq::empty()
    } else {
        path_columns((n - 1) as nat) + column_tiles(32 - n, 18)
    }
}

/// The path: down column 27 from row 0 to row 16, then left along row 16
/// from column 26 to column 4.
pub open spec fn spec_initial_path() -> Seq<Rect> {
    Seq::new(
        40,
        |i: int|
            if i < 17 {
                path_tile(27, i)
            } else {
                path_tile(43 - i, 16)
            },
    )
}

/// Listing the path tiles of the 32 columns of 18 rows, column by column
/// from the right and each column from the top, gives the path.
proof fn lemma_path_columns_is_path()
    ensures
        path_columns(32) == spec_initial_path(),
{
    lemma_path_columns_prefix(32);
    assert(spec_initial_path().take(40) =~= spec_initial_path());
}

/// How many path tiles the rightmost `n` columns hold.
spec fn path_prefix_len(n: int) -> int {
    if n <= 4 {
        0
    } else if n <= 28 {
        n + 12
    } else {
        40
    }
}

/// The path tiles of column `c` among its first `rows` rows.
proof fn lemma_column_tiles_closed(c: int, rows: nat)
    requires
        rows <= 18,
    ensures
        c == 27 ==> column_tiles(c, rows) =~= Seq::new(
            if rows <= 17 {
                rows
            } else {
                17nat
            },
            |r: int| path_tile(27, r),
        ),
        3 < c < 27 ==> column_tiles(c, rows) =~= if rows > 16 {
            seq![path_tile(c, 16)]
        } else {
            Seq::<Rect>::empty()
        },
        (c <= 3 || c >= 28) ==> column_tiles(c, rows) =~= Seq::<Rect>::empty(),
    decreases rows,
{
    if rows > 0 {
        lemma_column_tiles_closed(c, (rows - 1) as nat);
    }
}

/// The rightmost `n` columns list the first `path_prefix_len(n)` tiles of
/// the path.
proof fn lemma_path_columns_prefix(n: nat)
    requires
        n <= 32,
    ensures
        path_columns(n) =~= spec_initial_path().take(path_prefix_len(n as int)),
    decreases n,
{
    if n > 0 {
        lemma_path_columns_prefix((n - 1) as nat);
        let c = 32 - n;
        lemma_column_tiles_closed(c, 18);
        let p = spec_initial_path();
        assert(path_columns(n) == path_columns((n - 1) as nat) + column_tiles(c, 18));
        if n == 5 {
            assert(p.take(17) =~= p.take(0) + column_tiles(27, 18));
        } else if 6 <= n <= 28 {
            let k = path_prefix_len(n - 1);
            assert(p[k] == path_tile(c, 16));
            assert(p.take(k + 1) =~= p.take(k) + column_tiles(c, 18));
        }
    } else {
        assert(spec_initial_path().take(0) =~= Seq::<Rect>::empty());
    }
}

/// The path is not empty: column 27 starts it at row 0.
pub proof fn lemma_path_not_empty()
    ensures
        spec_initial_path().len() > 0,
{
}

impl LevelScene {
    pub fn initial_path() -> (path: Vec<Rect>)
        ensures
            path@ == spec_initial_path(),
    {
        let mut path: Vec<Rect> = Vec::new();
        let mut n: usize = 0;
        while n < 32
            invariant
                n <= 32,
                path@ == path_columns(n as nat),
            decreases 32 - n,
        {
            let c: isize = 31 - n as isize;
            let ghost before = path@;
            let mut r: isize = 0;
            while r < 18
                invariant
                    0 <= r <= 18,
                    c == 32 - (n + 1),
                    path@ == before + column_tiles(c as int, r as nat),
                decreases 18 - r,
            {
                if r == 16 && c > 3 && c < 28 {
                    path.push(Rect::new(c, r, 40, 40));
                } else if r < 16 && c == 27 {
                    path.push(Rect::new(c, r, 40, 40));
                }
                proof {
                    assert(column_tiles(c as int, (r + 1) as nat) == column_tiles(c as int, r as nat) + if on_path(c as int, r as int) {
                        seq![path_tile(c as int, r as int)]
                    } else {
                        Seq::<Rect>::empty()
                    });
                }
                r = r + 1;
            }
            n = n + 1;
        }
        proof {
            lemma_path_columns_is_path();
        }
        path
    }
}

/// The turrets listed for a key: none where the key is absent.
pub open spec fn turrets_at(m: Map<u128, Vec<usize>>, k: u128) -> Seq<usize> {
    if m.contains_key(k) {
        m[k]@
    } else {
        Seq::empty()
    }
}

/// The number the cell keys put a row's count in.
pub open spec fn key_base() -> int {
    0x1_0000_0000_0000_0000
}

/// The tower reaches the cell of key `k`, on the level's grid of 18 rows
/// and 32 columns.
pub open spec fn tower_covers(t: Tower, k: int) -> bool {
    in_turret_range(
        t.position.y as usize as int,
        t.position.x as usize as int,
        t.range as int,
        18,
        32,
        k / key_base(),
        k % key_base(),
    )
}

/// Two towers stand on the same cell.
pub open spec fn same_cell(a: Tower, b: Tower) -> bool {
    a.position.x == b.position.x && a.position.y == b.position.y
}

/// A tower placed on the level: below the menu row, at a column of the
/// grid, with some reach.
pub open spec fn placed_ok(t: Tower) -> bool {
    &&& 0 < t.position.y
    &&& 0 <= t.position.x
    &&& t.range > 0
    &&& t.sprite_info.wf()
}

/// The map lists under each cell key the towers that reach that cell, each
/// by its index.
pub open spec fn turret_map_matches(m: Map<u128, Vec<usize>>, towers: Seq<Tower>) -> bool {
    forall|k: u128, i: int|
        0 <= i < towers.len() ==> (#[trigger] turrets_at(m, k).contains(i as usize) <==> tower_covers(
            #[trigger] towers[i],
            k as int,
        ))
}

impl LevelScene {
    /// What the level keeps true between ticks.
    pub open spec fn wf(&self) -> bool {
        &&& self.base.sprite_info.wf()
        &&& self.grass.wf()
        &&& self.road.wf()
        &&& self.highlight.wf()
        &&& self.top_bar.wf()
        &&& self.path@ == spec_initial_path()
        &&& forall|i: int| 0 <= i < self.enemies@.len() ==> (#[trigger] self.enemies@[i]).wf()
        &&& forall|i: int| 0 <= i < self.enemies@.len() ==> (#[trigger] self.enemies@[i]).path_index < self.path@.len()
        &&& forall|i: int| 0 <= i < self.towers@.len() ==> placed_ok(#[trigger] self.towers@[i])
        &&& forall|i: int, j: int|
            0 <= i < j < self.towers@.len() ==> !same_cell(#[trigger] self.towers@[i], #[trigger] self.towers@[j])
        &&& forall|i: int| 0 <= i < self.projectiles@.len() ==> (#[trigger] self.projectiles@[i]).sprite_info.wf()
        &&& forall|k: u128, j: int|
            self.cell_to_turrets@.contains_key(k) && 0 <= j < self.cell_to_turrets@[k]@.len()
                ==> #[trigger] self.cell_to_turrets@[k]@[j] < self.towers@.len()
        &&& turret_map_matches(self.cell_to_turrets@, self.towers@)
        &&& self.enemy_spawner.spawn_in_ticks >= 5
    }
}

impl LevelScene {
    /// The level as it starts: a fresh base, no towers, one enemy on the
    /// field, an empty turret map, no shots, the first round's spawner, the
    /// menu with its three towers and fifty to spend, and every sprite on its
    /// first frame.
    pub open spec fn spec_is_initial(&self) -> bool {
        &&& self.wf()
        &&& self.base.position == (Rect { x: 3, y: 16, width: 32, height: 32 })
        &&& self.base.health == (Health { current: 10, max: 10 })
        &&& self.towers@.len() == 0
        &&& self.enemies@ == seq![Enemy::spec_teto(Rect { x: 27, y: 9, width: 32, height: 32 })]
        &&& self.cell_to_turrets@ == Map::<u128, Vec<usize>>::empty()
        &&& self.projectiles@.len() == 0
        &&& self.enemy_spawner == (EnemySpawner {
            ready_state: ReadyState::Cooldown { wait_for: 120, ticks_waited: 0 },
            enemies_per_round: 10,
            spawn_in_ticks: 120,
            round: 0,
            spawned: 0,
        })
        &&& self.top_bar == (TopBar {
            miku_tower: Tower::spec_variant(Rect { x: 0, y: 0, width: 32, height: 32 }, 224, 8, 20, 5, 30),
            rin_tower: Tower::spec_variant(Rect { x: 1, y: 0, width: 32, height: 32 }, 288, 4, 15, 3, 15),
            luka_tower: Tower::spec_variant(Rect { x: 2, y: 0, width: 32, height: 32 }, 352, 16, 30, 15, 60),
            current_action: None,
            money: 50,
            defeated: 0,
        })
        &&& self.grass == (SpriteInfo {
            start_x: 64,
            start_y: 0,
            width: 32,
            height: 32,
            frames: 1,
            current_frame: 0,
            framerate_per_second: 60,
            delta: 0,
        })
        &&& self.road == (SpriteInfo {
            start_x: 32,
            start_y: 0,
            width: 32,
            height: 32,
            frames: 1,
            current_frame: 0,
            framerate_per_second: 60,
            delta: 0,
        })
        &&& self.highlight == (SpriteInfo {
            start_x: 96,
            start_y: 0,
            width: 32,
            height: 32,
            frames: 4,
            current_frame: 0,
            framerate_per_second: 4,
            delta: 0,
        })
        &&& self.base.sprite_info == (SpriteInfo {
            start_x: 0,
            start_y: 0,
            width: 71,
            height: 54,
            frames: 6,
            current_frame: 0,
            framerate_per_second: 10,
            delta: 0,
        })
    }
}

impl Default for LevelScene {
    fn default() -> (s: LevelScene)
        ensures
            s.spec_is_initial(),
    {
        let mut enemies: Vec<Enemy> = Vec::new();
        enemies.push(Enemy::teto(Rect::new(27, 9, 32, 32)));
        let s = LevelScene {
            base: Base::default(),
            towers: Vec::new(),
            path: LevelScene::initial_path(),
            grass: sprite_info_grass(),
            road: sprite_info_road(),
            highlight: sprite_info_highlight(),
            top_bar: TopBar::default(),
            enemies,
            cell_to_turrets: HashMap::new(),
            projectiles: Vec::new(),
            enemy_spawner: EnemySpawner::new(10, 120),
        };
        proof {
            lemma_path_not_empty();
            assert(s.enemies@ =~= seq![Enemy::spec_teto(Rect { x: 27, y: 9, width: 32, height: 32 })]);
        }
        s
    }
}

/// One of the first `n` cells listed has key `k`.
pub open spec fn keys_prefix_has(keys: Seq<(usize, usize)>, n: int, k: int) -> bool {
    exists|j: int| 0 <= j < n && #[trigger] spec_cell_key(keys[j].0 as int, keys[j].1 as int) == k
}

/// The key of a listed cell decodes back to the cell.
proof fn lemma_cell_key_decodes(r: usize, c: usize)
    ensures
        spec_cell_key(r as int, c as int) / key_base() == r,
        spec_cell_key(r as int, c as int) % key_base() == c,
{
    vstd::arithmetic::div_mod::lemma_fundamental_div_mod_converse(
        spec_cell_key(r as int, c as int),
        key_base(),
        r as int,
        c as int,
    );
}

/// The cells a small tower reaches keep the arithmetic of
/// `turret_range_iter` within bounds.
proof fn lemma_small_turret_range_ok(cr: usize, cc: usize, range: usize)
    requires
        cr + range <= usize::MAX,
        cc + range <= usize::MAX,
        range <= 0x10000,
    ensures
        turret_range_ok(cr, cc, range, 18, 32),
{
    assert forall|r: int, c: int|
        range_lo(cr as int, range as int) <= r <= range_hi(cr as int, range as int, 18)
            && range_lo(cc as int, range as int) <= c <= range_hi(cc as int, range as int, 32)
        implies #[trigger] spec_dist(cc as int, c) + #[trigger] spec_dist(cr as int, r) <= usize::MAX by {
    }
}

impl LevelScene {
    /// Places a tower: it joins the towers, and is listed under every cell
    /// it reaches.  Its row and column are read as `usize`, and the reach
    /// added to them must fit, as `turret_range_iter` adds them.
    pub fn add_tower(&mut self, tower: Tower)
        requires
            tower.position.y as usize + tower.range <= usize::MAX,
            tower.position.x as usize + tower.range <= usize::MAX,
        ensures
            final(self).towers@ == old(self).towers@.push(tower),
            old(self).towers@.len() <= usize::MAX,
            forall|k: u128|
                #[trigger] turrets_at(final(self).cell_to_turrets@, k) == if tower_covers(tower, k as int) {
                    turrets_at(old(self).cell_to_turrets@, k).push(old(self).towers@.len() as usize)
                } else {
                    turrets_at(old(self).cell_to_turrets@, k)
                },
            forall|k: u128|
                #[trigger] final(self).cell_to_turrets@.contains_key(k) == (old(self).cell_to_turrets@.contains_key(k)
                    || tower_covers(tower, k as int)),
            final(self).base == old(self).base,
            final(self).path@ == old(self).path@,
            final(self).grass == old(self).grass,
            final(self).road == old(self).road,
            final(self).highlight == old(self).highlight,
            final(self).top_bar == old(self).top_bar,
            final(self).enemies@ == old(self).enemies@,
            final(self).projectiles@ == old(self).projectiles@,
            final(self).enemy_spawner == old(self).enemy_spawner,
    {
        broadcast use vstd::std_specs::hash::group_hash_axioms;

        let idx: usize = self.towers.len();
        let cr: usize = tower.position.y as usize;
        let cc: usize = tower.position.x as usize;
        let range: usize = tower.range as usize;
        proof {
            lemma_small_turret_range_ok(cr, cc, range);
        }
        let keys: Vec<(usize, usize)> = turret_range_iter(cr, cc, range, 18, 32);
        let ghost old_map = self.cell_to_turrets@;
        let mut i: usize = 0;
        while i < keys.len()
            invariant
                i <= keys@.len(),
                idx == old(self).towers@.len(),
                old_map == old(self).cell_to_turrets@,
                self.towers@ == old(self).towers@,
                forall|a: int, b: int|
                    0 <= a < b < keys@.len() ==> lex_lt(
                        (keys@[a].0 as int, keys@[a].1 as int),
                        (keys@[b].0 as int, keys@[b].1 as int),
                    ),
                forall|k: u128|
                    #[trigger] turrets_at(self.cell_to_turrets@, k) == if keys_prefix_has(keys@, i as int, k as int) {
                        turrets_at(old_map, k).push(idx)
                    } else {
                        turrets_at(old_map, k)
                    },
                forall|k: u128|
                    #[trigger] self.cell_to_turrets@.contains_key(k) == (old_map.contains_key(k)
                        || keys_prefix_has(keys@, i as int, k as int)),
                self.base == old(self).base,
                self.path@ == old(self).path@,
                self.grass == old(self).grass,
                self.road == old(self).road,
                self.highlight == old(self).highlight,
                self.top_bar == old(self).top_bar,
                self.enemies@ == old(self).enemies@,
                self.projectiles@ == old(self).projectiles@,
                self.enemy_spawner == old(self).enemy_spawner,
            decreases keys@.len() - i,
        {
            let (r, c) = keys[i];
            let key: u128 = cell_key(r, c);
            proof {
                assert forall|j: int| 0 <= j < i implies #[trigger] spec_cell_key(keys@[j].0 as int, keys@[j].1 as int) != key by {
                    assert(lex_lt((keys@[j].0 as int, keys@[j].1 as int), (keys@[i as int].0 as int, keys@[i as int].1 as int)));
                    if spec_cell_key(keys@[j].0 as int, keys@[j].1 as int) == key {
                        lemma_cell_key_injective(keys@[j].0, keys@[j].1, r, c);
                    }
                }
                assert(!keys_prefix_has(keys@, i as int, key as int));
            }
            let ghost before = self.cell_to_turrets@;
            let mut list: Vec<usize> = match self.cell_to_turrets.remove(&key) {
                Some(v) => v,
                None => Vec::new(),
            };
            proof {
                assert(list@ == turrets_at(before, key));
            }
            list.push(idx);
            let ghost list_view = list@;
            let ghost removed = self.cell_to_turrets@;
            self.cell_to_turrets.insert(key, list);
            proof {
                assert(removed == before.remove(key));
                assert(self.cell_to_turrets@ == removed.insert(key, list));
                assert(turrets_at(self.cell_to_turrets@, key) == list_view);
                assert(forall|k: u128| k != key ==> #[trigger] turrets_at(self.cell_to_turrets@, k) == turrets_at(before, k));
                assert forall|k: u128| #[trigger] turrets_at(self.cell_to_turrets@, k) == if keys_prefix_has(keys@, i + 1, k as int) {
                    turrets_at(old_map, k).push(idx)
                } else {
                    turrets_at(old_map, k)
                } by {
                    if k == key {
                        assert(spec_cell_key(keys@[i as int].0 as int, keys@[i as int].1 as int) == k);
                        assert(keys_prefix_has(keys@, i + 1, k as int));
                    } else {
                        if keys_prefix_has(keys@, i + 1, k as int) {
                            let j = choose|j: int| 0 <= j < i + 1 && #[trigger] spec_cell_key(keys@[j].0 as int, keys@[j].1 as int) == k;
                            assert(j < i);
                            assert(keys_prefix_has(keys@, i as int, k as int));
                        }
                        if keys_prefix_has(keys@, i as int, k as int) {
                            let j = choose|j: int| 0 <= j < i && #[trigger] spec_cell_key(keys@[j].0 as int, keys@[j].1 as int) == k;
                            assert(keys_prefix_has(keys@, i + 1, k as int));
                        }
                    }
                }
                assert forall|k: u128| #[trigger] self.cell_to_turrets@.contains_key(k) == (old_map.contains_key(k)
                    || keys_prefix_has(keys@, i + 1, k as int)) by {
                    if k == key {
                        assert(spec_cell_key(keys@[i as int].0 as int, keys@[i as int].1 as int) == k);
                        assert(keys_prefix_has(keys@, i + 1, k as int));
                    } else {
                        if keys_prefix_has(keys@, i + 1, k as int) {
                            let j = choose|j: int| 0 <= j < i + 1 && #[trigger] spec_cell_key(keys@[j].0 as int, keys@[j].1 as int) == k;
                            assert(j < i);
                            assert(keys_prefix_has(keys@, i as int, k as int));
                        }
                        if keys_prefix_has(keys@, i as int, k as int) {
                            let j = choose|j: int| 0 <= j < i && #[trigger] spec_cell_key(keys@[j].0 as int, keys@[j].1 as int) == k;
                            assert(keys_prefix_has(keys@, i + 1, k as int));
                        }
                    }
                }
            }
            i = i + 1;
        }
        proof {
            assert forall|k: u128| #[trigger] keys_prefix_has(keys@, keys@.len() as int, k as int) == tower_covers(tower, k as int) by {
                let r = k as int / key_base();
                let c = k as int % key_base();
                if keys_prefix_has(keys@, keys@.len() as int, k as int) {
                    let j = choose|j: int| 0 <= j < keys@.len() && #[trigger] spec_cell_key(keys@[j].0 as int, keys@[j].1 as int) == k;
                    lemma_cell_key_decodes(keys@[j].0, keys@[j].1);
                    assert(keys@.contains(keys@[j]));
                }
                if tower_covers(tower, k as int) {
                    vstd::arithmetic::div_mod::lemma_fundamental_div_mod(k as int, key_base());
                    assert(in_turret_range(cr as int, cc as int, range as int, 18, 32, r, c));
                    assert(keys@.contains((r as usize, c as usize)));
                    let j = choose|j: int| 0 <= j < keys@.len() && keys@[j] == (r as usize, c as usize);
                    assert(spec_cell_key(keys@[j].0 as int, keys@[j].1 as int) == k);
                }
            }
        }
        self.towers.push(tower);
    }
}

/// Some tower stands on column `c` of row `r`.
pub open spec fn tower_at(towers: Seq<Tower>, r: int, c: int) -> bool {
    exists|i: int| 0 <= i < towers.len() && (#[trigger] towers[i]).position.x == c && towers[i].position.y == r
}

/// The tower in hand, if any.
pub open spec fn hand(action: Option<PlayerAction>) -> Option<Tower> {
    match action {
        Some(PlayerAction::PlaceTower(t)) => Some(t),
        None => None,
    }
}

/// A tower moved onto column `c` of row `r`.
pub open spec fn moved_to(t: Tower, r: int, c: int) -> Tower {
    Tower { position: Rect { x: c as isize, y: r as isize, ..t.position }, ..t }
}

/// The cell a tower in hand goes to on a left click: the cell under the
/// pointer, if it is below the menu row and free.
pub open spec fn spec_legal_cell(towers: Seq<Tower>, mouse: MouseContext, layout: GridLayout) -> Option<(usize, usize)> {
    match layout.spec_cell_for_mouse(mouse.position) {
        Some((r, c, _)) => if r > 0 && !tower_at(towers, r as int, c as int) {
            Some((r, c))
        } else {
            None
        },
        None => None,
    }
}

/// A tower in hand is placed this tick.
pub open spec fn spec_places(top_bar: TopBar, towers: Seq<Tower>, mouse: MouseContext, layout: GridLayout) -> bool {
    &&& top_bar.current_action is Some
    &&& mouse.left_clicked
    &&& spec_legal_cell(towers, mouse, layout) is Some
}

/// A tower in hand is put back this tick.
pub open spec fn spec_puts_back(top_bar: TopBar, towers: Seq<Tower>, mouse: MouseContext, layout: GridLayout) -> bool {
    &&& top_bar.current_action is Some
    &&& layout.spec_cell_for_mouse(mouse.position) is Some
    &&& mouse.right_clicked
    &&& !spec_places(top_bar, towers, mouse, layout)
}

/// Adding a tower that meets the level's rules keeps the level's
/// invariant about towers and the turret map.
proof fn lemma_add_tower_keeps_wf(
    old_towers: Seq<Tower>,
    old_map: Map<u128, Vec<usize>>,
    new_map: Map<u128, Vec<usize>>,
    tower: Tower,
)
    requires
        old_towers.len() <= usize::MAX,
        forall|i: int| 0 <= i < old_towers.len() ==> placed_ok(#[trigger] old_towers[i]),
        forall|i: int, j: int|
            0 <= i < j < old_towers.len() ==> !same_cell(#[trigger] old_towers[i], #[trigger] old_towers[j]),
        forall|k: u128, j: int|
            old_map.contains_key(k) && 0 <= j < old_map[k]@.len() ==> #[trigger] old_map[k]@[j] < old_towers.len(),
        turret_map_matches(old_map, old_towers),
        placed_ok(tower),
        !tower_at(old_towers, tower.position.y as int, tower.position.x as int),
        forall|k: u128|
            #[trigger] turrets_at(new_map, k) == if tower_covers(tower, k as int) {
                turrets_at(old_map, k).push(old_towers.len() as usize)
            } else {
                turrets_at(old_map, k)
            },
        forall|k: u128|
            #[trigger] new_map.contains_key(k) == (old_map.contains_key(k) || tower_covers(tower, k as int)),
    ensures
        ({
            let towers = old_towers.push(tower);
            &&& forall|i: int| 0 <= i < towers.len() ==> placed_ok(#[trigger] towers[i])
            &&& forall|i: int, j: int|
                0 <= i < j < towers.len() ==> !same_cell(#[trigger] towers[i], #[trigger] towers[j])
            &&& forall|k: u128, j: int|
                new_map.contains_key(k) && 0 <= j < new_map[k]@.len() ==> #[trigger] new_map[k]@[j] < towers.len()
            &&& turret_map_matches(new_map, towers)
        }),
{
    let towers = old_towers.push(tower);
    let n = old_towers.len();
    assert forall|i: int| 0 <= i < towers.len() implies placed_ok(#[trigger] towers[i]) by {
        if i < n {
            assert(towers[i] == old_towers[i]);
        }
    }
    assert forall|i: int, j: int| 0 <= i < j < towers.len() implies !same_cell(#[trigger] towers[i], #[trigger] towers[j]) by {
        assert(towers[i] == old_towers[i]);
        if j < n {
            assert(towers[j] == old_towers[j]);
        } else {
            if same_cell(towers[i], towers[j]) {
                assert(old_towers[i].position.x == tower.position.x && old_towers[i].position.y == tower.position.y);
                assert(tower_at(old_towers, tower.position.y as int, tower.position.x as int));
            }
        }
    }
    assert forall|k: u128, j: int| new_map.contains_key(k) && 0 <= j < new_map[k]@.len() implies #[trigger] new_map[k]@[j] < towers.len() by {
        assert(turrets_at(new_map, k) == new_map[k]@);
        if tower_covers(tower, k as int) {
            if j < turrets_at(old_map, k).len() {
                assert(new_map[k]@[j] == turrets_at(old_map, k)[j]);
                assert(old_map.contains_key(k));
                assert(old_map[k]@[j] < n);
            }
        } else {
            assert(old_map.contains_key(k));
            assert(old_map[k]@[j] < n);
        }
    }
    assert forall|k: u128, i: int| 0 <= i < towers.len() implies (#[trigger] turrets_at(new_map, k).contains(i as usize)
        <==> tower_covers(#[trigger] towers[i], k as int)) by {
        lemma_map_entry_after_add(old_towers, old_map, new_map, tower, k, i);
    }
}

proof fn lemma_map_entry_after_add(
    old_towers: Seq<Tower>,
    old_map: Map<u128, Vec<usize>>,
    new_map: Map<u128, Vec<usize>>,
    tower: Tower,
    k: u128,
    i: int,
)
    requires
        0 <= i <= old_towers.len(),
        old_towers.len() <= usize::MAX,
        forall|k: u128, j: int|
            old_map.contains_key(k) && 0 <= j < old_map[k]@.len() ==> #[trigger] old_map[k]@[j] < old_towers.len(),
        turret_map_matches(old_map, old_towers),
        turrets_at(new_map, k) == if tower_covers(tower, k as int) {
            turrets_at(old_map, k).push(old_towers.len() as usize)
        } else {
            turrets_at(old_map, k)
        },
    ensures
        turrets_at(new_map, k).contains(i as usize) <==> tower_covers(old_towers.push(tower)[i], k as int),
{
    let towers = old_towers.push(tower);
    let n = old_towers.len();
    let old_list = turrets_at(old_map, k);
    if i < n {
        assert(towers[i] == old_towers[i]);
        assert(old_list.contains(i as usize) <==> tower_covers(old_towers[i], k as int));
        if tower_covers(tower, k as int) {
            let new_list = old_list.push(n as usize);
            if new_list.contains(i as usize) {
                let x = choose|x: int| 0 <= x < new_list.len() && new_list[x] == i as usize;
                if x < old_list.len() {
                    assert(old_list[x] == new_list[x]);
                }
            }
            if old_list.contains(i as usize) {
                let x = choose|x: int| 0 <= x < old_list.len() && old_list[x] == i as usize;
                assert(new_list[x] == old_list[x]);
            }
        }
    } else {
        assert(towers[i] == tower);
        if tower_covers(tower, k as int) {
            let new_list = old_list.push(n as usize);
            assert(new_list[old_list.len() as int] == n as usize);
        } else {
            if old_list.contains(i as usize) {
                let x = choose|x: int| 0 <= x < old_list.len() && old_list[x] == i as usize;
                assert(old_map.contains_key(k));
                assert(old_map[k]@[x] < n);
            }
        }
    }
}

/// How handling the tower in hand changes the menu, the towers, the turret
/// map and the pointer: placing it adds it on the free cell under the
/// pointer, listed under every cell it reaches; putting it back refunds it.
pub open spec fn check_action_outcome(
    top_bar: TopBar,
    towers: Seq<Tower>,
    map: Map<u128, Vec<usize>>,
    mouse: MouseContext,
    layout: GridLayout,
    top_bar2: TopBar,
    towers2: Seq<Tower>,
    map2: Map<u128, Vec<usize>>,
    mouse2: MouseContext,
) -> bool {
    let places = spec_places(top_bar, towers, mouse, layout);
    let puts_back = spec_puts_back(top_bar, towers, mouse, layout);
    let cell = spec_legal_cell(towers, mouse, layout);
    let t = hand(top_bar.current_action);
    &&& places ==> {
        let placed = moved_to(t.unwrap(), cell.unwrap().0 as int, cell.unwrap().1 as int);
        &&& towers2 == towers.push(placed)
        &&& forall|k: u128|
            #[trigger] turrets_at(map2, k) == if tower_covers(placed, k as int) {
                turrets_at(map, k).push(towers.len() as usize)
            } else {
                turrets_at(map, k)
            }
        &&& forall|k: u128| #[trigger] map2.contains_key(k) == (map.contains_key(k) || tower_covers(placed, k as int))
        &&& top_bar2 == TopBar { current_action: None, ..top_bar }
        &&& mouse2 == MouseContext { left_clicked: false, ..mouse }
    }
    &&& puts_back ==> {
        &&& towers2 == towers
        &&& map2 == map
        &&& top_bar2 == TopBar {
            current_action: None,
            money: sat_add_u32(top_bar.money as int, t.unwrap().cost as int) as u32,
            ..top_bar
        }
        &&& mouse2 == MouseContext { right_clicked: false, ..mouse }
    }
    &&& !places && !puts_back ==> {
        &&& towers2 == towers
        &&& map2 == map
        &&& top_bar2 == top_bar
        &&& mouse2 == mouse
    }
}

impl LevelScene {
    /// Handles the tower in hand: a left click on a free cell below the
    /// menu places it there; a right click puts it back and refunds it.
    pub fn check_action(&mut self, layout: &GridLayout, game_context: &mut GameContext)
        requires
            old(self).wf(),
            layout_ok(*layout),
            !(spec_places(old(self).top_bar, old(self).towers@, old(game_context).mouse_context, *layout)
                && old(game_context).mouse_context.right_clicked),
        ensures
            final(self).wf(),
            check_action_outcome(
                old(self).top_bar,
                old(self).towers@,
                old(self).cell_to_turrets@,
                old(game_context).mouse_context,
                *layout,
                final(self).top_bar,
                final(self).towers@,
                final(self).cell_to_turrets@,
                final(game_context).mouse_context,
            ),
            final(self).base == old(self).base,
            final(self).path@ == old(self).path@,
            final(self).grass == old(self).grass,
            final(self).road == old(self).road,
            final(self).highlight == old(self).highlight,
            final(self).enemies@ == old(self).enemies@,
            final(self).projectiles@ == old(self).projectiles@,
            final(self).enemy_spawner == old(self).enemy_spawner,
            final(game_context).screen_size == old(game_context).screen_size,
            final(game_context).renderer == old(game_context).renderer,
            final(game_context).next_scene == old(game_context).next_scene,
            final(game_context).asset_loader == old(game_context).asset_loader,
            final(game_context).audio == old(game_context).audio,
            final(game_context).shutdown_flag == old(game_context).shutdown_flag,
    {
        let in_hand: Tower = match self.top_bar.current_action {
            Some(PlayerAction::PlaceTower(t)) => t,
            None => {
                return;
            },
        };
        let hit = layout.cell_for_mouse(game_context.mouse_context.position);
        let (r, c) = match hit {
            Some((r, c, _cell)) => (r, c),
            None => {
                return;
            },
        };
        proof {
            crate::grid_layout::lemma_first_hit_is_cell(
                layout.spec_cells(),
                game_context.mouse_context.position.unwrap().0 as int,
                game_context.mouse_context.position.unwrap().1 as int,
            );
            let k = choose|k: int| 0 <= k < layout.spec_cells().len() && layout.spec_cells()[k] == hit.unwrap();
            let rows = layout.rows as int;
            let cols = layout.columns as int;
            assert(k / cols < rows) by (nonlinear_arith)
                requires
                    0 <= k < rows * cols,
                    cols > 0,
            ;
            assert(0 <= k % cols < cols) by (nonlinear_arith)
                requires
                    cols > 0,
            ;
            assert(0 <= k / cols) by (nonlinear_arith)
                requires
                    0 <= k,
                    cols > 0,
            ;
        }
        let not_in_menu: bool = r > 0;
        let mut on_other_tower: bool = false;
        let mut i: usize = 0;
        while i < self.towers.len() && !on_other_tower
            invariant
                i <= self.towers@.len(),
                r < isize::MAX,
                c < isize::MAX,
                on_other_tower == exists|j: int|
                    0 <= j < i && (#[trigger] self.towers@[j]).position.x == c as int && self.towers@[j].position.y == r as int,
            decreases self.towers@.len() - i,
        {
            let t: Tower = self.towers[i];
            if t.position.x == c as isize && t.position.y == r as isize {
                on_other_tower = true;
            }
            i = i + 1;
        }
        proof {
            if !on_other_tower {
                assert forall|j: int| 0 <= j < self.towers@.len() implies !((#[trigger] self.towers@[j]).position.x == c as int
                    && self.towers@[j].position.y == r as int) by {
                }
            }
        }
        let legal_placement: bool = not_in_menu && !on_other_tower;
        if game_context.mouse_context.left_clicked && legal_placement {
            let action = self.top_bar.current_action.take();
            match action {
                Some(PlayerAction::PlaceTower(tower)) => {
                    let mut tower: Tower = tower;
                    tower.position.x = c as isize;
                    tower.position.y = r as isize;
                    let ghost old_towers = self.towers@;
                    let ghost old_map = self.cell_to_turrets@;
                    self.add_tower(tower);
                    proof {
                        lemma_add_tower_keeps_wf(old_towers, old_map, self.cell_to_turrets@, tower);
                    }
                    game_context.mouse_context.consume_left_click();
                },
                None => {},
            }
        }
        if game_context.mouse_context.right_clicked {
            let action = self.top_bar.current_action.take();
            match action {
                Some(PlayerAction::PlaceTower(tower)) => {
                    self.top_bar.refund_tower(&tower);
                    game_context.mouse_context.consume_right_click();
                },
                None => {},
            }
        }
    }
}

/// An enemy after its part of a tick: its timers run on, it walks, and it
/// attacks the base if it can.
pub open spec fn spec_enemy_step(e: Enemy, ticks: u32, path: Seq<Rect>) -> Enemy {
    e.spec_update(ticks).spec_walk(path).spec_attack(path)
}

/// The enemy attacks the base during its part of a tick.
pub open spec fn spec_enemy_attacks(e: Enemy, ticks: u32, path: Seq<Rect>) -> bool {
    e.spec_update(ticks).spec_walk(path).spec_attacks(path)
}

/// How many of the enemies attack the base this tick.
pub open spec fn count_attacks(es: Seq<Enemy>, ticks: u32, path: Seq<Rect>) -> nat
    decreases es.len(),
{
    if es.len() == 0 {
        0
    } else {
        count_attacks(es.drop_last(), ticks, path) + if spec_enemy_attacks(es.last(), ticks, path) {
            1nat
        } else {
            0nat
        }
    }
}

/// The key of the cell an enemy stands on, its position read as a row and a
/// column.
pub open spec fn enemy_key(e: Enemy) -> u128 {
    spec_cell_key(e.position.y as usize as int, e.position.x as usize as int) as u128
}

/// No tower that reaches a stepped enemy's cell is ready to shoot.  A shot
/// aims at the center of the cell `cell_rect` gives, and on the level's
/// grid that cell lies at `x == 0`, where `Rect::center` divides by zero.
pub open spec fn no_tower_fires(enemies: Seq<Enemy>, towers: Seq<Tower>, map: Map<u128, Vec<usize>>, ticks: u32, path: Seq<Rect>) -> bool {
    forall|i: int, x: int|
        0 <= i < enemies.len() && 0 <= x < turrets_at(map, enemy_key(spec_enemy_step(#[trigger] enemies[i], ticks, path))).len()
            ==> !towers[#[trigger] turrets_at(map, enemy_key(spec_enemy_step(enemies[i], ticks, path)))[x] as int].spec_can_shoot()
}

impl LevelScene {
    /// Each enemy in turn runs its timers, walks and attacks the base; the
    /// towers that reach its cell are asked to shoot.
    pub fn advance_enemies(&mut self, ticks: u32, layout: &GridLayout)
        requires
            old(self).wf(),
            layout_ok(*layout),
            no_tower_fires(old(self).enemies@, old(self).towers@, old(self).cell_to_turrets@, ticks, old(self).path@),
        ensures
            final(self).wf(),
            final(self).enemies@ == old(self).enemies@.map_values(|e: Enemy| spec_enemy_step(e, ticks, old(self).path@)),
            final(self).base == (Base {
                health: Health {
                    current: sat_sub(old(self).base.health.current as int, count_attacks(old(self).enemies@, ticks, old(self).path@) as int) as u8,
                    ..old(self).base.health
                },
                ..old(self).base
            }),
            final(self).towers@ == old(self).towers@,
            final(self).cell_to_turrets@ == old(self).cell_to_turrets@,
            final(self).projectiles@ == old(self).projectiles@,
            final(self).path@ == old(self).path@,
            final(self).grass == old(self).grass,
            final(self).road == old(self).road,
            final(self).highlight == old(self).highlight,
            final(self).top_bar == old(self).top_bar,
            final(self).enemy_spawner == old(self).enemy_spawner,
    {
        broadcast use vstd::std_specs::hash::group_hash_axioms;

        let ghost path = self.path@;
        let ghost old_enemies = self.enemies@;
        let ghost old_health = self.base.health.current;
        proof {
            lemma_path_not_empty();
        }
        let mut i: usize = 0;
        while i < self.enemies.len()
            invariant
                self.wf(),
                layout_ok(*layout),
                path == old(self).path@,
                path.len() > 0,
                self.path@ == path,
                old_enemies == old(self).enemies@,
                self.enemies@.len() == old_enemies.len(),
                i <= old_enemies.len(),
                forall|j: int| 0 <= j < i ==> self.enemies@[j] == spec_enemy_step(#[trigger] old_enemies[j], ticks, path),
                forall|j: int| i <= j < old_enemies.len() ==> self.enemies@[j] == #[trigger] old_enemies[j],
                no_tower_fires(old_enemies, self.towers@, self.cell_to_turrets@, ticks, path),
                self.towers@ == old(self).towers@,
                self.cell_to_turrets@ == old(self).cell_to_turrets@,
                self.projectiles@ == old(self).projectiles@,
                self.grass == old(self).grass,
                self.road == old(self).road,
                self.highlight == old(self).highlight,
                self.top_bar == old(self).top_bar,
                self.enemy_spawner == old(self).enemy_spawner,
                self.base == (Base {
                    health: Health {
                        current: sat_sub(old_health as int, count_attacks(old_enemies.take(i as int), ticks, path) as int) as u8,
                        ..old(self).base.health
                    },
                    ..old(self).base
                }),
            decreases old_enemies.len() - i,
        {
            let mut enemy: Enemy = self.enemies[i];
            proof {
                assert(old_enemies[i as int].wf());
                crate::lemma_sprite_advance_keeps_wf(enemy.sprite_info, ticks);
            }
            enemy.update(ticks);
            enemy.walk(&self.path);
            let attack: Option<u8> = enemy.attack(&self.path);
            if let Some(damage) = attack {
                self.base.health.damage(damage);
            }
            proof {
                assert(old_enemies.take(i + 1).drop_last() =~= old_enemies.take(i as int));
                assert(old_enemies.take(i + 1).last() == old_enemies[i as int]);
            }
            let key: u128 = cell_key(enemy.position.y as usize, enemy.position.x as usize);
            let ghost enemies_before = self.enemies@;
            let ghost base_before = self.base;
            match self.cell_to_turrets.get(&key) {
                Some(tower_indices) => {
                    let mut x: usize = 0;
                    while x < tower_indices.len()
                        invariant
                            self.wf(),
                            layout_ok(*layout),
                            self.towers@ == old(self).towers@,
                            self.cell_to_turrets@ == old(self).cell_to_turrets@,
                            self.projectiles@ == old(self).projectiles@,
                            self.path@ == path,
                            self.cell_to_turrets@.contains_key(key),
                            tower_indices@ == self.cell_to_turrets@[key]@,
                            key == enemy_key(spec_enemy_step(old_enemies[i as int], ticks, path)),
                            i < old_enemies.len(),
                            no_tower_fires(old_enemies, self.towers@, self.cell_to_turrets@, ticks, path),
                            self.enemies@ == enemies_before,
                            self.base == base_before,
                            self.grass == old(self).grass,
                            self.road == old(self).road,
                            self.highlight == old(self).highlight,
                            self.top_bar == old(self).top_bar,
                            self.enemy_spawner == old(self).enemy_spawner,
                        decreases tower_indices@.len() - x,
                    {
                        let tidx: usize = tower_indices[x];
                        proof {
                            assert(turrets_at(self.cell_to_turrets@, key)[x as int] == tidx);
                        }
                        let mut tower: Tower = self.towers[tidx];
                        if tower.can_shoot() {
                            let target: Rect = layout.cell_rect(
                                enemy.position.y as usize,
                                enemy.position.x as usize,
                            );
                            let shot: Projectile = tower.projectile(layout, target.center());
                            self.projectiles.push(shot);
                            tower.cooldown();
                            self.towers.set(tidx, tower);
                        }
                        x = x + 1;
                    }
                },
                None => {},
            }
            self.enemies.set(i, enemy);
            proof {
                assert(enemy.wf());
                assert forall|j: int| 0 <= j < self.enemies@.len() implies (#[trigger] self.enemies@[j]).wf() by {
                    if j != i {
                        assert(self.enemies@[j] == enemies_before[j]);
                    }
                }
            }
            i = i + 1;
        }
        proof {
            assert(old_enemies.take(old_enemies.len() as int) =~= old_enemies);
            assert(self.enemies@ =~= old_enemies.map_values(|e: Enemy| spec_enemy_step(e, ticks, path)));
        }
    }
}

/// The enemy stands on the cell in row `r` and column `c`.
pub open spec fn enemy_on(e: Enemy, r: usize, c: usize) -> bool {
    e.position.y as usize == r && e.position.x as usize == c
}

/// A shot of `damage` landing on a cell: the enemies standing there are hit
/// in order until one of them falls; the fallen one leaves the field.  Also
/// whether one fell.
pub open spec fn spec_hit_enemies(es: Seq<Enemy>, r: usize, c: usize, damage: u8) -> (Seq<Enemy>, bool)
    decreases es.len(),
{
    if es.len() == 0 {
        (Seq::empty(), false)
    } else {
        let (kept, done) = spec_hit_enemies(es.drop_last(), r, c, damage);
        let e = es.last();
        if done || !enemy_on(e, r, c) {
            (kept.push(e), done)
        } else {
            let hurt = Enemy {
                health: Health { current: sat_sub(e.health.current as int, damage as int) as u8, ..e.health },
                ..e
            };
            if hurt.health.current != 0 {
                (kept.push(hurt), false)
            } else {
                (kept, true)
            }
        }
    }
}

/// The outcome of the shots landing this tick, taken in order: the shots
/// still flying (as they were before the tick), the enemies, the money and
/// the defeated count.  A shot landing on a cell of the grid may fell an
/// enemy there, which pays ten and counts one more defeat; a landed shot is
/// gone, whether it hit or not.
pub open spec fn spec_resolve(
    ps: Seq<Projectile>,
    ticks: u32,
    layout: GridLayout,
    es: Seq<Enemy>,
    money: u32,
    defeated: u32,
) -> (Seq<Projectile>, Seq<Enemy>, u32, u32)
    decreases ps.len(),
{
    if ps.len() == 0 {
        (Seq::empty(), es, money, defeated)
    } else {
        let (kept, es1, m1, d1) = spec_resolve(ps.drop_last(), ticks, layout, es, money, defeated);
        let p = ps.last();
        let q = p.spec_update(ticks);
        if !q.spec_arrived() {
            (kept.push(p), es1, m1, d1)
        } else {
            match layout.spec_cell_for_mouse(Some((q.position.x, q.position.y))) {
                None => (kept, es1, m1, d1),
                Some((r, c, _)) => {
                    let (es2, fell) = spec_hit_enemies(es1, r, c, q.damage);
                    if fell {
                        (kept, es2, sat_add_u32(m1 as int, 10) as u32, sat_add_u32(d1 as int, 1) as u32)
                    } else {
                        (kept, es2, m1, d1)
                    }
                },
            }
        }
    }
}

/// Every enemy that a shot leaves on the field was on it before, as it was
/// or with fewer hit points.
pub proof fn lemma_hit_keeps_wf(es: Seq<Enemy>, r: usize, c: usize, damage: u8)
    requires
        forall|i: int| 0 <= i < es.len() ==> (#[trigger] es[i]).wf(),
    ensures
        forall|i: int| 0 <= i < spec_hit_enemies(es, r, c, damage).0.len() ==> (#[trigger] spec_hit_enemies(es, r, c, damage).0[i]).wf(),
        spec_hit_enemies(es, r, c, damage).0.len() <= es.len(),
    decreases es.len(),
{
    if es.len() > 0 {
        lemma_hit_keeps_wf(es.drop_last(), r, c, damage);
        let (kept, done) = spec_hit_enemies(es.drop_last(), r, c, damage);
        assert(es.last() == es[es.len() - 1]);
        assert forall|i: int| 0 <= i < kept.len() implies (#[trigger] kept[i]).wf() by {
        }
    }
}

/// The enemies a shot leaves on the field keep their places on the path.
proof fn lemma_hit_keeps_path_index(es: Seq<Enemy>, r: usize, c: usize, damage: u8, n: int)
    requires
        forall|i: int| 0 <= i < es.len() ==> (#[trigger] es[i]).path_index < n,
    ensures
        forall|i: int| 0 <= i < spec_hit_enemies(es, r, c, damage).0.len() ==> (#[trigger] spec_hit_enemies(
            es,
            r,
            c,
            damage,
        ).0[i]).path_index < n,
    decreases es.len(),
{
    if es.len() > 0 {
        let rest = es.drop_last();
        assert forall|i: int| 0 <= i < rest.len() implies (#[trigger] rest[i]).path_index < n by {
            assert(rest[i] == es[i]);
        }
        lemma_hit_keeps_path_index(rest, r, c, damage, n);
        assert(es.last() == es[es.len() - 1]);
    }
}

/// A landing shot never adds an enemy.
proof fn lemma_hit_shrinks(es: Seq<Enemy>, r: usize, c: usize, damage: u8)
    ensures
        spec_hit_enemies(es, r, c, damage).0.len() <= es.len(),
    decreases es.len(),
{
    if es.len() > 0 {
        lemma_hit_shrinks(es.drop_last(), r, c, damage);
    }
}

/// The shots of a tick leave no more enemies than there were, never lower
/// the defeated count, and keep only shots that have not arrived.
proof fn lemma_resolve_bounds(ps: Seq<Projectile>, ticks: u32, layout: GridLayout, es: Seq<Enemy>, money: u32, defeated: u32)
    ensures
        ({
            let (kept, es2, _m, d) = spec_resolve(ps, ticks, layout, es, money, defeated);
            &&& es2.len() <= es.len()
            &&& d >= defeated
            &&& forall|i: int| 0 <= i < kept.len() ==> !(#[trigger] kept[i]).spec_update(ticks).spec_arrived()
        }),
    decreases ps.len(),
{
    if ps.len() > 0 {
        lemma_resolve_bounds(ps.drop_last(), ticks, layout, es, money, defeated);
        let (kept, es1, m1, d1) = spec_resolve(ps.drop_last(), ticks, layout, es, money, defeated);
        let p = ps.last();
        let q = p.spec_update(ticks);
        if q.spec_arrived() {
            match layout.spec_cell_for_mouse(Some((q.position.x, q.position.y))) {
                None => {},
                Some((r, c, _)) => {
                    lemma_hit_shrinks(es1, r, c, q.damage);
                },
            }
        } else {
            assert forall|i: int| 0 <= i < kept.push(p).len() implies !(#[trigger] kept.push(p)[i]).spec_update(
                ticks,
            ).spec_arrived() by {
                if i < kept.len() {
                    assert(kept.push(p)[i] == kept[i]);
                }
            }
        }
    }
}

/// What a level tick keeps within bounds: the base never gains hit points,
/// at most one enemy joins the field, the defeated count never drops, and
/// every shot still in the air has not arrived (a shot that arrives is
/// gone in the same tick).
pub proof fn lemma_level_tick_bounds(s: LevelScene, after: LevelScene, ticks: u32, ctx: GameContext, after_ctx: GameContext)
    requires
        s.ticked(after, ticks, ctx, after_ctx),
    ensures
        after.base.health.current <= s.base.health.current,
        after.enemies@.len() <= s.enemies@.len() + 1,
        after.top_bar.defeated >= s.top_bar.defeated,
        forall|i: int| 0 <= i < after.projectiles@.len() ==> !(#[trigger] after.projectiles@[i]).spec_arrived(),
{
    let layout = spec_level_layout(ctx.screen_size);
    let es1 = spec_enemies_after_spawn(s.enemies@, s.enemy_spawner, ticks);
    let (tb1, mouse1) = s.top_bar.spec_update(ctx.mouse_context, ticks, layout);
    let es2 = es1.map_values(|e: Enemy| spec_enemy_step(e, ticks, s.path@));
    let (kept, es3, money, defeated) = spec_resolve(s.projectiles@, ticks, layout, es2, tb1.money, tb1.defeated);
    lemma_resolve_bounds(s.projectiles@, ticks, layout, es2, tb1.money, tb1.defeated);
    assert(tb1.defeated == s.top_bar.defeated);
    assert forall|i: int| 0 <= i < after.projectiles@.len() implies !(#[trigger] after.projectiles@[i]).spec_arrived() by {
        assert(kept[i].updated_as(after.projectiles@[i], ticks));
        assert(!kept[i].spec_update(ticks).spec_arrived());
    }
}

impl LevelScene {
    /// A shot lands on the cell in row `r` and column `c`.
    fn hit_enemies(&mut self, r: usize, c: usize, damage: u8)
        ensures
            final(self).enemies@ == spec_hit_enemies(old(self).enemies@, r, c, damage).0,
            final(self).top_bar == (if spec_hit_enemies(old(self).enemies@, r, c, damage).1 {
                TopBar {
                    defeated: sat_add_u32(old(self).top_bar.defeated as int, 1) as u32,
                    money: sat_add_u32(old(self).top_bar.money as int, 10) as u32,
                    ..old(self).top_bar
                }
            } else {
                old(self).top_bar
            }),
            final(self).base == old(self).base,
            final(self).towers@ == old(self).towers@,
            final(self).path@ == old(self).path@,
            final(self).grass == old(self).grass,
            final(self).road == old(self).road,
            final(self).highlight == old(self).highlight,
            final(self).cell_to_turrets@ == old(self).cell_to_turrets@,
            final(self).projectiles@ == old(self).projectiles@,
            final(self).enemy_spawner == old(self).enemy_spawner,
    {
        let mut enemies: Vec<Enemy> = Vec::new();
        std::mem::swap(&mut enemies, &mut self.enemies);
        let ghost es = enemies@;
        let mut kept: Vec<Enemy> = Vec::new();
        let mut done: bool = false;
        let mut i: usize = 0;
        while i < enemies.len()
            invariant
                enemies@ == es,
                es == old(self).enemies@,
                i <= es.len(),
                (kept@, done) == spec_hit_enemies(es.take(i as int), r, c, damage),
                self.top_bar == (if done {
                    TopBar {
                        defeated: sat_add_u32(old(self).top_bar.defeated as int, 1) as u32,
                        money: sat_add_u32(old(self).top_bar.money as int, 10) as u32,
                        ..old(self).top_bar
                    }
                } else {
                    old(self).top_bar
                }),
                self.base == old(self).base,
                self.towers@ == old(self).towers@,
                self.path@ == old(self).path@,
                self.grass == old(self).grass,
                self.road == old(self).road,
                self.highlight == old(self).highlight,
                self.cell_to_turrets@ == old(self).cell_to_turrets@,
                self.projectiles@ == old(self).projectiles@,
                self.enemy_spawner == old(self).enemy_spawner,
            decreases es.len() - i,
        {
            proof {
                assert(es.take(i + 1).drop_last() =~= es.take(i as int));
                assert(es.take(i + 1).last() == es[i as int]);
            }
            let mut enemy: Enemy = enemies[i];
            if done {
                kept.push(enemy);
            } else if enemy.position.y as usize != r || enemy.position.x as usize != c {
                kept.push(enemy);
            } else {
                enemy.health.damage(damage);
                if enemy.health.current != 0 {
                    kept.push(enemy);
                } else {
                    self.top_bar.defeated = self.top_bar.defeated.saturating_add(1);
                    self.top_bar.money = self.top_bar.money.saturating_add(10);
                    done = true;
                }
            }
            i = i + 1;
        }
        proof {
            assert(es.take(es.len() as int) =~= es);
        }
        self.enemies = kept;
    }

    /// The shots fly on; those that land hit what stands on their cell.
    pub fn resolve_projectiles<I: Interpolate>(&mut self, ticks: u32, layout: &GridLayout, interpolation: &I)
        requires
            old(self).wf(),
            layout.cells_ok(),
        ensures
            final(self).wf(),
            ({
                let (kept, es, money, defeated) = spec_resolve(
                    old(self).projectiles@,
                    ticks,
                    *layout,
                    old(self).enemies@,
                    old(self).top_bar.money,
                    old(self).top_bar.defeated,
                );
                &&& final(self).enemies@ == es
                &&& final(self).top_bar == TopBar { money, defeated, ..old(self).top_bar }
                &&& final(self).projectiles@.len() == kept.len()
                &&& forall|i: int| 0 <= i < kept.len() ==> (#[trigger] kept[i]).updated_as(final(self).projectiles@[i], ticks)
                &&& forall|i: int|
                    0 <= i < kept.len() ==> (#[trigger] kept[i]).placed_by(interpolation, final(self).projectiles@[i])
            }),
            final(self).base == old(self).base,
            final(self).towers@ == old(self).towers@,
            final(self).path@ == old(self).path@,
            final(self).grass == old(self).grass,
            final(self).road == old(self).road,
            final(self).highlight == old(self).highlight,
            final(self).cell_to_turrets@ == old(self).cell_to_turrets@,
            final(self).enemy_spawner == old(self).enemy_spawner,
    {
        let mut projectiles: Vec<Projectile> = Vec::new();
        std::mem::swap(&mut projectiles, &mut self.projectiles);
        let ghost ps = projectiles@;
        let mut kept: Vec<Projectile> = Vec::new();
        let mut i: usize = 0;
        while i < projectiles.len()
            invariant
                projectiles@ == ps,
                ps == old(self).projectiles@,
                i <= ps.len(),
                layout.cells_ok(),
                forall|j: int| 0 <= j < ps.len() ==> (#[trigger] ps[j]).sprite_info.wf(),
                forall|j: int| 0 <= j < self.enemies@.len() ==> (#[trigger] self.enemies@[j]).wf(),
                forall|j: int| 0 <= j < self.enemies@.len() ==> (#[trigger] self.enemies@[j]).path_index < self.path@.len(),
                forall|j: int| 0 <= j < kept@.len() ==> (#[trigger] kept@[j]).sprite_info.wf(),
                ({
                    let (k, es, money, defeated) = spec_resolve(
                        ps.take(i as int),
                        ticks,
                        *layout,
                        old(self).enemies@,
                        old(self).top_bar.money,
                        old(self).top_bar.defeated,
                    );
                    &&& self.enemies@ == es
                    &&& self.top_bar == TopBar { money, defeated, ..old(self).top_bar }
                    &&& kept@.len() == k.len()
                    &&& forall|j: int| 0 <= j < k.len() ==> (#[trigger] k[j]).updated_as(kept@[j], ticks)
                    &&& forall|j: int| 0 <= j < k.len() ==> (#[trigger] k[j]).placed_by(interpolation, kept@[j])
                }),
                self.base == old(self).base,
                self.towers@ == old(self).towers@,
                self.path@ == old(self).path@,
                self.grass == old(self).grass,
                self.road == old(self).road,
                self.highlight == old(self).highlight,
                self.cell_to_turrets@ == old(self).cell_to_turrets@,
                self.enemy_spawner == old(self).enemy_spawner,
            decreases ps.len() - i,
        {
            proof {
                assert(ps.take(i + 1).drop_last() =~= ps.take(i as int));
                assert(ps.take(i + 1).last() == ps[i as int]);
                crate::lemma_sprite_advance_keeps_wf(ps[i as int].sprite_info, ticks);
            }
            let ghost before = spec_resolve(
                ps.take(i as int),
                ticks,
                *layout,
                old(self).enemies@,
                old(self).top_bar.money,
                old(self).top_bar.defeated,
            );
            let mut projectile: Projectile = projectiles[i];
            projectile.update(ticks, interpolation);
            if !projectile.has_arrived() {
                kept.push(projectile);
                proof {
                    assert forall|j: int| 0 <= j < before.0.push(ps[i as int]).len() implies (#[trigger] before.0.push(ps[i as int])[j]).updated_as(kept@[j], ticks) by {
                        if j < before.0.len() {
                            assert(before.0.push(ps[i as int])[j] == before.0[j]);
                        }
                    }
                    assert forall|j: int| 0 <= j < before.0.push(ps[i as int]).len() implies (#[trigger] before.0.push(ps[i as int])[j]).placed_by(interpolation, kept@[j]) by {
                        if j < before.0.len() {
                            assert(before.0.push(ps[i as int])[j] == before.0[j]);
                        }
                    }
                }
            } else {
                let cell = layout.cell_for_mouse(Some((projectile.position.x, projectile.position.y)));
                match cell {
                    Some((r, c, _rect)) => {
                        proof {
                            lemma_hit_keeps_wf(self.enemies@, r, c, projectile.damage);
                            lemma_hit_keeps_path_index(self.enemies@, r, c, projectile.damage, self.path@.len() as int);
                        }
                        self.hit_enemies(r, c, projectile.damage);
                    },
                    None => {},
                }
            }
            i = i + 1;
        }
        proof {
            assert(ps.take(ps.len() as int) =~= ps);
        }
        self.projectiles = kept;
    }
}

/// The grid the level lays out on the screen: 18 rows of 32 columns, no
/// gaps.
pub open spec fn spec_level_layout(screen: (u32, u32)) -> GridLayout {
    GridLayout {
        area: Rect { x: 0, y: 0, width: screen.0 as isize, height: screen.1 as isize },
        rows: 18,
        columns: 32,
        cell_gap: 0,
    }
}

/// The level's grid keeps its arithmetic within bounds, whatever the
/// screen's size.
pub proof fn lemma_level_layout_ok(screen: (u32, u32))
    ensures
        layout_ok(spec_level_layout(screen)),
{
    let g = spec_level_layout(screen);
    let w = g.spec_cell_size().0;
    let h = g.spec_cell_size().1;
    let mw = crate::grid_layout::max0(screen.0 as isize as int);
    let mh = crate::grid_layout::max0(screen.1 as isize as int);
    assert(g.cell_gap == 0);
    assert(g.gaps().0 == 0);
    assert(g.gaps().1 == 0);
    assert(w == mw / 32);
    assert(h == mh / 18);
    assert(0 <= w && 31 * w <= mw) by (nonlinear_arith)
        requires
            w == mw / 32,
            mw >= 0,
    ;
    assert(0 <= h && 17 * h <= mh) by (nonlinear_arith)
        requires
            h == mh / 18,
            mh >= 0,
    ;
    assert forall|k: int| 0 <= k < g.spec_cells().len() implies {
        &&& #[trigger] g.spec_cells()[k].2.x < isize::MAX
        &&& g.spec_cells()[k].2.y < isize::MAX
    } by {
        let r = k / 32;
        let c = k % 32;
        assert(0 <= c < 32 && 0 <= r < 18) by (nonlinear_arith)
            requires
                0 <= k < 18 * 32,
                r == k / 32,
                c == k % 32,
        ;
        assert(0 <= c * w <= 31 * w) by (nonlinear_arith)
            requires
                0 <= c < 32,
                w >= 0,
        ;
        assert(0 <= r * h <= 17 * h) by (nonlinear_arith)
            requires
                0 <= r < 18,
                h >= 0,
        ;
    }
}

/// The spawner after its part of a tick: its cooldown runs on, and a spawn
/// starts a fresh cooldown.
pub open spec fn spec_spawner_step(s: EnemySpawner, ticks: u32) -> EnemySpawner {
    let s1 = s.spec_update(ticks);
    if s1.spec_spawns() {
        s1.spec_after_spawn().spec_cooldown()
    } else {
        s1
    }
}

/// The enemies after the spawner's part of a tick.
pub open spec fn spec_enemies_after_spawn(es: Seq<Enemy>, s: EnemySpawner, ticks: u32) -> Seq<Enemy> {
    if s.spec_update(ticks).spec_spawns() {
        es.push(Enemy::spec_teto(spec_spawn_position()))
    } else {
        es
    }
}

/// The towers after `ticks` more ticks.
pub open spec fn spec_towers_step(ts: Seq<Tower>, ticks: u32) -> Seq<Tower> {
    ts.map_values(|t: Tower| t.spec_update(ticks))
}

/// Updating a tower moves no tower, so the level's rules about towers and
/// the turret map still hold.
proof fn lemma_towers_step_keeps_wf(ts: Seq<Tower>, map: Map<u128, Vec<usize>>, ticks: u32)
    requires
        forall|i: int| 0 <= i < ts.len() ==> placed_ok(#[trigger] ts[i]),
        forall|i: int, j: int| 0 <= i < j < ts.len() ==> !same_cell(#[trigger] ts[i], #[trigger] ts[j]),
        turret_map_matches(map, ts),
    ensures
        ({
            let us = spec_towers_step(ts, ticks);
            &&& us.len() == ts.len()
            &&& forall|i: int| 0 <= i < us.len() ==> placed_ok(#[trigger] us[i])
            &&& forall|i: int, j: int| 0 <= i < j < us.len() ==> !same_cell(#[trigger] us[i], #[trigger] us[j])
            &&& turret_map_matches(map, us)
        }),
{
    let us = spec_towers_step(ts, ticks);
    assert forall|i: int| 0 <= i < us.len() implies placed_ok(#[trigger] us[i]) by {
        assert(us[i] == ts[i].spec_update(ticks));
        assert(placed_ok(ts[i]));
        crate::lemma_sprite_advance_keeps_wf(ts[i].sprite_info, ticks);
    }
    assert forall|i: int, j: int| 0 <= i < j < us.len() implies !same_cell(#[trigger] us[i], #[trigger] us[j]) by {
        assert(us[i] == ts[i].spec_update(ticks));
        assert(us[j] == ts[j].spec_update(ticks));
        assert(!same_cell(ts[i], ts[j]));
    }
    assert forall|k: u128, i: int| 0 <= i < us.len() implies (#[trigger] turrets_at(map, k).contains(i as usize)
        <==> tower_covers(#[trigger] us[i], k as int)) by {
        assert(us[i] == ts[i].spec_update(ticks));
        assert(turrets_at(map, k).contains(i as usize) <==> tower_covers(ts[i], k as int));
    }
}

impl LevelScene {
    /// Runs every tower's timers and animation.
    fn update_towers(&mut self, ticks: u32)
        requires
            old(self).wf(),
        ensures
            final(self).wf(),
            final(self).towers@ == spec_towers_step(old(self).towers@, ticks),
            final(self).base == old(self).base,
            final(self).path@ == old(self).path@,
            final(self).grass == old(self).grass,
            final(self).road == old(self).road,
            final(self).highlight == old(self).highlight,
            final(self).top_bar == old(self).top_bar,
            final(self).enemies@ == old(self).enemies@,
            final(self).cell_to_turrets@ == old(self).cell_to_turrets@,
            final(self).projectiles@ == old(self).projectiles@,
            final(self).enemy_spawner == old(self).enemy_spawner,
    {
        let ghost ts = self.towers@;
        proof {
            lemma_towers_step_keeps_wf(ts, self.cell_to_turrets@, ticks);
        }
        let mut i: usize = 0;
        while i < self.towers.len()
            invariant
                ts == old(self).towers@,
                self.towers@.len() == ts.len(),
                i <= ts.len(),
                forall|j: int| 0 <= j < ts.len() ==> placed_ok(#[trigger] ts[j]),
                forall|j: int| 0 <= j < i ==> self.towers@[j] == (#[trigger] ts[j]).spec_update(ticks),
                forall|j: int| i <= j < ts.len() ==> self.towers@[j] == #[trigger] ts[j],
                self.base == old(self).base,
                self.path@ == old(self).path@,
                self.grass == old(self).grass,
                self.road == old(self).road,
                self.highlight == old(self).highlight,
                self.top_bar == old(self).top_bar,
                self.enemies@ == old(self).enemies@,
                self.cell_to_turrets@ == old(self).cell_to_turrets@,
                self.projectiles@ == old(self).projectiles@,
                self.enemy_spawner == old(self).enemy_spawner,
            decreases ts.len() - i,
        {
            let mut tower: Tower = self.towers[i];
            proof {
                assert(placed_ok(ts[i as int]));
                crate::lemma_sprite_advance_keeps_wf(tower.sprite_info, ticks);
            }
            tower.update(ticks);
            self.towers.set(i, tower);
            i = i + 1;
        }
        proof {
            assert(self.towers@ =~= spec_towers_step(ts, ticks));
        }
    }
}

/// After the menu's update, a right click still pending means no tower is
/// in hand, or the pointer is off the grid; so a tower is never placed and
/// put back in the same tick.
proof fn lemma_top_bar_settles_right_click(tb: TopBar, mouse: MouseContext, ticks: u32, layout: GridLayout, towers: Seq<Tower>)
    ensures
        ({
            let (tb1, mouse1) = tb.spec_update(mouse, ticks, layout);
            &&& mouse1.position == mouse.position
            &&& !(spec_places(tb1, towers, mouse1, layout) && mouse1.right_clicked)
        }),
{
}

/// A level tick changes the scenery's animations only.
pub open spec fn scenery_step_ok(old_s: &LevelScene, new_s: &LevelScene, ticks: u32) -> bool {
    &&& new_s.grass == old_s.grass.spec_advance(ticks)
    &&& new_s.road == old_s.road.spec_advance(ticks)
    &&& new_s.highlight == old_s.highlight.spec_advance(ticks)
    &&& new_s.base.sprite_info == old_s.base.sprite_info.spec_advance(ticks)
    &&& new_s.base.position == old_s.base.position
    &&& new_s.base.health.max == old_s.base.health.max
    &&& new_s.path@ == old_s.path@
}

impl LevelScene {
    /// The tick's precondition: no tower may fire at a stepped enemy (see
    /// `no_tower_fires`).
    pub open spec fn update_ok(&self, ticks: u32) -> bool {
        no_tower_fires(
            spec_enemies_after_spawn(self.enemies@, self.enemy_spawner, ticks),
            spec_towers_step(self.towers@, ticks),
            self.cell_to_turrets@,
            ticks,
            self.path@,
        )
    }

    /// The shots still in flight after a tick, as they were before it.
    pub open spec fn spec_flying(self, ticks: u32, ctx: GameContext) -> Seq<Projectile> {
        let layout = spec_level_layout(ctx.screen_size);
        let es1 = spec_enemies_after_spawn(self.enemies@, self.enemy_spawner, ticks);
        let (tb1, mouse1) = self.top_bar.spec_update(ctx.mouse_context, ticks, layout);
        let es2 = es1.map_values(|e: Enemy| spec_enemy_step(e, ticks, self.path@));
        spec_resolve(self.projectiles@, ticks, layout, es2, tb1.money, tb1.defeated).0
    }

    /// What a tick does to the level and to the context (see `update`).
    pub open spec fn ticked(self, after: Self, ticks: u32, ctx: GameContext, after_ctx: GameContext) -> bool {
        &&& scenery_step_ok(&self, &after, ticks)
        &&& ({
            let layout = spec_level_layout(ctx.screen_size);
            let es1 = spec_enemies_after_spawn(self.enemies@, self.enemy_spawner, ticks);
            let ts1 = spec_towers_step(self.towers@, ticks);
            let (tb1, mouse1) = self.top_bar.spec_update(ctx.mouse_context, ticks, layout);
            let es2 = es1.map_values(|e: Enemy| spec_enemy_step(e, ticks, self.path@));
            let (kept, es3, money, defeated) = spec_resolve(self.projectiles@, ticks, layout, es2, tb1.money, tb1.defeated);
            let tb2 = TopBar { money, defeated, ..tb1 };
            let spawner = spec_spawner_step(self.enemy_spawner, ticks);
            &&& after.base.health.current == sat_sub(
                self.base.health.current as int,
                count_attacks(es1, ticks, self.path@) as int,
            )
            &&& after.enemies@ == es3
            &&& after.projectiles@.len() == kept.len()
            &&& forall|i: int| 0 <= i < kept.len() ==> (#[trigger] kept[i]).updated_as(after.projectiles@[i], ticks)
            &&& check_action_outcome(
                tb2,
                ts1,
                self.cell_to_turrets@,
                mouse1,
                layout,
                after.top_bar,
                after.towers@,
                after.cell_to_turrets@,
                after_ctx.mouse_context,
            )
            &&& after.enemy_spawner == if es3.len() == 0 {
                spawner.spec_next_round()
            } else {
                spawner
            }
        })
        &&& after_ctx.screen_size == ctx.screen_size
        &&& after_ctx.renderer == ctx.renderer
        &&& after_ctx.next_scene == ctx.next_scene
        &&& after_ctx.asset_loader == ctx.asset_loader
        &&& after_ctx.audio == ctx.audio
        &&& after_ctx.shutdown_flag == ctx.shutdown_flag
    }

    /// One tick of the level: the scenery animates, the spawner may send an
    /// enemy, the towers' timers run, the menu handles the pointer, each
    /// enemy walks and attacks, landing shots hit, the tower in hand is
    /// placed or put back, and once the field is clear the next round
    /// starts.
    pub fn update<I: Interpolate>(&mut self, ticks: u32, game_context: &mut GameContext, interpolation: &I)
        requires
            old(self).wf(),
            old(self).update_ok(ticks),
        ensures
            final(self).wf(),
            old(self).ticked(*final(self), ticks, *old(game_context), *final(game_context)),
            forall|i: int|
                0 <= i < old(self).spec_flying(ticks, *old(game_context)).len() ==> (#[trigger] old(
                    self,
                ).spec_flying(ticks, *old(game_context))[i]).placed_by(interpolation, final(self).projectiles@[i]),
    {
        let (screen_width, screen_height) = game_context.screen_size;
        let layout = GridLayout {
            area: Rect::new(0, 0, screen_width as isize, screen_height as isize),
            rows: 18,
            columns: 32,
            cell_gap: 0,
        };
        proof {
            lemma_level_layout_ok(game_context.screen_size);
            crate::lemma_sprite_advance_keeps_wf(self.grass, ticks);
            crate::lemma_sprite_advance_keeps_wf(self.road, ticks);
            crate::lemma_sprite_advance_keeps_wf(self.base.sprite_info, ticks);
            crate::lemma_sprite_advance_keeps_wf(self.highlight, ticks);
        }
        self.grass.advance(ticks);
        self.road.advance(ticks);
        self.base.sprite_info.advance(ticks);
        self.highlight.advance(ticks);
        self.enemy_spawner.update(ticks);
        let spawned = self.enemy_spawner.spawn();
        if let Some(new_enemy) = spawned {
            self.enemy_spawner.cooldown();
            self.enemies.push(new_enemy);
        }
        proof {
            assert(self.enemies@ == spec_enemies_after_spawn(old(self).enemies@, old(self).enemy_spawner, ticks));
            assert forall|i: int| 0 <= i < self.enemies@.len() implies (#[trigger] self.enemies@[i]).wf() by {
                if i < old(self).enemies@.len() {
                    assert(self.enemies@[i] == old(self).enemies@[i]);
                }
            }
        }
        self.update_towers(ticks);
        let ghost mouse0 = game_context.mouse_context;
        self.top_bar.update(ticks, game_context, &layout);
        proof {
            lemma_top_bar_settles_right_click(old(self).top_bar, mouse0, ticks, layout, self.towers@);
        }
        self.advance_enemies(ticks, &layout);
        self.resolve_projectiles(ticks, &layout, interpolation);
        self.check_action(&layout, game_context);
        if self.enemies.len() == 0 {
            self.enemy_spawner.start_next_round();
        }
    }
}

/// The text the level shows on row 14 of its grid.
pub open spec fn spec_level_text() -> Seq<char> {
    "MIKU MIKU OO EE UU"@
}

/// The draw commands for the cell under the pointer: with a tower in hand,
/// the tower there and a highlight for every cell it would reach; then the
/// highlight of the cell itself.
pub open spec fn spec_pointer_draw(s: &LevelScene, layout: GridLayout, mouse: MouseContext) -> Seq<RenderCommand> {
    match layout.spec_cell_for_mouse(mouse.position) {
        None => Seq::empty(),
        Some((r, c, mc)) => {
            let in_hand = match hand(s.top_bar.current_action) {
                Some(t) => seq![draw_rect(TEXTURE_ID_LEEKSHEET, t.sprite_info.spec_rect(), mc)] + Seq::new(
                    spec_turret_keys(r, c, t.range as usize, layout.rows, layout.columns).len(),
                    |i: int| draw_rect(TEXTURE_ID_LEEKSHEET, s.highlight.spec_rect(), layout.spec_cell_rect()),
                ),
                None => Seq::empty(),
            };
            in_hand + seq![draw_rect(TEXTURE_ID_LEEKSHEET, s.highlight.spec_rect(), mc)]
        },
    }
}

impl LevelScene {
    /// The draw commands of a frame of the level, in order: grass on every
    /// cell, the road on the path, the base, the towers, the enemies, the
    /// shots, the cell under the pointer, the level's text and the menu.
    /// Cells are drawn where `cell_rect` puts them.
    pub open spec fn spec_draw(&self, screen: (u32, u32), mouse: MouseContext) -> Seq<RenderCommand> {
        let layout = spec_level_layout(screen);
        let cell = layout.spec_cell_rect();
        let grass = Seq::new(
            layout.spec_cells().len(),
            |k: int| draw_rect(TEXTURE_ID_LEEKSHEET, self.grass.spec_rect(), layout.spec_cells()[k].2),
        );
        let road = Seq::new(self.path@.len(), |i: int| draw_rect(TEXTURE_ID_LEEKSHEET, self.road.spec_rect(), cell));
        let base = seq![draw_rect(TEXTURE_ID_MIKU, self.base.sprite_info.spec_rect(), cell)];
        let towers = self.towers@.map_values(|t: Tower| draw_rect(TEXTURE_ID_LEEKSHEET, t.sprite_info.spec_rect(), cell));
        let enemies = self.enemies@.map_values(|e: Enemy| draw_rect(TEXTURE_ID_LEEKSHEET, e.sprite_info.spec_rect(), cell));
        let shots = self.projectiles@.map_values(|p: Projectile| draw_rect(TEXTURE_ID_LEEKSHEET, p.sprite_info.spec_rect(), p.position));
        let text = Seq::new(
            spec_level_text().len(),
            |i: int| draw_rect(TEXTURE_ID_FONTSHEET, spec_glyph_rect(spec_level_text()[i]), cell),
        );
        grass + road + base + towers + enemies + shots + spec_pointer_draw(self, layout, mouse) + text + self.top_bar.spec_draw(layout)
    }

    /// A frame draws every tower and then every enemy, in order, right
    /// after the grass on each cell, the road on each path tile and the
    /// base: enemy `i`'s sprite is the command after the towers' plus `i`.
    pub proof fn lemma_frame_draws_every_enemy(&self, screen: (u32, u32), mouse: MouseContext)
        ensures
            ({
                let layout = spec_level_layout(screen);
                let cmds = self.spec_draw(screen, mouse);
                let before_towers = layout.spec_cells().len() + self.path@.len() + 1;
                let before_enemies = before_towers + self.towers@.len();
                &&& cmds.len() >= before_enemies + self.enemies@.len() + self.projectiles@.len()
                &&& forall|j: int|
                    0 <= j < self.towers@.len() ==> cmds[before_towers + j] == draw_rect(
                        TEXTURE_ID_LEEKSHEET,
                        (#[trigger] self.towers@[j]).sprite_info.spec_rect(),
                        layout.spec_cell_rect(),
                    )
                &&& forall|i: int|
                    0 <= i < self.enemies@.len() ==> cmds[before_enemies + i] == draw_rect(
                        TEXTURE_ID_LEEKSHEET,
                        (#[trigger] self.enemies@[i]).sprite_info.spec_rect(),
                        layout.spec_cell_rect(),
                    )
            }),
    {
        let layout = spec_level_layout(screen);
        let cell = layout.spec_cell_rect();
        let grass = Seq::new(
            layout.spec_cells().len(),
            |k: int| draw_rect(TEXTURE_ID_LEEKSHEET, self.grass.spec_rect(), layout.spec_cells()[k].2),
        );
        let road = Seq::new(self.path@.len(), |i: int| draw_rect(TEXTURE_ID_LEEKSHEET, self.road.spec_rect(), cell));
        let base = seq![draw_rect(TEXTURE_ID_MIKU, self.base.sprite_info.spec_rect(), cell)];
        let towers = self.towers@.map_values(|t: Tower| draw_rect(TEXTURE_ID_LEEKSHEET, t.sprite_info.spec_rect(), cell));
        let enemies = self.enemies@.map_values(|e: Enemy| draw_rect(TEXTURE_ID_LEEKSHEET, e.sprite_info.spec_rect(), cell));
        let shots = self.projectiles@.map_values(|p: Projectile| draw_rect(TEXTURE_ID_LEEKSHEET, p.sprite_info.spec_rect(), p.position));
        let head = grass + road + base;
        let cmds = self.spec_draw(screen, mouse);
        assert forall|j: int| 0 <= j < self.towers@.len() implies cmds[head.len() + j] == draw_rect(
            TEXTURE_ID_LEEKSHEET,
            (#[trigger] self.towers@[j]).sprite_info.spec_rect(),
            cell,
        ) by {
            assert((head + towers)[head.len() + j] == towers[j]);
            assert((head + towers + enemies)[head.len() + j] == towers[j]);
            assert((head + towers + enemies + shots)[head.len() + j] == towers[j]);
        }
        assert forall|i: int| 0 <= i < self.enemies@.len() implies cmds[head.len() + towers.len() + i] == draw_rect(
            TEXTURE_ID_LEEKSHEET,
            (#[trigger] self.enemies@[i]).sprite_info.spec_rect(),
            cell,
        ) by {
            assert((head + towers + enemies)[head.len() + towers.len() + i] == enemies[i]);
            assert((head + towers + enemies + shots)[head.len() + towers.len() + i] == enemies[i]);
        }
    }

    fn draw_grass(&self, renderer: &mut RenderQueue, layout: &GridLayout)
        requires
            self.grass.wf(),
            layout.cells_ok(),
        ensures
            final(renderer).commands@ == old(renderer).commands@ + Seq::new(
                layout.spec_cells().len(),
                |k: int| draw_rect(TEXTURE_ID_LEEKSHEET, self.grass.spec_rect(), layout.spec_cells()[k].2),
            ),
    {
        let cells: Vec<(usize, usize, Rect)> = layout.iter_cells();
        let ghost start = renderer.commands@;
        let ghost part = Seq::new(
            layout.spec_cells().len(),
            |k: int| draw_rect(TEXTURE_ID_LEEKSHEET, self.grass.spec_rect(), layout.spec_cells()[k].2),
        );
        proof {
            crate::lemma_sprite_frame_fits(self.grass);
        }
        let mut k: usize = 0;
        while k < cells.len()
            invariant
                cells@ == layout.spec_cells(),
                k <= cells@.len(),
                self.grass.wf(),
                0 <= self.grass.frame_x() <= u32::MAX,
                part.len() == cells@.len(),
                forall|j: int| 0 <= j < part.len() ==> #[trigger] part[j] == draw_rect(TEXTURE_ID_LEEKSHEET, self.grass.spec_rect(), cells@[j].2),
                renderer.commands@ == start + part.take(k as int),
            decreases cells@.len() - k,
        {
            let src: Rect = self.grass.get_rect();
            renderer.send_command(RenderCommand::DrawRect { texture_id: TEXTURE_ID_LEEKSHEET, source: src, destination: cells[k].2 });
            proof {
                assert(part[k as int] == draw_rect(TEXTURE_ID_LEEKSHEET, self.grass.spec_rect(), cells@[k as int].2));
                assert(part.take(k + 1) =~= part.take(k as int).push(part[k as int]));
                assert(renderer.commands@ =~= start + part.take(k + 1));
            }
            k = k + 1;
        }
        proof {
            assert(part.take(cells@.len() as int) =~= part);
        }
    }

    fn draw_path(&self, renderer: &mut RenderQueue, layout: &GridLayout)
        requires
            self.road.wf(),
            layout.cell_size_ok(),
            layout.origin_ok(),
        ensures
            final(renderer).commands@ == old(renderer).commands@ + Seq::new(
                self.path@.len(),
                |i: int| draw_rect(TEXTURE_ID_LEEKSHEET, self.road.spec_rect(), layout.spec_cell_rect()),
            ),
    {
        let ghost start = renderer.commands@;
        let ghost part = Seq::new(
            self.path@.len(),
            |i: int| draw_rect(TEXTURE_ID_LEEKSHEET, self.road.spec_rect(), layout.spec_cell_rect()),
        );
        proof {
            crate::lemma_sprite_frame_fits(self.road);
        }
        let mut i: usize = 0;
        while i < self.path.len()
            invariant
                i <= self.path@.len(),
                self.road.wf(),
                0 <= self.road.frame_x() <= u32::MAX,
                layout.cell_size_ok(),
                layout.origin_ok(),
                part.len() == self.path@.len(),
                forall|j: int| 0 <= j < part.len() ==> #[trigger] part[j] == draw_rect(TEXTURE_ID_LEEKSHEET, self.road.spec_rect(), layout.spec_cell_rect()),
                renderer.commands@ == start + part.take(i as int),
            decreases self.path@.len() - i,
        {
            let tile: Rect = self.path[i];
            let src: Rect = self.road.get_rect();
            let cell: Rect = layout.cell_rect(tile.y as usize, tile.x as usize);
            renderer.send_command(RenderCommand::DrawRect { texture_id: TEXTURE_ID_LEEKSHEET, source: src, destination: cell });
            proof {
                assert(part[i as int] == draw_rect(TEXTURE_ID_LEEKSHEET, self.road.spec_rect(), layout.spec_cell_rect()));
                assert(part.take(i + 1) =~= part.take(i as int).push(part[i as int]));
                assert(renderer.commands@ =~= start + part.take(i + 1));
            }
            i = i + 1;
        }
        proof {
            assert(part.take(self.path@.len() as int) =~= part);
        }
    }

    fn draw_towers(&self, renderer: &mut RenderQueue, layout: &GridLayout)
        requires
            self.wf(),
            layout.cell_size_ok(),
            layout.origin_ok(),
        ensures
            final(renderer).commands@ == old(renderer).commands@ + self.towers@.map_values(
                |t: Tower| draw_rect(TEXTURE_ID_LEEKSHEET, t.sprite_info.spec_rect(), layout.spec_cell_rect()),
            ),
    {
        let ghost start = renderer.commands@;
        let ghost part = self.towers@.map_values(
            |t: Tower| draw_rect(TEXTURE_ID_LEEKSHEET, t.sprite_info.spec_rect(), layout.spec_cell_rect()),
        );
        let mut i: usize = 0;
        while i < self.towers.len()
            invariant
                i <= self.towers@.len(),
                self.wf(),
                layout.cell_size_ok(),
                layout.origin_ok(),
                part.len() == self.towers@.len(),
                part == self.towers@.map_values(
                    |t: Tower| draw_rect(TEXTURE_ID_LEEKSHEET, t.sprite_info.spec_rect(), layout.spec_cell_rect()),
                ),
                renderer.commands@ == start + part.take(i as int),
            decreases self.towers@.len() - i,
        {
            let tower: Tower = self.towers[i];
            proof {
                assert(placed_ok(self.towers@[i as int]));
                crate::lemma_sprite_frame_fits(tower.sprite_info);
            }
            let cell: Rect = layout.cell_rect(tower.position.y as usize, tower.position.x as usize);
            let src: Rect = tower.sprite_info.get_rect();
            renderer.send_command(RenderCommand::DrawRect { texture_id: TEXTURE_ID_LEEKSHEET, source: src, destination: cell });
            proof {
                assert(part.take(i + 1) =~= part.take(i as int).push(part[i as int]));
            }
            i = i + 1;
        }
        proof {
            assert(part.take(self.towers@.len() as int) =~= part);
        }
    }

    fn draw_enemies(&self, renderer: &mut RenderQueue, layout: &GridLayout)
        requires
            self.wf(),
            layout.cell_size_ok(),
            layout.origin_ok(),
        ensures
            final(renderer).commands@ == old(renderer).commands@ + self.enemies@.map_values(
                |e: Enemy| draw_rect(TEXTURE_ID_LEEKSHEET, e.sprite_info.spec_rect(), layout.spec_cell_rect()),
            ),
    {
        let ghost start = renderer.commands@;
        let ghost part = self.enemies@.map_values(
            |e: Enemy| draw_rect(TEXTURE_ID_LEEKSHEET, e.sprite_info.spec_rect(), layout.spec_cell_rect()),
        );
        let mut i: usize = 0;
        while i < self.enemies.len()
            invariant
                i <= self.enemies@.len(),
                self.wf(),
                layout.cell_size_ok(),
                layout.origin_ok(),
                part.len() == self.enemies@.len(),
                part == self.enemies@.map_values(
                    |e: Enemy| draw_rect(TEXTURE_ID_LEEKSHEET, e.sprite_info.spec_rect(), layout.spec_cell_rect()),
                ),
                renderer.commands@ == start + part.take(i as int),
            decreases self.enemies@.len() - i,
        {
            let enemy: Enemy = self.enemies[i];
            proof {
                assert(self.enemies@[i as int].wf());
                crate::lemma_sprite_frame_fits(enemy.sprite_info);
            }
            let cell: Rect = layout.cell_rect(enemy.position.y as usize, enemy.position.x as usize);
            let src: Rect = enemy.get_rect();
            renderer.send_command(RenderCommand::DrawRect { texture_id: TEXTURE_ID_LEEKSHEET, source: src, destination: cell });
            proof {
                assert(part.take(i + 1) =~= part.take(i as int).push(part[i as int]));
            }
            i = i + 1;
        }
        proof {
            assert(part.take(self.enemies@.len() as int) =~= part);
        }
    }

    fn draw_projectiles(&self, renderer: &mut RenderQueue)
        requires
            self.wf(),
        ensures
            final(renderer).commands@ == old(renderer).commands@ + self.projectiles@.map_values(
                |p: Projectile| draw_rect(TEXTURE_ID_LEEKSHEET, p.sprite_info.spec_rect(), p.position),
            ),
    {
        let ghost start = renderer.commands@;
        let ghost part = self.projectiles@.map_values(
            |p: Projectile| draw_rect(TEXTURE_ID_LEEKSHEET, p.sprite_info.spec_rect(), p.position),
        );
        let mut i: usize = 0;
        while i < self.projectiles.len()
            invariant
                i <= self.projectiles@.len(),
                self.wf(),
                part.len() == self.projectiles@.len(),
                part == self.projectiles@.map_values(
                    |p: Projectile| draw_rect(TEXTURE_ID_LEEKSHEET, p.sprite_info.spec_rect(), p.position),
                ),
                renderer.commands@ == start + part.take(i as int),
            decreases self.projectiles@.len() - i,
        {
            let projectile: Projectile = self.projectiles[i];
            proof {
                assert(self.projectiles@[i as int].sprite_info.wf());
                crate::lemma_sprite_frame_fits(projectile.sprite_info);
            }
            let src: Rect = projectile.get_rect();
            renderer.send_command(RenderCommand::DrawRect { texture_id: TEXTURE_ID_LEEKSHEET, source: src, destination: projectile.position });
            proof {
                assert(part.take(i + 1) =~= part.take(i as int).push(part[i as int]));
            }
            i = i + 1;
        }
        proof {
            assert(part.take(self.projectiles@.len() as int) =~= part);
        }
    }

    fn draw_pointer(&self, renderer: &mut RenderQueue, layout: &GridLayout, mouse: &MouseContext)
        requires
            self.wf(),
            layout.cells_ok(),
            layout.rows == 18,
            layout.columns == 32,
        ensures
            final(renderer).commands@ == old(renderer).commands@ + spec_pointer_draw(self, *layout, *mouse),
    {
        let hit = layout.cell_for_mouse(mouse.position);
        if let Some((r, c, cell)) = hit {
            proof {
                crate::grid_layout::lemma_first_hit_is_cell(
                    layout.spec_cells(),
                    mouse.position.unwrap().0 as int,
                    mouse.position.unwrap().1 as int,
                );
                let k = choose|k: int| 0 <= k < layout.spec_cells().len() && layout.spec_cells()[k] == hit.unwrap();
                assert(k / 32 < 18 && k % 32 < 32) by (nonlinear_arith)
                    requires
                        0 <= k < 18 * 32,
                ;
                crate::lemma_sprite_frame_fits(self.highlight);
            }
            let ghost start = renderer.commands@;
            match self.top_bar.current_action {
                Some(PlayerAction::PlaceTower(tower_to_place)) => {
                    proof {
                        crate::lemma_sprite_frame_fits(tower_to_place.sprite_info);
                        lemma_small_turret_range_ok(r, c, tower_to_place.range as usize);
                    }
                    let src: Rect = tower_to_place.sprite_info.get_rect();
                    renderer.send_command(RenderCommand::DrawRect { texture_id: TEXTURE_ID_LEEKSHEET, source: src, destination: cell });
                    let src: Rect = self.highlight.get_rect();
                    let keys: Vec<(usize, usize)> = turret_range_iter(r, c, tower_to_place.range as usize, layout.rows, layout.columns);
                    let ghost head = renderer.commands@;
                    let ghost part = Seq::new(
                        keys@.len(),
                        |i: int| draw_rect(TEXTURE_ID_LEEKSHEET, self.highlight.spec_rect(), layout.spec_cell_rect()),
                    );
                    let mut i: usize = 0;
                    while i < keys.len()
                        invariant
                            i <= keys@.len(),
                            layout.cells_ok(),
                            src == self.highlight.spec_rect(),
                            part.len() == keys@.len(),
                            forall|j: int| 0 <= j < part.len() ==> #[trigger] part[j] == draw_rect(TEXTURE_ID_LEEKSHEET, self.highlight.spec_rect(), layout.spec_cell_rect()),
                            renderer.commands@ == head + part.take(i as int),
                        decreases keys@.len() - i,
                    {
                        let key: (usize, usize) = keys[i];
                        let cell: Rect = layout.cell_rect(key.0, key.1);
                        renderer.send_command(RenderCommand::DrawRect { texture_id: TEXTURE_ID_LEEKSHEET, source: src, destination: cell });
                        proof {
                            assert(part[i as int] == draw_rect(TEXTURE_ID_LEEKSHEET, self.highlight.spec_rect(), layout.spec_cell_rect()));
                            assert(part.take(i + 1) =~= part.take(i as int).push(part[i as int]));
                            assert(renderer.commands@ =~= head + part.take(i + 1));
                        }
                        i = i + 1;
                    }
                    proof {
                        assert(part.take(keys@.len() as int) =~= part);
                    }
                },
                None => {},
            }
            let src: Rect = self.highlight.get_rect();
            renderer.send_command(RenderCommand::DrawRect { texture_id: TEXTURE_ID_LEEKSHEET, source: src, destination: cell });
            proof {
                let in_hand = match hand(self.top_bar.current_action) {
                    Some(t) => seq![draw_rect(TEXTURE_ID_LEEKSHEET, t.sprite_info.spec_rect(), cell)] + Seq::new(
                        spec_turret_keys(r, c, t.range as usize, layout.rows, layout.columns).len(),
                        |i: int| draw_rect(TEXTURE_ID_LEEKSHEET, self.highlight.spec_rect(), layout.spec_cell_rect()),
                    ),
                    None => Seq::empty(),
                };
                assert(renderer.commands@ =~= start + in_hand + seq![draw_rect(TEXTURE_ID_LEEKSHEET, self.highlight.spec_rect(), cell)]);
            }
        }
    }

    fn draw_text(&self, renderer: &mut RenderQueue, layout: &GridLayout)
        requires
            layout.cell_size_ok(),
            layout.origin_ok(),
        ensures
            final(renderer).commands@ == old(renderer).commands@ + Seq::new(
                spec_level_text().len(),
                |i: int| draw_rect(TEXTURE_ID_FONTSHEET, spec_glyph_rect(spec_level_text()[i]), layout.spec_cell_rect()),
            ),
    {
        let text: &str = "MIKU MIKU OO EE UU";
        proof {
            reveal_strlit("MIKU MIKU OO EE UU");
            reveal_with_fuel(crate::font::printable_each, 19);
            crate::font::lemma_printable_each(text@);
        }
        let rects: Vec<Rect> = get_rects_for_str(text);
        let ghost start = renderer.commands@;
        let ghost part = Seq::new(
            spec_level_text().len(),
            |i: int| draw_rect(TEXTURE_ID_FONTSHEET, spec_glyph_rect(spec_level_text()[i]), layout.spec_cell_rect()),
        );
        let r: usize = 14;
        let mut next: usize = 0;
        let mut c: usize = 9;
        while c <= 27
            invariant
                9 <= c <= 28,
                next <= rects@.len(),
                next == if c - 9 < rects@.len() {
                    c - 9
                } else {
                    rects@.len() as int
                },
                rects@.len() == spec_level_text().len(),
                forall|i: int| 0 <= i < rects@.len() ==> rects@[i] == spec_glyph_rect(#[trigger] spec_level_text()[i]),
                part.len() == rects@.len(),
                forall|j: int| 0 <= j < part.len() ==> #[trigger] part[j] == draw_rect(TEXTURE_ID_FONTSHEET, spec_glyph_rect(spec_level_text()[j]), layout.spec_cell_rect()),
                layout.cell_size_ok(),
                layout.origin_ok(),
                renderer.commands@ == start + part.take(next as int),
            decreases 28 - c,
        {
            if next < rects.len() {
                let src: Rect = rects[next];
                let cell: Rect = layout.cell_rect(r, c);
                renderer.send_command(RenderCommand::DrawRect { texture_id: TEXTURE_ID_FONTSHEET, source: src, destination: cell });
                proof {
                    assert(part[next as int] == draw_rect(TEXTURE_ID_FONTSHEET, spec_glyph_rect(spec_level_text()[next as int]), layout.spec_cell_rect()));
                    assert(part.take(next + 1) =~= part.take(next as int).push(part[next as int]));
                    assert(renderer.commands@ =~= start + part.take(next + 1));
                }
                next = next + 1;
            }
            c = c + 1;
        }
        proof {
            assert(part.take(rects@.len() as int) =~= part);
        }
    }

    /// Queues the frame's draw commands, when there is a renderer.
    pub fn draw(&mut self, game_context: &mut GameContext)
        requires
            old(self).wf(),
        ensures
            *final(self) == *old(self),
            final(self).wf(),
            final(self).towers@ == old(self).towers@,
            final(self).enemies@ == old(self).enemies@,
            final(self).projectiles@ == old(self).projectiles@,
            final(self).top_bar == old(self).top_bar,
            final(game_context).renderer is Some == old(game_context).renderer is Some,
            old(game_context).renderer is Some ==> final(game_context).renderer.unwrap().commands@
                == old(game_context).renderer.unwrap().commands@ + old(self).spec_draw(
                old(game_context).screen_size,
                old(game_context).mouse_context,
            ),
            final(game_context).mouse_context == old(game_context).mouse_context,
            final(game_context).screen_size == old(game_context).screen_size,
            final(game_context).next_scene == old(game_context).next_scene,
            final(game_context).asset_loader == old(game_context).asset_loader,
            final(game_context).audio == old(game_context).audio,
            final(game_context).shutdown_flag == old(game_context).shutdown_flag,
    {
        let (screen_width, screen_height) = game_context.screen_size;
        let layout = GridLayout {
            area: Rect::new(0, 0, screen_width as isize, screen_height as isize),
            rows: 18,
            columns: 32,
            cell_gap: 0,
        };
        proof {
            lemma_level_layout_ok(game_context.screen_size);
            crate::lemma_sprite_frame_fits(self.base.sprite_info);
        }
        let mouse: MouseContext = game_context.mouse_context;
        let renderer: &mut RenderQueue = match &mut game_context.renderer {
            Some(r) => r,
            None => {
                return;
            },
        };
        let ghost start = renderer.commands@;
        self.draw_grass(renderer, &layout);
        self.draw_path(renderer, &layout);
        let cell: Rect = layout.cell_rect(self.base.position.y as usize, self.base.position.x as usize);
        let src: Rect = self.base.sprite_info.get_rect();
        renderer.send_command(RenderCommand::DrawRect { texture_id: TEXTURE_ID_MIKU, source: src, destination: cell });
        self.draw_towers(renderer, &layout);
        self.draw_enemies(renderer, &layout);
        self.draw_projectiles(renderer);
        self.draw_pointer(renderer, &layout, &mouse);
        self.draw_text(renderer, &layout);
        self.top_bar.draw(game_context, &layout);
    }
}


/// A tower that reaches the cell a stepped enemy stands on is ready to
/// shoot, once the towers' timers have run on.
pub open spec fn tower_fires_at(e: Enemy, towers: Seq<Tower>, map: Map<u128, Vec<usize>>, ticks: u32, path: Seq<Rect>) -> bool {
    let listed = turrets_at(map, enemy_key(spec_enemy_step(e, ticks, path)));
    exists|x: int| 0 <= x < listed.len() && (#[trigger] towers[listed[x] as int]).spec_update(ticks).spec_can_shoot()
}

impl LevelScene {
    /// Whether a tower would be ready to shoot at `e` once it has stepped.
    fn tower_fires_at(&self, e: Enemy, ticks: u32) -> (b: bool)
        requires
            self.wf(),
            e.wf(),
        ensures
            b == tower_fires_at(e, self.towers@, self.cell_to_turrets@, ticks, self.path@),
    {
        broadcast use vstd::std_specs::hash::group_hash_axioms;

        proof {
            lemma_path_not_empty();
            crate::lemma_sprite_advance_keeps_wf(e.sprite_info, ticks);
        }
        let mut stepped: Enemy = e;
        stepped.update(ticks);
        stepped.walk(&self.path);
        let _attack: Option<u8> = stepped.attack(&self.path);
        let key: u128 = cell_key(stepped.position.y as usize, stepped.position.x as usize);
        let ghost listed = turrets_at(self.cell_to_turrets@, key);
        proof {
            assert(stepped == spec_enemy_step(e, ticks, self.path@));
            assert(key == enemy_key(spec_enemy_step(e, ticks, self.path@)));
        }
        match self.cell_to_turrets.get(&key) {
            Some(tower_indices) => {
                let mut x: usize = 0;
                while x < tower_indices.len()
                    invariant
                        self.wf(),
                        tower_indices@ == listed,
                        listed == turrets_at(self.cell_to_turrets@, key),
                        self.cell_to_turrets@.contains_key(key),
                        key == enemy_key(spec_enemy_step(e, ticks, self.path@)),
                        x <= listed.len(),
                        forall|y: int| 0 <= y < x ==> !(#[trigger] self.towers@[listed[y] as int]).spec_update(ticks).spec_can_shoot(),
                    decreases listed.len() - x,
                {
                    let tidx: usize = tower_indices[x];
                    proof {
                        assert(self.cell_to_turrets@[key]@[x as int] == tidx);
                    }
                    let state: ReadyState = advance_ready_state(self.towers[tidx].state, ticks);
                    if let ReadyState::Ready = state {
                        proof {
                            assert(self.towers@[listed[x as int] as int].spec_update(ticks).spec_can_shoot());
                        }
                        return true;
                    }
                    x = x + 1;
                }
                false
            },
            None => {
                proof {
                    assert(listed.len() == 0);
                }
                false
            },
        }
    }

    /// Whether the next tick of `ticks` ticks can be taken (see
    /// `update_ok`): no tower is ready to shoot at an enemy once the
    /// spawner, the towers and the enemies have stepped.
    pub fn can_update(&self, ticks: u32) -> (b: bool)
        requires
            self.wf(),
        ensures
            b == self.update_ok(ticks),
    {
        let ghost es1 = spec_enemies_after_spawn(self.enemies@, self.enemy_spawner, ticks);
        let ghost ts1 = spec_towers_step(self.towers@, ticks);
        let ghost path = self.path@;
        let ghost map = self.cell_to_turrets@;
        let mut spawner: EnemySpawner = self.enemy_spawner;
        spawner.update(ticks);
        let spawned: Option<Enemy> = spawner.spawn();
        let n: usize = self.enemies.len();
        let mut i: usize = 0;
        while i < n
            invariant
                self.wf(),
                n == self.enemies@.len(),
                i <= n,
                forall|j: int| 0 <= j < i ==> !tower_fires_at(#[trigger] self.enemies@[j], self.towers@, map, ticks, path),
                map == self.cell_to_turrets@,
                path == self.path@,
                es1 == spec_enemies_after_spawn(self.enemies@, self.enemy_spawner, ticks),
            decreases n - i,
        {
            if self.tower_fires_at(self.enemies[i], ticks) {
                proof {
                    assert(es1.len() >= n);
                    assert(es1[i as int] == self.enemies@[i as int]);
                    lemma_fires_breaks_update_ok(es1, self.towers@, map, ticks, path, i as int);
                }
                return false;
            }
            i = i + 1;
        }
        if let Some(new_enemy) = spawned {
            proof {
                assert(es1 == self.enemies@.push(new_enemy));
            }
            if self.tower_fires_at(new_enemy, ticks) {
                proof {
                    lemma_fires_breaks_update_ok(es1, self.towers@, map, ticks, path, n as int);
                }
                return false;
            }
        }
        proof {
            assert forall|j: int| 0 <= j < es1.len() implies !tower_fires_at(#[trigger] es1[j], self.towers@, map, ticks, path) by {
                if j < n {
                    assert(es1[j] == self.enemies@[j]);
                }
            }
            lemma_no_fire_gives_update_ok(es1, self.towers@, map, ticks, path);
        }
        true
    }
}

/// The turret map lists only towers that exist.
pub open spec fn map_indices_ok(map: Map<u128, Vec<usize>>, n: nat) -> bool {
    forall|k: u128, j: int| map.contains_key(k) && 0 <= j < map[k]@.len() ==> #[trigger] map[k]@[j] < n
}

/// An enemy at which a tower fires breaks `no_tower_fires`.
proof fn lemma_fires_breaks_update_ok(es: Seq<Enemy>, towers: Seq<Tower>, map: Map<u128, Vec<usize>>, ticks: u32, path: Seq<Rect>, i: int)
    requires
        0 <= i < es.len(),
        map_indices_ok(map, towers.len()),
        tower_fires_at(es[i], towers, map, ticks, path),
    ensures
        !no_tower_fires(es, spec_towers_step(towers, ticks), map, ticks, path),
{
    let ts1 = spec_towers_step(towers, ticks);
    let key = enemy_key(spec_enemy_step(es[i], ticks, path));
    let listed = turrets_at(map, key);
    let x = choose|x: int| 0 <= x < listed.len() && (#[trigger] towers[listed[x] as int]).spec_update(ticks).spec_can_shoot();
    assert(map.contains_key(key));
    assert(map[key]@[x] < towers.len());
    assert(ts1[listed[x] as int] == towers[listed[x] as int].spec_update(ticks));
    if no_tower_fires(es, ts1, map, ticks, path) {
        assert(!ts1[turrets_at(map, enemy_key(spec_enemy_step(es[i], ticks, path)))[x] as int].spec_can_shoot());
    }
}

/// Where no tower fires at any enemy, `no_tower_fires` holds.
proof fn lemma_no_fire_gives_update_ok(es: Seq<Enemy>, towers: Seq<Tower>, map: Map<u128, Vec<usize>>, ticks: u32, path: Seq<Rect>)
    requires
        map_indices_ok(map, towers.len()),
        forall|j: int| 0 <= j < es.len() ==> !tower_fires_at(#[trigger] es[j], towers, map, ticks, path),
    ensures
        no_tower_fires(es, spec_towers_step(towers, ticks), map, ticks, path),
{
    let ts1 = spec_towers_step(towers, ticks);
    assert forall|i: int, x: int|
        0 <= i < es.len() && 0 <= x < turrets_at(map, enemy_key(spec_enemy_step(#[trigger] es[i], ticks, path))).len()
        implies !ts1[#[trigger] turrets_at(map, enemy_key(spec_enemy_step(es[i], ticks, path)))[x] as int].spec_can_shoot() by {
        let key = enemy_key(spec_enemy_step(es[i], ticks, path));
        let listed = turrets_at(map, key);
        assert(!tower_fires_at(es[i], towers, map, ticks, path));
        assert(map.contains_key(key));
        assert(map[key]@[x] < towers.len());
        assert(ts1[listed[x] as int] == towers[listed[x] as int].spec_update(ticks));
        assert(!(0 <= x < listed.len() && towers[listed[x] as int].spec_update(ticks).spec_can_shoot()));
    }
}

} // verus!
