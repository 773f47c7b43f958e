//! The game loop's state: pointer input, the shared context of the scenes,
//! and fixed rate updates with catch up.
use vstd::prelude::*;

use crate::asset_loader::TextureRequests;
use crate::audio::{AudioCommand, AudioRequests};
use crate::clock::Clock;
use crate::renderer::{clear_black, RenderCommand, RenderQueue};
use crate::scene::level::Interpolate;
use crate::scene::level::LevelScene;
use crate::scene::shutting_down::ShuttingDownScene;
use crate::scene::game_over::GameOverScene;
use crate::scene::AnyScene;

verus! {

/// The pointer: buttons pressed this frame and where it is, in whole
/// screen pixels.
#[derive(Debug, Clone, Copy, PartialEq, Eq)]
pub struct MouseContext {
    pub left_clicked: bool,
    pub right_clicked: bool,
    pub position: Option<(isize, isize)>,
}

impl Default for MouseContext {
    fn default() -> (m: MouseContext)
        ensures
            m == (MouseContext { left_clicked: false, right_clicked: false, position: None }),
    {
        MouseContext { left_clicked: false, right_clicked: false, position: None }
    }
}

impl MouseContext {
    pub fn update(&mut self, left: bool, right: bool, position: Option<(isize, isize)>)
        ensures
            *final(self) == (MouseContext { left_clicked: left, right_clicked: right, position }),
    {
        self.left_clicked = left;
        self.right_clicked = right;
        self.position = position;
    }

    /// Marks the left click as handled.
    pub fn consume_left_click(&mut self)
        ensures
            *final(self) == (MouseContext { left_clicked: false, ..*old(self) }),
    {
        self.left_clicked = false;
    }

    /// Marks the right click as handled.
    pub fn consume_right_click(&mut self)
        ensures
            *final(self) == (MouseContext { right_clicked: false, ..*old(self) }),
    {
        self.right_clicked = false;
    }
}

/// What the scenes share: the backend's renderer, asset loader and audio
/// where there are any, the pointer, the screen, the scene to switch to
/// next, and whether the game is to stop.
pub struct GameContext {
    pub renderer: Option<RenderQueue>,
    pub mouse_context: MouseContext,
    pub screen_size: (u32, u32),
    pub next_scene: Option<AnyScene>,
    pub asset_loader: Option<TextureRequests>,
    pub audio: Option<AudioRequests>,
    pub shutdown_flag: bool,
}

impl Default for GameContext {
    /// No backend yet, a screen of 1280 by 720 pixels, nothing queued.
    fn default() -> (c: GameContext)
        ensures
            c == (GameContext {
                renderer: None,
                mouse_context: MouseContext { left_clicked: false, right_clicked: false, position: None },
                screen_size: (1280, 720),
                next_scene: None,
                asset_loader: None,
                audio: None,
                shutdown_flag: false,
            }),
    {
        GameContext {
            renderer: None,
            mouse_context: MouseContext::default(),
            screen_size: (1280, 720),
            next_scene: None,
            asset_loader: None,
            audio: None,
            shutdown_flag: false,
        }
    }
}

/// A fresh game over scene is queued.
pub open spec fn queued_game_over(next: Option<AnyScene>) -> bool {
    match next {
        Some(AnyScene::GameOver(s)) => s.spec_is_initial() && s.wf(),
        _ => false,
    }
}

/// A fresh level is queued.
pub open spec fn queued_level(next: Option<AnyScene>) -> bool {
    match next {
        Some(AnyScene::Level(level)) => level.spec_is_initial(),
        _ => false,
    }
}

/// The goodbye scene is queued, as it starts.
pub open spec fn queued_shutdown(next: Option<AnyScene>) -> bool {
    next == Some(AnyScene::ShuttingDown(ShuttingDownScene::spec_default()))
}

/// The context changes in its next scene only.
pub open spec fn only_next_scene_changed(a: &GameContext, b: &GameContext) -> bool {
    &&& b.renderer == a.renderer
    &&& b.mouse_context == a.mouse_context
    &&& b.screen_size == a.screen_size
    &&& b.asset_loader == a.asset_loader
    &&& b.audio == a.audio
    &&& b.shutdown_flag == a.shutdown_flag
}

impl GameContext {
    /// Queues a fresh level as the next scene.
    pub fn queue_level(&mut self)
        ensures
            queued_level(final(self).next_scene),
            only_next_scene_changed(old(self), final(self)),
    {
        self.next_scene = Some(AnyScene::Level(LevelScene::default()));
    }

    /// Queues the goodbye scene, which stops the game.
    pub fn shutdown(&mut self)
        ensures
            queued_shutdown(final(self).next_scene),
            only_next_scene_changed(old(self), final(self)),
    {
        self.next_scene = Some(AnyScene::ShuttingDown(ShuttingDownScene::default()));
    }

    /// Queues the game over scene as the next scene.
    pub fn queue_game_over(&mut self)
        ensures
            queued_game_over(final(self).next_scene),
            only_next_scene_changed(old(self), final(self)),
    {
        self.next_scene = Some(AnyScene::GameOver(GameOverScene::default()));
    }
}

/// Nanoseconds from one update to the next: sixty updates a second.
pub const NS_PER_UPDATE: u128 = 16_666_666;

/// The most updates one frame catches up on before it skips ahead.
pub const MAX_LOOPS_PER_UPDATE: u32 = 10;

/// The least of `a` and `b`.
pub open spec fn min_int(a: int, b: int) -> int {
    if a <= b {
        a
    } else {
        b
    }
}

/// How many whole updates a lag of `lag` nanoseconds pays for, at most
/// `MAX_LOOPS_PER_UPDATE`.
pub open spec fn spec_catch_up(lag: int) -> int {
    min_int(lag / (NS_PER_UPDATE as int), MAX_LOOPS_PER_UPDATE as int)
}

/// What drawing a frame came to: nothing was due (the caller waits a
/// little), the frame was drawn, or the scene cannot be drawn (see
/// `AnyScene::draw_ok`).
#[derive(Debug, Clone, Copy, PartialEq, Eq, Structural)]
pub enum DrawOutcome {
    Wait,
    Drawn,
    Faulted,
}

/// The game loop's counters, in nanoseconds of the clock: fixed rate
/// updates that catch up on lag, and frames drawn when due.
pub struct Game {
    pub prev_tick: u128,
    pub next_tick: u128,
    pub tick_loops: u32,
    pub lag: u128,
    pub next_draw_tick: u128,
    pub should_draw: bool,
    pub scene: Option<AnyScene>,
}

/// Where the next frame is due: a schedule that has fallen more than an
/// update behind the clock starts again from now.
pub open spec fn spec_align_draw_tick(next_draw_tick: u128, current: u128) -> u128 {
    if current > next_draw_tick + NS_PER_UPDATE {
        current
    } else {
        next_draw_tick
    }
}

/// Aligns the frame schedule with the clock (see `spec_align_draw_tick`).
pub fn align_draw_tick(next_draw_tick: u128, current: u128) -> (r: u128)
    ensures
        r == spec_align_draw_tick(next_draw_tick, current),
{
    if current > next_draw_tick && current - next_draw_tick > NS_PER_UPDATE {
        current
    } else {
        next_draw_tick
    }
}

/// One step of the frame schedule at a clock reading `now`: a frame is due
/// once the clock has reached `next`, and the next one is an update's time
/// later; past the last time the clock can tell, no frame is due.
pub open spec fn spec_due_frame(next: u128, now: u128) -> (u128, bool) {
    if now >= next && next <= u128::MAX - NS_PER_UPDATE {
        ((next + NS_PER_UPDATE) as u128, true)
    } else {
        (next, false)
    }
}

/// Whether a frame is due at `now`, and where the schedule goes (see
/// `spec_due_frame`).
pub fn due_frame(next: u128, now: u128) -> (r: (u128, bool))
    ensures
        r == spec_due_frame(next, now),
{
    if now >= next && next <= u128::MAX - NS_PER_UPDATE {
        (next + NS_PER_UPDATE, true)
    } else {
        (next, false)
    }
}

impl Game {
    /// The scene, if any, keeps its invariant.
    pub open spec fn wf(&self) -> bool {
        self.scene is Some ==> self.scene.unwrap().wf()
    }

    /// The counters after reading the clock at `current`: the time since
    /// the last reading (none where the clock went back) joins the lag, and
    /// the lag pays for as many whole updates as it can, at most
    /// `MAX_LOOPS_PER_UPDATE`.
    pub open spec fn spec_advanced(self, current: u128) -> Game {
        let elapsed = if current >= self.prev_tick {
            current - self.prev_tick
        } else {
            0int
        };
        let lag = min_int(self.lag + elapsed, u128::MAX as int);
        let loops = spec_catch_up(lag);
        Game {
            prev_tick: current,
            next_tick: min_int(current + NS_PER_UPDATE, u128::MAX as int) as u128,
            tick_loops: loops as u32,
            lag: (lag - loops * NS_PER_UPDATE) as u128,
            ..self
        }
    }

    /// The counters after skipping ahead to a fresh reading `now`: no
    /// update this frame.
    pub open spec fn spec_resynced(self, now: u128) -> Game {
        Game {
            prev_tick: now,
            next_tick: min_int(now + NS_PER_UPDATE, u128::MAX as int) as u128,
            tick_loops: 0,
            ..self
        }
    }

    /// The counters after reading the clock, skipping ahead on a second
    /// reading where the lag would need `MAX_LOOPS_PER_UPDATE` updates.
    pub open spec fn spec_timed(self, current: u128, now: u128) -> Game {
        let a = self.spec_advanced(current);
        if a.tick_loops == MAX_LOOPS_PER_UPDATE {
            a.spec_resynced(now)
        } else {
            a
        }
    }

    /// A game with no scene, its counters at zero.
    pub fn new() -> (g: Game)
        ensures
            g.prev_tick == 0 && g.next_tick == 0 && g.tick_loops == 0 && g.lag == 0,
            g.next_draw_tick == 0 && !g.should_draw,
            g.scene is None,
    {
        Game { prev_tick: 0, next_tick: 0, tick_loops: 0, lag: 0, next_draw_tick: 0, should_draw: false, scene: None }
    }

    /// Starts the update and frame counts afresh for a new scene.
    pub fn reset_for_next_scene(&mut self)
        ensures
            final(self).tick_loops == 0,
            final(self).next_draw_tick == 0,
            final(self).prev_tick == old(self).prev_tick,
            final(self).next_tick == old(self).next_tick,
            final(self).lag == old(self).lag,
            final(self).should_draw == old(self).should_draw,
            final(self).scene == old(self).scene,
    {
        self.tick_loops = 0;
        self.next_draw_tick = 0;
    }

    /// Takes a clock reading into the counters (see `spec_advanced`);
    /// returns whether the lag asked for the most updates a frame allows.
    pub fn advance_clock(&mut self, current: u128) -> (skipped: bool)
        ensures
            final(self).prev_tick == old(self).spec_advanced(current).prev_tick,
            final(self).next_tick == old(self).spec_advanced(current).next_tick,
            final(self).tick_loops == old(self).spec_advanced(current).tick_loops,
            final(self).lag == old(self).spec_advanced(current).lag,
            final(self).next_draw_tick == old(self).next_draw_tick,
            final(self).should_draw == old(self).should_draw,
            final(self).scene == old(self).scene,
            skipped == (final(self).tick_loops == MAX_LOOPS_PER_UPDATE),
    {
        let elapsed: u128 = if current >= self.prev_tick {
            current - self.prev_tick
        } else {
            0
        };
        self.prev_tick = current;
        self.next_tick = current.saturating_add(NS_PER_UPDATE);
        self.lag = self.lag.saturating_add(elapsed);
        self.tick_loops = 0;
        let ghost lag0: int = self.lag as int;
        while self.lag >= NS_PER_UPDATE && self.tick_loops < MAX_LOOPS_PER_UPDATE
            invariant
                self.tick_loops <= MAX_LOOPS_PER_UPDATE,
                self.lag + self.tick_loops * NS_PER_UPDATE == lag0,
                self.prev_tick == current,
                self.next_tick == old(self).spec_advanced(current).next_tick,
                lag0 == old(self).spec_advanced(current).lag + old(self).spec_advanced(current).tick_loops * NS_PER_UPDATE,
                self.next_draw_tick == old(self).next_draw_tick,
                self.should_draw == old(self).should_draw,
                self.scene == old(self).scene,
            decreases MAX_LOOPS_PER_UPDATE - self.tick_loops,
        {
            self.lag = self.lag - NS_PER_UPDATE;
            self.tick_loops = self.tick_loops + 1;
        }
        proof {
            let loops = self.tick_loops as int;
            let n = NS_PER_UPDATE as int;
            if loops < MAX_LOOPS_PER_UPDATE {
                assert(self.lag < n);
                vstd::arithmetic::div_mod::lemma_fundamental_div_mod_converse(lag0, n, loops, self.lag as int);
            } else {
                assert(lag0 >= 10 * n);
                vstd::arithmetic::div_mod::lemma_div_is_ordered(10 * n, lag0, n);
                vstd::arithmetic::div_mod::lemma_div_multiples_vanish(10, n);
            }
        }
        self.tick_loops == MAX_LOOPS_PER_UPDATE
    }

    /// Skips ahead to a fresh clock reading `now` (see `spec_resynced`).
    pub fn resync(&mut self, now: u128)
        ensures
            final(self).prev_tick == old(self).spec_resynced(now).prev_tick,
            final(self).next_tick == old(self).spec_resynced(now).next_tick,
            final(self).tick_loops == 0,
            final(self).lag == old(self).lag,
            final(self).next_draw_tick == old(self).next_draw_tick,
            final(self).should_draw == old(self).should_draw,
            final(self).scene == old(self).scene,
    {
        self.prev_tick = now;
        self.next_tick = now.saturating_add(NS_PER_UPDATE);
        self.tick_loops = 0;
    }
}

impl Game {
    /// What an update does to the game and to the context (see `update`).
    pub open spec fn updated(self, after: Self, took: bool, ctx: GameContext, after_ctx: GameContext) -> bool {
        &&& exists|current: u128, now: u128|
            {
                let t = #[trigger] self.spec_timed(current, now);
                &&& after.prev_tick == t.prev_tick
                &&& after.next_tick == t.next_tick
                &&& after.tick_loops == t.tick_loops
                &&& after.lag == t.lag
            }
        &&& after.tick_loops < MAX_LOOPS_PER_UPDATE
        &&& after.next_draw_tick == self.next_draw_tick
        &&& after.should_draw == self.should_draw
        &&& took == (self.scene is None || self.scene.unwrap().update_ok(after.tick_loops))
        &&& took && self.scene is Some ==> after.scene is Some && self.scene.unwrap().ticked(
            after.scene.unwrap(),
            after.tick_loops,
            ctx,
            after_ctx,
        )
        &&& !took || self.scene is None ==> after.scene == self.scene && after_ctx
            == ctx
    }

    /// One update: reads the clock, runs the counters (see `spec_timed`),
    /// and gives the scene a tick of `tick_loops` ticks.  Returns `false`,
    /// leaving the scene and the context as they were, where the scene
    /// cannot take that tick (see `AnyScene::update_ok`).
    pub fn update<C: Clock, I: Interpolate>(&mut self, clock: &C, game_context: &mut GameContext, interpolation: &I) -> (took: bool)
        requires
            old(self).wf(),
        ensures
            final(self).wf(),
            old(self).updated(*final(self), took, *old(game_context), *final(game_context)),
    {
        let current: u128 = clock.elapsed_since_start();
        let ghost mut now: u128 = current;
        if self.advance_clock(current) {
            let later: u128 = clock.elapsed_since_start();
            proof {
                now = later;
            }
            self.resync(later);
        }
        assert(self.tick_loops == old(self).spec_timed(current, now).tick_loops);
        match &mut self.scene {
            Some(scene) => {
                if !scene.can_update(self.tick_loops) {
                    return false;
                }
                scene.update(self.tick_loops, game_context, interpolation);
                true
            },
            None => true,
        }
    }

    /// What drawing a frame does to the game and to the context (see `draw`).
    pub open spec fn drawn(self, after: Self, outcome: DrawOutcome, ctx: GameContext, after_ctx: GameContext) -> bool {
        &&& after.prev_tick == self.prev_tick
        &&& after.next_tick == self.next_tick
        &&& after.tick_loops == self.tick_loops
        &&& after.lag == self.lag
        &&& after.next_draw_tick >= self.next_draw_tick
        &&& exists|current: u128, first: u128|
            #![trigger spec_due_frame(spec_align_draw_tick(self.next_draw_tick, current), first)]
            {
                let nd = spec_align_draw_tick(self.next_draw_tick, current);
                &&& !after.should_draw ==> !spec_due_frame(nd, first).1 && after.next_draw_tick == nd
                &&& after.should_draw ==> spec_due_frame(nd, first).1 && after.next_draw_tick
                    >= spec_due_frame(nd, first).0
            }
        &&& (outcome == DrawOutcome::Wait) == !after.should_draw
        &&& (outcome == DrawOutcome::Faulted) == (after.should_draw && ctx.renderer is Some
            && self.scene is Some && !self.scene.unwrap().draw_ok(ctx.screen_size))
        &&& after.scene == self.scene
        &&& outcome != DrawOutcome::Drawn ==> after_ctx == ctx
        &&& outcome == DrawOutcome::Drawn ==> {
            &&& after_ctx.renderer is Some == ctx.renderer is Some
            &&& ctx.renderer is Some ==> after_ctx.renderer.unwrap().commands@
                =~= ctx.renderer.unwrap().commands@ + seq![clear_black()] + (if self.scene is Some {
                self.scene.unwrap().spec_draw(ctx.screen_size, ctx.mouse_context)
            } else {
                Seq::<RenderCommand>::empty()
            }) + seq![RenderCommand::Present]
            &&& after_ctx.mouse_context == ctx.mouse_context
            &&& after_ctx.screen_size == ctx.screen_size
            &&& after_ctx.next_scene == ctx.next_scene
            &&& after_ctx.asset_loader == ctx.asset_loader
            &&& after_ctx.audio == ctx.audio
            &&& after_ctx.shutdown_flag == ctx.shutdown_flag
        }
    }

    /// One frame: when a frame is due, clears the screen to black, has the
    /// scene queue its draw commands and presents them.  The frame
    /// schedule first catches up with the clock (see `spec_align_draw_tick`);
    /// a frame is due when the next reading has reached it, and the schedule
    /// then moves on by an update's time for as long as the clock has
    /// reached it (see `due_frame`).
    pub fn draw<C: Clock>(&mut self, clock: &C, game_context: &mut GameContext) -> (outcome: DrawOutcome)
        requires
            old(self).wf(),
        ensures
            final(self).wf(),
            old(self).drawn(*final(self), outcome, *old(game_context), *final(game_context)),
    {
        self.should_draw = false;
        let current: u128 = clock.elapsed_since_start();
        let aligned: u128 = align_draw_tick(self.next_draw_tick, current);
        self.next_draw_tick = aligned;
        let first: u128 = clock.elapsed_since_start();
        let (after_first, due): (u128, bool) = due_frame(aligned, first);
        if due {
            self.next_draw_tick = after_first;
            self.should_draw = true;
            loop
                invariant
                    self.next_draw_tick >= after_first,
                    after_first > aligned,
                    aligned >= old(self).next_draw_tick,
                    self.should_draw,
                    self.prev_tick == old(self).prev_tick,
                    self.next_tick == old(self).next_tick,
                    self.tick_loops == old(self).tick_loops,
                    self.lag == old(self).lag,
                    self.scene == old(self).scene,
                decreases u128::MAX - self.next_draw_tick,
            {
                let now: u128 = clock.elapsed_since_start();
                let (next, again): (u128, bool) = due_frame(self.next_draw_tick, now);
                if !again {
                    break;
                }
                self.next_draw_tick = next;
            }
        }
        proof {
            let nd = spec_align_draw_tick(old(self).next_draw_tick, current);
            assert(nd == aligned);
            assert(!self.should_draw ==> !spec_due_frame(nd, first).1 && self.next_draw_tick == nd);
            assert(self.should_draw ==> spec_due_frame(nd, first).1 && self.next_draw_tick >= spec_due_frame(nd, first).0);
        }
        if !self.should_draw {
            return DrawOutcome::Wait;
        }
        let has_renderer: bool = game_context.renderer.is_some();
        match &self.scene {
            Some(scene) => {
                if has_renderer && !scene.can_draw(game_context.screen_size) {
                    return DrawOutcome::Faulted;
                }
            },
            None => {},
        }
        match &mut game_context.renderer {
            Some(renderer) => {
                renderer.send_command(RenderCommand::Clear { r: 0, g: 0, b: 0, a: 255 });
            },
            None => {},
        }
        match &mut self.scene {
            Some(scene) => {
                scene.draw(game_context);
            },
            None => {},
        }
        match &mut game_context.renderer {
            Some(renderer) => {
                renderer.send_command(RenderCommand::Present);
            },
            None => {},
        }
        DrawOutcome::Drawn
    }

    /// Starts the current scene, then has the audio prepare for the sounds
    /// it loaded.
    pub fn start(&mut self, game_context: &mut GameContext)
        requires
            old(self).wf(),
        ensures
            final(self).wf(),
            old(self).scene is Some ==> final(self).scene is Some && old(self).scene.unwrap().inited(final(self).scene.unwrap()),
            old(self).scene is None ==> final(self).scene is None && final(game_context).asset_loader == old(game_context).asset_loader,
            final(game_context).asset_loader is Some == old(game_context).asset_loader is Some,
            old(self).scene is Some && old(game_context).asset_loader is Some ==> final(game_context).asset_loader.unwrap().requested@
                == old(game_context).asset_loader.unwrap().requested@ + old(self).scene.unwrap().spec_init_textures(),
            final(game_context).audio is Some == old(game_context).audio is Some,
            old(game_context).audio is Some ==> final(game_context).audio.unwrap().commands@
                == old(game_context).audio.unwrap().commands@ + (if old(self).scene is Some && old(game_context).asset_loader is Some {
                old(self).scene.unwrap().spec_init_sounds()
            } else {
                Seq::empty()
            }) + seq![AudioCommand::Prepare],
            final(game_context).renderer == old(game_context).renderer,
            final(game_context).mouse_context == old(game_context).mouse_context,
            final(game_context).screen_size == old(game_context).screen_size,
            final(game_context).next_scene == old(game_context).next_scene,
            final(game_context).shutdown_flag == old(game_context).shutdown_flag,
            final(self).prev_tick == old(self).prev_tick,
            final(self).next_tick == old(self).next_tick,
            final(self).tick_loops == old(self).tick_loops,
            final(self).lag == old(self).lag,
            final(self).next_draw_tick == old(self).next_draw_tick,
            final(self).should_draw == old(self).should_draw,
    {
        match &mut self.scene {
            Some(scene) => {
                scene.init(game_context);
            },
            None => {},
        }
        match &mut game_context.audio {
            Some(audio) => {
                audio.prepare();
            },
            None => {},
        }
    }

    /// What switching scenes does to the game and to the context (see `switch_scene`).
    pub open spec fn switched(self, after: Self, switched: bool, ctx: GameContext, after_ctx: GameContext) -> bool {
        &&& switched == ctx.next_scene is Some
        &&& !switched ==> after.scene == self.scene && after_ctx == ctx
            && after.tick_loops == self.tick_loops && after.next_draw_tick == self.next_draw_tick
        &&& switched ==> {
            let next = ctx.next_scene.unwrap();
            &&& after.scene is Some
            &&& next.inited(after.scene.unwrap())
            &&& after_ctx.next_scene is None
            &&& after.tick_loops == 0
            &&& after.next_draw_tick == 0
            &&& after_ctx.asset_loader is Some == ctx.asset_loader is Some
            &&& ctx.asset_loader is Some ==> after_ctx.asset_loader.unwrap().requested@
                =~= ctx.asset_loader.unwrap().requested@ + next.spec_init_textures()
            &&& after_ctx.audio is Some == ctx.audio is Some
            &&& ctx.audio is Some ==> after_ctx.audio.unwrap().commands@
                =~= ctx.audio.unwrap().commands@ + (if ctx.asset_loader is Some {
                next.spec_init_sounds()
            } else {
                Seq::empty()
            }) + seq![AudioCommand::Prepare]
            &&& after_ctx.renderer == ctx.renderer
            &&& after_ctx.mouse_context == ctx.mouse_context
            &&& after_ctx.screen_size == ctx.screen_size
            &&& after_ctx.shutdown_flag == ctx.shutdown_flag
        }
        &&& after.prev_tick == self.prev_tick
        &&& after.next_tick == self.next_tick
        &&& after.lag == self.lag
        &&& after.should_draw == self.should_draw
    }

    /// Switches to the scene queued in the context, if any: starts it,
    /// makes it the current scene, starts the counts afresh (see
    /// `reset_for_next_scene`) and has the audio prepare.  Returns whether
    /// it switched.
    pub fn switch_scene(&mut self, game_context: &mut GameContext) -> (switched: bool)
        requires
            old(self).wf(),
            old(game_context).next_scene is Some ==> old(game_context).next_scene.unwrap().wf(),
        ensures
            final(self).wf(),
            old(self).switched(*final(self), switched, *old(game_context), *final(game_context)),
    {
        match game_context.next_scene.take() {
            Some(next) => {
                let mut next_scene: AnyScene = next;
                next_scene.init(game_context);
                self.scene = Some(next_scene);
                self.reset_for_next_scene();
                match &mut game_context.audio {
                    Some(audio) => {
                        audio.prepare();
                    },
                    None => {},
                }
                true
            },
            None => false,
        }
    }
}

/// What one frame of the game loop came to: the scene refused its tick
/// (see `Game::update`), or the frame went on to its drawing.
#[derive(Debug, Clone, Copy, PartialEq, Eq, Structural)]
pub enum FrameOutcome {
    Refused,
    Drew(DrawOutcome),
}

impl Game {
    /// One frame of the game loop, in its order: the update, then the
    /// switch to a scene the update queued, then the drawing.  Nothing
    /// follows a refused update.
    pub fn frame<C: Clock, I: Interpolate>(&mut self, clock: &C, game_context: &mut GameContext, interpolation: &I) -> (outcome: FrameOutcome)
        requires
            old(self).wf(),
            old(game_context).next_scene is Some ==> old(game_context).next_scene.unwrap().wf(),
        ensures
            final(self).wf(),
            outcome == FrameOutcome::Refused ==> old(self).updated(
                *final(self),
                false,
                *old(game_context),
                *final(game_context),
            ),
            outcome matches FrameOutcome::Drew(d) ==> exists|g1: Game, c1: GameContext, sw: bool, g2: Game, c2: GameContext|
                #![trigger old(self).updated(g1, true, *old(game_context), c1), g1.switched(g2, sw, c1, c2)]
                old(self).updated(g1, true, *old(game_context), c1) && g1.switched(g2, sw, c1, c2) && g2.drawn(
                    *final(self),
                    d,
                    c2,
                    *final(game_context),
                ),
    {
        if !self.update(clock, game_context, interpolation) {
            return FrameOutcome::Refused;
        }
        let ghost g1 = *self;
        let ghost c1 = *game_context;
        proof {
            lemma_update_keeps_next_wf(*old(self), g1, *old(game_context), c1);
        }
        let sw: bool = self.switch_scene(game_context);
        let ghost g2 = *self;
        let ghost c2 = *game_context;
        let d: DrawOutcome = self.draw(clock, game_context);
        proof {
            assert(old(self).updated(g1, true, *old(game_context), c1) && g1.switched(g2, sw, c1, c2) && g2.drawn(
                *self,
                d,
                c2,
                *game_context,
            ));
        }
        FrameOutcome::Drew(d)
    }
}

/// A scene the update queues is well formed, as is the one queued before.
proof fn lemma_update_keeps_next_wf(g: Game, g1: Game, ctx: GameContext, c1: GameContext)
    requires
        g.wf(),
        ctx.next_scene is Some ==> ctx.next_scene.unwrap().wf(),
        g.updated(g1, true, ctx, c1),
    ensures
        c1.next_scene is Some ==> c1.next_scene.unwrap().wf(),
{
}

/// An input event of the backend, with the pointer in whole screen pixels.
#[derive(Debug, Clone, Copy, PartialEq, Eq, Structural)]
pub enum BackendEvent {
    /// The window was closed, or Escape pressed.
    Quit,
    /// The pointer moved, with the buttons held.
    MouseMotion { left: bool, right: bool, x: isize, y: isize },
    /// A button went down: whether it is the left or the right one.
    MouseButtonDown { left: bool, right: bool, x: isize, y: isize },
    /// The window's new size.
    Resized { width: i32, height: i32 },
    /// Anything the game does not follow.
    Other,
}

/// The context after an input event.
pub open spec fn spec_after_event(c: GameContext, event: BackendEvent) -> GameContext {
    match event {
        BackendEvent::MouseMotion { left, right, x, y } => GameContext {
            mouse_context: MouseContext { left_clicked: left, right_clicked: right, position: Some((x, y)) },
            ..c
        },
        BackendEvent::MouseButtonDown { left, right, x, y } => GameContext {
            mouse_context: MouseContext { left_clicked: left, right_clicked: right, position: Some((x, y)) },
            ..c
        },
        BackendEvent::Resized { width, height } => GameContext { screen_size: (width as u32, height as u32), ..c },
        _ => c,
    }
}

impl GameContext {
    /// Follows an input event: the pointer's buttons and position, or the
    /// window's size.  Returns whether the game goes on.
    pub fn handle_event(&mut self, event: BackendEvent) -> (keep_running: bool)
        ensures
            keep_running == !(event is Quit),
            *final(self) == spec_after_event(*old(self), event),
    {
        match event {
            BackendEvent::Quit => false,
            BackendEvent::MouseMotion { left, right, x, y } => {
                self.mouse_context.update(left, right, Some((x, y)));
                true
            },
            BackendEvent::MouseButtonDown { left, right, x, y } => {
                self.mouse_context.update(left, right, Some((x, y)));
                true
            },
            BackendEvent::Resized { width, height } => {
                self.screen_size = (width as u32, height as u32);
                true
            },
            BackendEvent::Other => true,
        }
    }
}

/// Catching up loses no lag but whole updates: the updates paid for and
/// the lag left add up to the lag there was, at most
/// `MAX_LOOPS_PER_UPDATE` updates are paid for, and unless that many were,
/// less than one update's time is left.
pub proof fn lemma_catch_up_conserves_lag(lag: int)
    requires
        lag >= 0,
    ensures
        0 <= spec_catch_up(lag) <= MAX_LOOPS_PER_UPDATE,
        lag - spec_catch_up(lag) * NS_PER_UPDATE >= 0,
        spec_catch_up(lag) < MAX_LOOPS_PER_UPDATE ==> lag - spec_catch_up(lag) * NS_PER_UPDATE < NS_PER_UPDATE,
{
    let n = NS_PER_UPDATE as int;
    vstd::arithmetic::div_mod::lemma_fundamental_div_mod(lag, n);
    vstd::arithmetic::div_mod::lemma_div_pos_is_pos(lag, n);
    let q = lag / n;
    if q >= 10 {
        assert(10 * n <= q * n) by (nonlinear_arith)
            requires
                q >= 10,
                n > 0,
        ;
    }
}

/// A frame's clock reading moves the counters so that the lag left and the
/// updates paid for make up the lag there was plus the time since the last
/// reading (none if the clock went back), and the update rate is never
/// exceeded.
pub proof fn lemma_advanced_accounts_for_time(g: Game, current: u128)
    ensures
        ({
            let a = g.spec_advanced(current);
            let elapsed = if current >= g.prev_tick {
                current - g.prev_tick
            } else {
                0int
            };
            &&& a.lag + a.tick_loops * NS_PER_UPDATE == min_int(g.lag + elapsed, u128::MAX as int)
            &&& a.tick_loops <= MAX_LOOPS_PER_UPDATE
            &&& a.tick_loops < MAX_LOOPS_PER_UPDATE ==> a.lag < NS_PER_UPDATE
            &&& a.prev_tick == current
        }),
{
    let elapsed = if current >= g.prev_tick {
        current - g.prev_tick
    } else {
        0int
    };
    lemma_catch_up_conserves_lag(min_int(g.lag + elapsed, u128::MAX as int));
}

} // verus!
