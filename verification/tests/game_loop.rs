use std::cell::RefCell;
use std::collections::VecDeque;

use mikumikutower::asset_loader::TextureRequests;
use mikumikutower::audio::{AudioCommand, AudioRequests};
use mikumikutower::clock::Clock;
use mikumikutower::constants::{
    MusicId, SfxId, MUSIC_ID_MOON, MUSIC_ID_TETO, SFX_ID_BLIP, TEXTURE_ID_FONTSHEET, TEXTURE_ID_GAMEOVER,
    TEXTURE_ID_LEEKSHEET,
};
use mikumikutower::game::{
    align_draw_tick, due_frame, BackendEvent, FrameOutcome, DrawOutcome, Game, GameContext, MouseContext, MAX_LOOPS_PER_UPDATE,
    NS_PER_UPDATE,
};
use mikumikutower::renderer::{RenderCommand, RenderQueue};
use mikumikutower::scene::level::{Interpolate, LevelScene, Tower};
use mikumikutower::scene::shutting_down::ShuttingDownScene;
use mikumikutower::scene::title_screen::TitleScene;
use mikumikutower::scene::AnyScene;
use mikumikutower::Rect;

struct Lerp;

impl Interpolate for Lerp {
    fn interpolate(&self, z0: isize, z1: isize, ticks_waited: u32, wait_for: u32) -> isize {
        let alpha = ticks_waited as f32 / wait_for as f32;
        (z0 as f32 - z0 as f32 * alpha + z1 as f32 * alpha) as isize
    }
}

/// A clock that gives the readings it was set up with, then repeats the last.
struct ScriptedClock {
    readings: RefCell<VecDeque<u128>>,
    last: RefCell<u128>,
}

impl ScriptedClock {
    fn new(readings: &[u128]) -> ScriptedClock {
        ScriptedClock { readings: RefCell::new(readings.iter().copied().collect()), last: RefCell::new(0) }
    }
}

impl Clock for ScriptedClock {
    fn elapsed_since_start(&self) -> u128 {
        if let Some(r) = self.readings.borrow_mut().pop_front() {
            *self.last.borrow_mut() = r;
        }
        *self.last.borrow()
    }
}

const NS: u128 = NS_PER_UPDATE;

#[test]
fn sixty_updates_a_second() {
    assert_eq!(NS, 1_000_000_000 / 60);
    assert_eq!(MAX_LOOPS_PER_UPDATE, 10);
}

#[test]
fn lag_pays_for_whole_updates() {
    let mut g = Game::new();
    assert!(!g.advance_clock(3 * NS + 5));
    assert_eq!(g.tick_loops, 3);
    assert_eq!(g.lag, 5);
    assert_eq!(g.prev_tick, 3 * NS + 5);
    assert_eq!(g.next_tick, 4 * NS + 5);
    assert!(!g.advance_clock(4 * NS));
    assert_eq!(g.tick_loops, 1);
    assert_eq!(g.lag, 0);
    assert!(!g.advance_clock(4 * NS + 1));
    assert_eq!(g.tick_loops, 0);
    assert_eq!(g.lag, 1);
}

#[test]
fn lag_beyond_ten_updates_skips_ahead() {
    let mut g = Game::new();
    assert!(g.advance_clock(25 * NS));
    assert_eq!(g.tick_loops, 10);
    assert_eq!(g.lag, 15 * NS);
    g.resync(25 * NS + 7);
    assert_eq!(g.tick_loops, 0);
    assert_eq!(g.prev_tick, 25 * NS + 7);
    assert_eq!(g.next_tick, 26 * NS + 7);
    assert_eq!(g.lag, 15 * NS);
}

#[test]
fn a_clock_going_back_adds_no_lag() {
    let mut g = Game::new();
    g.advance_clock(10);
    assert!(!g.advance_clock(5));
    assert_eq!(g.lag, 10);
    assert_eq!(g.prev_tick, 5);
}

#[test]
fn update_without_a_scene() {
    let mut g = Game::new();
    let mut ctx = GameContext::default();
    let clock = ScriptedClock::new(&[25 * NS, 25 * NS + 7]);
    assert!(g.update(&clock, &mut ctx, &Lerp));
    assert_eq!(g.tick_loops, 0);
    assert_eq!(g.prev_tick, 25 * NS + 7);
}

#[test]
fn update_ticks_the_scene() {
    let mut g = Game::new();
    g.scene = Some(AnyScene::ShuttingDown(ShuttingDownScene::default()));
    let mut ctx = GameContext::default();
    let clock = ScriptedClock::new(&[2 * NS]);
    assert!(g.update(&clock, &mut ctx, &Lerp));
    assert_eq!(g.tick_loops, 2);
    match &g.scene {
        Some(AnyScene::ShuttingDown(s)) => {
            assert_eq!(s.countdown, mikumikutower::ReadyState::Cooldown { wait_for: 120, ticks_waited: 2 })
        },
        _ => panic!("the scene stays"),
    }
}

#[test]
fn update_refuses_a_tick_in_which_a_tower_would_fire() {
    let mut level = LevelScene::default();
    level.add_tower(Tower::basic(Rect::new(27, 3, 32, 32)));
    let mut g = Game::new();
    g.scene = Some(AnyScene::Level(level));
    let mut ctx = GameContext::default();
    let clock = ScriptedClock::new(&[NS]);
    assert!(!g.update(&clock, &mut ctx, &Lerp));
    assert_eq!(g.tick_loops, 1);
    match &g.scene {
        Some(AnyScene::Level(l)) => assert_eq!(l.enemies[0].path_index, 0),
        _ => panic!("the scene stays"),
    }
}

#[test]
fn frames_are_framed_by_clear_and_present() {
    let mut g = Game::new();
    let mut ctx = GameContext::default();
    ctx.renderer = Some(RenderQueue::new());
    let clock = ScriptedClock::new(&[100, 100]);
    assert_eq!(g.draw(&clock, &mut ctx), DrawOutcome::Drawn);
    assert_eq!(g.next_draw_tick, NS);
    assert!(g.should_draw);
    assert_eq!(
        ctx.renderer.as_mut().unwrap().take_commands(),
        vec![RenderCommand::Clear { r: 0, g: 0, b: 0, a: 255 }, RenderCommand::Present]
    );
    let clock = ScriptedClock::new(&[200, 200]);
    assert_eq!(g.draw(&clock, &mut ctx), DrawOutcome::Wait);
    assert!(!g.should_draw);
    assert!(ctx.renderer.as_ref().unwrap().commands.is_empty());
}

#[test]
fn a_late_frame_schedule_starts_again_from_now() {
    assert_eq!(align_draw_tick(0, NS + 1), NS + 1);
    assert_eq!(align_draw_tick(0, NS), 0);
    assert_eq!(align_draw_tick(5 * NS, 0), 5 * NS);
    let mut g = Game::new();
    let mut ctx = GameContext::default();
    let clock = ScriptedClock::new(&[10 * NS, 10 * NS, 10 * NS]);
    assert_eq!(g.draw(&clock, &mut ctx), DrawOutcome::Drawn);
    assert_eq!(g.next_draw_tick, 11 * NS);
}

#[test]
fn frames_of_scenes_with_buttons_fault() {
    let mut g = Game::new();
    g.scene = Some(AnyScene::Title(TitleScene::default()));
    let mut ctx = GameContext::default();
    ctx.renderer = Some(RenderQueue::new());
    let clock = ScriptedClock::new(&[1]);
    assert_eq!(g.draw(&clock, &mut ctx), DrawOutcome::Faulted);
    assert!(ctx.renderer.unwrap().commands.is_empty());
    let mut headless = GameContext::default();
    let mut g2 = Game::new();
    g2.scene = Some(AnyScene::Title(TitleScene::default()));
    assert_eq!(g2.draw(&ScriptedClock::new(&[1]), &mut headless), DrawOutcome::Drawn);
}

#[test]
fn switching_to_a_queued_scene() {
    let mut g = Game::new();
    let mut ctx = GameContext::default();
    ctx.asset_loader = Some(TextureRequests::new());
    ctx.audio = Some(AudioRequests::new());
    assert!(!g.switch_scene(&mut ctx));
    g.tick_loops = 3;
    g.next_draw_tick = 99;
    ctx.queue_game_over();
    assert!(g.switch_scene(&mut ctx));
    assert!(ctx.next_scene.is_none());
    assert!(matches!(g.scene, Some(AnyScene::GameOver(_))));
    assert_eq!(g.tick_loops, 0);
    assert_eq!(g.next_draw_tick, 0);
    assert_eq!(ctx.asset_loader.unwrap().requested, vec![TEXTURE_ID_GAMEOVER, TEXTURE_ID_LEEKSHEET, TEXTURE_ID_FONTSHEET]);
    assert_eq!(
        ctx.audio.unwrap().commands,
        vec![
            AudioCommand::LoadSfx(SfxId(SFX_ID_BLIP)),
            AudioCommand::LoadMusic(MusicId(MUSIC_ID_MOON)),
            AudioCommand::LoadMusic(MusicId(MUSIC_ID_TETO)),
            AudioCommand::Prepare,
        ]
    );
}

#[test]
fn starting_prepares_the_audio() {
    let mut g = Game::new();
    g.scene = Some(AnyScene::ShuttingDown(ShuttingDownScene::default()));
    let mut ctx = GameContext::default();
    ctx.audio = Some(AudioRequests::new());
    g.start(&mut ctx);
    assert_eq!(ctx.audio.unwrap().commands, vec![AudioCommand::Prepare]);
}

#[test]
fn context_queues_scenes() {
    let mut ctx = GameContext::default();
    assert_eq!(ctx.screen_size, (1280, 720));
    ctx.queue_level();
    assert!(matches!(ctx.next_scene, Some(AnyScene::Level(_))));
    ctx.shutdown();
    assert!(matches!(ctx.next_scene, Some(AnyScene::ShuttingDown(_))));
    ctx.queue_game_over();
    assert!(matches!(ctx.next_scene, Some(AnyScene::GameOver(_))));
}

#[test]
fn events_move_the_pointer_and_resize_the_screen() {
    let mut ctx = GameContext::default();
    assert!(ctx.handle_event(BackendEvent::MouseMotion { left: true, right: false, x: 3, y: 4 }));
    assert_eq!(ctx.mouse_context, MouseContext { left_clicked: true, right_clicked: false, position: Some((3, 4)) });
    assert!(ctx.handle_event(BackendEvent::MouseButtonDown { left: false, right: true, x: 7, y: 8 }));
    assert_eq!(ctx.mouse_context, MouseContext { left_clicked: false, right_clicked: true, position: Some((7, 8)) });
    assert!(ctx.handle_event(BackendEvent::Resized { width: 800, height: 600 }));
    assert_eq!(ctx.screen_size, (800, 600));
    assert!(ctx.handle_event(BackendEvent::Other));
    assert!(!ctx.handle_event(BackendEvent::Quit));
    let mut m = MouseContext::default();
    m.update(true, true, None);
    m.consume_left_click();
    assert_eq!(m, MouseContext { left_clicked: false, right_clicked: true, position: None });
    m.consume_right_click();
    assert_eq!(m, MouseContext::default());
}

#[test]
fn a_frame_is_due_once_the_clock_reaches_it() {
    assert_eq!(due_frame(NS, NS - 1), (NS, false));
    assert_eq!(due_frame(NS, NS), (2 * NS, true));
    assert_eq!(due_frame(0, 5 * NS), (NS, true));
    assert_eq!(due_frame(u128::MAX - NS, u128::MAX), (u128::MAX, true));
    assert_eq!(due_frame(u128::MAX - NS + 1, u128::MAX), (u128::MAX - NS + 1, false));
}

#[test]
fn a_late_frame_schedule_catches_up_by_whole_updates() {
    let mut g = Game::new();
    g.next_draw_tick = NS;
    let mut ctx = GameContext::default();
    let clock = ScriptedClock::new(&[NS + 10, 3 * NS + 10]);
    assert_eq!(g.draw(&clock, &mut ctx), DrawOutcome::Drawn);
    assert_eq!(g.next_draw_tick, 4 * NS);
}

#[test]
fn a_frame_updates_then_switches_then_draws() {
    let mut g = Game::new();
    g.scene = Some(AnyScene::ShuttingDown(ShuttingDownScene::default()));
    let mut ctx = GameContext::default();
    ctx.renderer = Some(RenderQueue::new());
    ctx.queue_level();
    let clock = ScriptedClock::new(&[NS, NS, NS]);
    assert_eq!(g.frame(&clock, &mut ctx, &Lerp), FrameOutcome::Drew(DrawOutcome::Drawn));
    assert!(matches!(g.scene, Some(AnyScene::Level(_))));
    assert!(ctx.next_scene.is_none());
    assert_eq!(g.tick_loops, 0);
    let commands = ctx.renderer.unwrap().commands;
    assert_eq!(commands[0], RenderCommand::Clear { r: 0, g: 0, b: 0, a: 255 });
    assert_eq!(commands[commands.len() - 1], RenderCommand::Present);
    assert!(commands.len() > 32 * 18);
}

#[test]
fn a_frame_switching_to_a_scene_with_buttons_faults_at_its_drawing() {
    let mut g = Game::new();
    let mut ctx = GameContext::default();
    ctx.renderer = Some(RenderQueue::new());
    ctx.queue_game_over();
    let clock = ScriptedClock::new(&[1, 1, 1]);
    assert_eq!(g.frame(&clock, &mut ctx, &Lerp), FrameOutcome::Drew(DrawOutcome::Faulted));
    assert!(matches!(g.scene, Some(AnyScene::GameOver(_))));
}

#[test]
fn a_frame_stops_at_a_refused_tick() {
    let mut level = LevelScene::default();
    level.add_tower(Tower::basic(Rect::new(27, 3, 32, 32)));
    let mut g = Game::new();
    g.scene = Some(AnyScene::Level(level));
    let mut ctx = GameContext::default();
    ctx.shutdown();
    let clock = ScriptedClock::new(&[NS]);
    assert_eq!(g.frame(&clock, &mut ctx, &Lerp), FrameOutcome::Refused);
    assert!(matches!(g.scene, Some(AnyScene::Level(_))));
    assert!(matches!(ctx.next_scene, Some(AnyScene::ShuttingDown(_))));
}
