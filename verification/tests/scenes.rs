use mikumikutower::asset_loader::TextureRequests;
use mikumikutower::audio::{AudioCommand, AudioRequests};
use mikumikutower::constants::{
    MusicId, SfxId, MUSIC_ID_MOON, MUSIC_ID_PACHEBAL, MUSIC_ID_TETO, SFX_ID_BLIP, SFX_ID_MEME, TEXTURE_ID_FONTSHEET,
    TEXTURE_ID_GAMEOVER, TEXTURE_ID_LEEKSHEET, TEXTURE_ID_MIKU, TEXTURE_ID_MIKU_WAVE, TEXTURE_ID_PORTRAIT,
    TEXTURE_ID_TITLE_BG,
};
use mikumikutower::game::{GameContext, MouseContext};
use mikumikutower::renderer::{RenderCommand, RenderQueue};
use mikumikutower::scene::button::Button;
use mikumikutower::scene::game_over::GameOverScene;
use mikumikutower::scene::level::{Interpolate, LevelScene};
use mikumikutower::scene::loading::TestScene;
use mikumikutower::scene::shutting_down::ShuttingDownScene;
use mikumikutower::scene::title_screen::TitleScene;
use mikumikutower::scene::{screen_layout, AnyScene};
use mikumikutower::{ReadyState, Rect};

struct Lerp;

impl Interpolate for Lerp {
    fn interpolate(&self, z0: isize, z1: isize, ticks_waited: u32, wait_for: u32) -> isize {
        let alpha = ticks_waited as f32 / wait_for as f32;
        (z0 as f32 - z0 as f32 * alpha + z1 as f32 * alpha) as isize
    }
}

fn full_context() -> GameContext {
    let mut ctx = GameContext::default();
    ctx.asset_loader = Some(TextureRequests::new());
    ctx.audio = Some(AudioRequests::new());
    ctx
}

#[test]
fn goodbye_scene_stops_the_game_after_two_seconds() {
    let mut s = ShuttingDownScene::default();
    let mut ctx = GameContext::default();
    s.update(119, &mut ctx);
    assert!(!ctx.shutdown_flag);
    assert_eq!(s.countdown, ReadyState::Cooldown { wait_for: 120, ticks_waited: 119 });
    s.update(1, &mut ctx);
    assert!(ctx.shutdown_flag);
    assert_eq!(s.countdown, ReadyState::Ready);
}

#[test]
fn goodbye_scene_draws_miku_in_the_middle_cell() {
    let mut s = ShuttingDownScene::default();
    let mut ctx = full_context();
    s.init(&mut ctx);
    assert_eq!(ctx.asset_loader.as_ref().unwrap().requested, vec![TEXTURE_ID_MIKU_WAVE]);
    ctx.renderer = Some(RenderQueue::new());
    s.draw(&mut ctx);
    assert_eq!(
        ctx.renderer.unwrap().commands,
        vec![RenderCommand::DrawRect {
            texture_id: TEXTURE_ID_MIKU_WAVE,
            source: Rect::new(0, 0, 320, 320),
            destination: Rect::new(0, 0, 426, 240),
        }]
    );
}

#[test]
fn title_scene_loads_its_assets() {
    let mut s = TitleScene::default();
    let mut ctx = full_context();
    s.init(&mut ctx);
    assert_eq!(ctx.asset_loader.unwrap().requested, vec![TEXTURE_ID_TITLE_BG, TEXTURE_ID_LEEKSHEET, TEXTURE_ID_FONTSHEET]);
    assert_eq!(
        ctx.audio.unwrap().commands,
        vec![
            AudioCommand::LoadSfx(SfxId(SFX_ID_BLIP)),
            AudioCommand::LoadSfx(SfxId(SFX_ID_MEME)),
            AudioCommand::LoadMusic(MusicId(MUSIC_ID_PACHEBAL)),
        ]
    );
    let mut bare = GameContext::default();
    bare.audio = Some(AudioRequests::new());
    s.init(&mut bare);
    assert!(bare.audio.unwrap().commands.is_empty());
}

#[test]
fn title_scene_plays_the_jingle_once_and_the_music_every_period() {
    let mut s = TitleScene::default();
    let mut ctx = full_context();
    s.update(1, &mut ctx);
    assert_eq!(ctx.audio.as_mut().unwrap().take_commands(), vec![AudioCommand::PlaySfx(SfxId(SFX_ID_MEME))]);
    assert_eq!(s.played_intro, ReadyState::Cooldown { wait_for: u32::MAX, ticks_waited: 1 });
    assert_eq!(s.play_music, ReadyState::Cooldown { wait_for: 180, ticks_waited: 1 });
    s.update(179, &mut ctx);
    assert_eq!(s.play_music, ReadyState::Ready);
    assert!(ctx.audio.as_mut().unwrap().take_commands().is_empty());
    s.update(1, &mut ctx);
    assert_eq!(
        ctx.audio.as_mut().unwrap().take_commands(),
        vec![AudioCommand::PlayMusic(MusicId(MUSIC_ID_PACHEBAL))]
    );
    assert_eq!(s.play_music, ReadyState::Cooldown { wait_for: 840, ticks_waited: 1 });
}

#[test]
fn title_start_click_queues_a_level_first() {
    let mut s = TitleScene::default();
    let mut ctx = full_context();
    ctx.mouse_context = MouseContext { left_clicked: true, right_clicked: false, position: Some((100, 30)) };
    s.update(1, &mut ctx);
    assert!(matches!(ctx.next_scene, Some(AnyScene::Level(_))));
    assert!(!s.start_game_btn.clicked);
    assert!(s.quit_btn.clicked);
    assert!(s.quit_btn.hovered);
    assert_eq!(
        ctx.audio.unwrap().commands,
        vec![AudioCommand::PlaySfx(SfxId(SFX_ID_MEME)), AudioCommand::PlaySfx(SfxId(SFX_ID_BLIP))]
    );
}

#[test]
fn title_pointer_off_the_buttons() {
    let mut s = TitleScene::default();
    let mut ctx = GameContext::default();
    ctx.mouse_context = MouseContext { left_clicked: true, right_clicked: false, position: Some((600, 600)) };
    s.update(1, &mut ctx);
    assert!(ctx.next_scene.is_none());
    assert!(!s.start_game_btn.hovered && !s.quit_btn.hovered);
}

#[test]
fn game_over_mood_follows_the_pointer() {
    let mut s = GameOverScene::default();
    let mut ctx = full_context();
    s.update(1, &mut ctx);
    assert_eq!(s.miku.current_frame, 0);
    assert_eq!(ctx.audio.as_mut().unwrap().take_commands(), vec![AudioCommand::PlayMusic(MusicId(MUSIC_ID_TETO))]);
    assert_eq!(s.current_music, MusicId(MUSIC_ID_TETO));
    ctx.mouse_context = MouseContext { left_clicked: false, right_clicked: false, position: Some((10, 10)) };
    s.update(1, &mut ctx);
    assert_eq!(s.miku.current_frame, 1);
    assert!(ctx.audio.as_mut().unwrap().take_commands().is_empty());
    assert!(ctx.next_scene.is_none());
}

#[test]
fn game_over_retry_wins_over_giving_up() {
    let mut s = GameOverScene::default();
    let mut ctx = full_context();
    ctx.mouse_context = MouseContext { left_clicked: true, right_clicked: false, position: Some((10, 10)) };
    s.update(1, &mut ctx);
    assert!(matches!(ctx.next_scene, Some(AnyScene::Level(_))));
    assert!(!s.try_again_btn.clicked);
    assert!(s.give_up_btn.clicked);
    assert_eq!(
        ctx.audio.unwrap().commands,
        vec![AudioCommand::PlaySfx(SfxId(SFX_ID_BLIP)), AudioCommand::PlayMusic(MusicId(MUSIC_ID_TETO))]
    );
}

#[test]
fn game_over_init_loads_its_assets() {
    let mut s = GameOverScene::default();
    let mut ctx = full_context();
    s.init(&mut ctx);
    assert_eq!(ctx.asset_loader.unwrap().requested, vec![TEXTURE_ID_GAMEOVER, TEXTURE_ID_LEEKSHEET, TEXTURE_ID_FONTSHEET]);
    assert_eq!(
        ctx.audio.unwrap().commands,
        vec![
            AudioCommand::LoadSfx(SfxId(SFX_ID_BLIP)),
            AudioCommand::LoadMusic(MusicId(MUSIC_ID_MOON)),
            AudioCommand::LoadMusic(MusicId(MUSIC_ID_TETO)),
        ]
    );
}

#[test]
fn buttons_follow_the_pointer() {
    let layout = screen_layout((1280, 720), 10, 15);
    let mut b = Button::new("Go".to_string(), Rect { x: 2, y: 3, width: 5, height: 1 });
    assert!(!b.hovered && !b.clicked);
    let g = b.relative_layout(&layout);
    assert_eq!(g.area, Rect::new(0, 0, 425, 72));
    let mut ctx = GameContext::default();
    ctx.mouse_context = MouseContext { left_clicked: true, right_clicked: false, position: Some((424, 71)) };
    b.update(1, &ctx, &layout);
    assert!(b.hovered && b.clicked);
    ctx.mouse_context = MouseContext { left_clicked: false, right_clicked: false, position: Some((425, 71)) };
    b.update(1, &ctx, &layout);
    assert!(!b.hovered && !b.clicked);
}

#[test]
fn buttons_on_a_screen_grid_cannot_be_drawn() {
    assert!(!AnyScene::Title(TitleScene::default()).can_draw((1280, 720)));
    assert!(!AnyScene::GameOver(GameOverScene::default()).can_draw((800, 600)));
    assert!(AnyScene::Level(LevelScene::default()).can_draw((1280, 720)));
    assert!(AnyScene::Test(TestScene::default()).can_draw((1280, 720)));
}

#[test]
fn title_draw_without_renderer_does_nothing() {
    let mut s = TitleScene::default();
    let mut ctx = GameContext::default();
    s.draw(&mut ctx);
    assert!(ctx.renderer.is_none());
}

#[test]
fn test_scene_sprites_animate_and_draw() {
    let mut s = TestScene::default();
    let mut ctx = full_context();
    s.init(&mut ctx);
    assert_eq!(s.sprites.len(), 2);
    assert_eq!(ctx.asset_loader.as_ref().unwrap().requested, vec![TEXTURE_ID_MIKU, TEXTURE_ID_PORTRAIT]);
    s.update(11, &mut ctx);
    assert_eq!(s.sprites[0].1.current_frame, 1);
    assert_eq!(s.sprites[1].1.current_frame, 0);
    ctx.renderer = Some(RenderQueue::new());
    s.draw(&mut ctx);
    assert_eq!(
        ctx.renderer.unwrap().commands,
        vec![
            RenderCommand::DrawRect {
                texture_id: TEXTURE_ID_MIKU,
                source: Rect::new(71, 0, 71, 54),
                destination: Rect::new(200, 600, 71, 54),
            },
            RenderCommand::DrawRect {
                texture_id: TEXTURE_ID_PORTRAIT,
                source: Rect::new(0, 0, 2478, 402),
                destination: Rect::new(0, 0, 2478, 402),
            },
        ]
    );
}

#[test]
fn any_scene_dispatches() {
    let mut scene = AnyScene::ShuttingDown(ShuttingDownScene::default());
    let mut ctx = full_context();
    scene.init(&mut ctx);
    assert!(scene.can_update(200));
    scene.update(200, &mut ctx, &Lerp);
    assert!(ctx.shutdown_flag);
    let mut level = AnyScene::Level(LevelScene::default());
    level.init(&mut ctx);
    assert!(level.can_update(1));
    level.update(1, &mut ctx, &Lerp);
    match level {
        AnyScene::Level(l) => assert_eq!(l.enemies[0].path_index, 1),
        _ => panic!("the level stays a level"),
    }
}

#[test]
fn the_intro_jingle_plays_on_the_first_tick_only() {
    let mut s = TitleScene::default();
    let mut ctx = full_context();
    let mut jingles = 0;
    for ticks in [1u32, 500, 70_000, 3] {
        s.update(ticks, &mut ctx);
        jingles += ctx
            .audio
            .as_mut()
            .unwrap()
            .take_commands()
            .iter()
            .filter(|c| **c == AudioCommand::PlaySfx(SfxId(SFX_ID_MEME)))
            .count();
    }
    assert_eq!(jingles, 1);
    assert_eq!(s.played_intro, ReadyState::Cooldown { wait_for: u32::MAX, ticks_waited: 70_504 });
}
