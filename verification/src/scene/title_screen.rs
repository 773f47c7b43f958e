//! The title scene: start a level or quit, to an intro jingle and looping
//! music.
use vstd::prelude::*;

use crate::asset_loader::AssetLoader;
use crate::audio::AudioCommand;
use crate::constants::{
    sprite_info_title, MusicId, SfxId, MUSIC_ID_PACHEBAL, SFX_ID_BLIP, SFX_ID_MEME, TEXTURE_ID_FONTSHEET,
    TEXTURE_ID_LEEKSHEET, TEXTURE_ID_TITLE_BG,
};
use crate::game::{queued_level, queued_shutdown, GameContext};
use crate::grid_layout::GridLayout;
use crate::renderer::{draw_rect, RenderCommand};
use crate::scene::button::{lemma_button_on_screen, Button};
use crate::scene::{lemma_screen_layout_ok, screen_layout, spec_screen_layout};
use crate::{advance_ready_state, spec_advance_ready_state, ReadyState, Rect, SpriteInfo};

verus! {

/// Ticks between two starts of the title music.
pub const TITLE_MUSIC_PERIOD: u32 = 840;

pub struct TitleScene {
    pub bg: SpriteInfo,
    pub start_game_btn: Button,
    pub quit_btn: Button,
    pub played_intro: ReadyState,
    pub play_music: ReadyState,
}

/// The scene's grid: 27 rows of 48 columns over the screen.
pub open spec fn spec_title_layout(screen: (u32, u32)) -> GridLayout {
    spec_screen_layout(screen, 27, 48)
}

/// A timer that fires when ready: it then starts a fresh cooldown of
/// `wait_for` ticks; either way `ticks` ticks are counted after that.
pub open spec fn spec_fire_and_advance(s: ReadyState, wait_for: u32, ticks: u32) -> ReadyState {
    let armed = if s is Ready {
        ReadyState::Cooldown { wait_for, ticks_waited: 0 }
    } else {
        s
    };
    spec_advance_ready_state(armed, ticks)
}

/// The intro jingle plays once: its timer leaves the ready state on the
/// first tick and, waiting for `u32::MAX` ticks, is not ready again before
/// that many ticks have passed in all, so no later tick plays it.
pub proof fn lemma_intro_plays_once(waited: u32, ticks: u32)
    requires
        waited + ticks < u32::MAX,
    ensures
        spec_fire_and_advance(ReadyState::Ready, u32::MAX, ticks) == (ReadyState::Cooldown {
            wait_for: u32::MAX,
            ticks_waited: ticks,
        }),
        spec_fire_and_advance(ReadyState::Cooldown { wait_for: u32::MAX, ticks_waited: waited }, u32::MAX, ticks)
            == (ReadyState::Cooldown { wait_for: u32::MAX, ticks_waited: (waited + ticks) as u32 }),
{
}

/// The number of ticks in a run of updates.
pub open spec fn spec_ticks_total(ks: Seq<u32>) -> int
    decreases ks.len(),
{
    if ks.len() == 0 {
        0
    } else {
        spec_ticks_total(ks.drop_last()) + ks.last()
    }
}

/// The audio commands queued between two states of the context.
pub open spec fn spec_queued_audio(ctx: GameContext, after_ctx: GameContext) -> Seq<AudioCommand> {
    after_ctx.audio.unwrap().commands@.skip(ctx.audio.unwrap().commands@.len() as int)
}

proof fn lemma_ticks_total_prefix(ks: Seq<u32>, j: int)
    requires
        0 <= j < ks.len(),
    ensures
        spec_ticks_total(ks.take(j + 1)) == spec_ticks_total(ks.take(j)) + ks[j],
        spec_ticks_total(ks.take(j + 1)) <= spec_ticks_total(ks),
    decreases ks.len() - j,
{
    assert(ks.take(j + 1).drop_last() =~= ks.take(j));
    if j + 1 == ks.len() {
        assert(ks.take(j + 1) =~= ks);
    } else {
        lemma_ticks_total_prefix(ks, j + 1);
    }
}

proof fn lemma_ticks_total_nonneg(ks: Seq<u32>)
    ensures
        spec_ticks_total(ks) >= 0,
    decreases ks.len(),
{
    if ks.len() > 0 {
        lemma_ticks_total_nonneg(ks.drop_last());
    }
}

proof fn lemma_intro_timer_after(timers: Seq<ReadyState>, ks: Seq<u32>, j: int)
    requires
        timers.len() == ks.len() + 1,
        timers[0] == ReadyState::Ready,
        forall|i: int|
            0 <= i < ks.len() ==> #[trigger] timers[i + 1] == spec_fire_and_advance(timers[i], u32::MAX, ks[i]),
        spec_ticks_total(ks) < u32::MAX,
        1 <= j <= ks.len(),
    ensures
        timers[j] == (ReadyState::Cooldown { wait_for: u32::MAX, ticks_waited: spec_ticks_total(ks.take(j)) as u32 }),
    decreases j,
{
    lemma_ticks_total_prefix(ks, j - 1);
    lemma_ticks_total_nonneg(ks.take(j - 1));
    assert(timers[(j - 1) + 1] == spec_fire_and_advance(timers[j - 1], u32::MAX, ks[j - 1]));
    if j > 1 {
        lemma_intro_timer_after(timers, ks, j - 1);
    } else {
        assert(ks.take(0).len() == 0);
    }
}

proof fn lemma_ticked_audio(s: TitleScene, after: TitleScene, ticks: u32, ctx: GameContext, after_ctx: GameContext)
    requires
        s.ticked(after, ticks, ctx, after_ctx),
    ensures
        after.played_intro == spec_fire_and_advance(s.played_intro, u32::MAX, ticks),
        ctx.audio is Some ==> (spec_queued_audio(ctx, after_ctx).contains(AudioCommand::PlaySfx(SfxId(SFX_ID_MEME)))
            <==> s.played_intro is Ready),
{
    if ctx.audio is Some {
        let meme = AudioCommand::PlaySfx(SfxId(SFX_ID_MEME));
        let before = ctx.audio.unwrap().commands@;
        let queued = spec_queued_audio(ctx, after_ctx);
        if s.played_intro is Ready {
            assert(queued[0] == meme);
        } else {
            assert forall|i: int| 0 <= i < queued.len() implies queued[i] != meme by {
                assert(queued[i] == after_ctx.audio.unwrap().commands@[before.len() + i]);
            }
        }
    }
}

/// Over a run of updates that starts with the intro timer ready, as a new
/// title scene has it, the intro jingle is queued in the first update and
/// in no other, and after the `j`-th update the timer is a cooldown of
/// `u32::MAX` ticks that has waited the ticks of the first `j` updates.
pub proof fn lemma_intro_over_updates(scenes: Seq<TitleScene>, ks: Seq<u32>, ctxs: Seq<GameContext>)
    requires
        scenes.len() == ks.len() + 1,
        ctxs.len() == scenes.len(),
        scenes[0].played_intro == ReadyState::Ready,
        forall|i: int|
            0 <= i < ks.len() ==> (#[trigger] scenes[i]).ticked(scenes[i + 1], ks[i], ctxs[i], ctxs[i + 1]),
        spec_ticks_total(ks) < u32::MAX,
    ensures
        forall|j: int|
            1 <= j < scenes.len() ==> (#[trigger] scenes[j]).played_intro == (ReadyState::Cooldown {
                wait_for: u32::MAX,
                ticks_waited: spec_ticks_total(ks.take(j)) as u32,
            }),
        forall|j: int|
            0 <= j < ks.len() && (#[trigger] ctxs[j]).audio is Some ==> (spec_queued_audio(ctxs[j], ctxs[j + 1]).contains(
                AudioCommand::PlaySfx(SfxId(SFX_ID_MEME)),
            ) <==> j == 0),
{
    let timers = Seq::new(scenes.len(), |i: int| scenes[i].played_intro);
    assert forall|i: int| 0 <= i < ks.len() implies #[trigger] timers[i + 1] == spec_fire_and_advance(
        timers[i],
        u32::MAX,
        ks[i],
    ) by {
        lemma_ticked_audio(scenes[i], scenes[i + 1], ks[i], ctxs[i], ctxs[i + 1]);
    }
    assert forall|j: int| 1 <= j < scenes.len() implies (#[trigger] scenes[j]).played_intro == (ReadyState::Cooldown {
        wait_for: u32::MAX,
        ticks_waited: spec_ticks_total(ks.take(j)) as u32,
    }) by {
        lemma_intro_timer_after(timers, ks, j);
    }
    assert forall|j: int| 0 <= j < ks.len() && (#[trigger] ctxs[j]).audio is Some implies (spec_queued_audio(
        ctxs[j],
        ctxs[j + 1],
    ).contains(AudioCommand::PlaySfx(SfxId(SFX_ID_MEME))) <==> j == 0) by {
        lemma_ticked_audio(scenes[j], scenes[j + 1], ks[j], ctxs[j], ctxs[j + 1]);
        if j > 0 {
            lemma_intro_timer_after(timers, ks, j);
        }
    }
}

impl TitleScene {
    pub open spec fn wf(&self) -> bool {
        &&& self.bg.wf()
        &&& self.start_game_btn.wf()
        &&& self.quit_btn.wf()
        &&& 0 <= self.start_game_btn.rect.width <= 48
        &&& 0 <= self.start_game_btn.rect.height <= 27
        &&& 0 <= self.quit_btn.rect.width <= 48
        &&& 0 <= self.quit_btn.rect.height <= 27
    }

    /// The draw commands: the background over the whole screen, then the
    /// quit and the start buttons.
    pub open spec fn spec_draw(&self, screen: (u32, u32)) -> Seq<RenderCommand> {
        let layout = spec_title_layout(screen);
        seq![
            draw_rect(
                TEXTURE_ID_TITLE_BG,
                self.bg.spec_rect(),
                Rect { x: 0, y: 0, width: layout.area.width, height: layout.area.height },
            ),
        ] + self.quit_btn.spec_draw(layout) + self.start_game_btn.spec_draw(layout)
    }

    /// The buttons can be drawn (see `Button::draw_ok`).
    pub open spec fn draw_ok(&self, screen: (u32, u32)) -> bool {
        &&& self.quit_btn.draw_ok(spec_title_layout(screen))
        &&& self.start_game_btn.draw_ok(spec_title_layout(screen))
    }

    pub fn init(&mut self, game_context: &mut GameContext)
        ensures
            *final(self) == *old(self),
            final(game_context).asset_loader is Some == old(game_context).asset_loader is Some,
            final(game_context).audio is Some == old(game_context).audio is Some,
            old(game_context).asset_loader is Some ==> final(game_context).asset_loader.unwrap().requested@
                == old(game_context).asset_loader.unwrap().requested@.push(TEXTURE_ID_TITLE_BG).push(
                TEXTURE_ID_LEEKSHEET,
            ).push(TEXTURE_ID_FONTSHEET),
            old(game_context).audio is Some ==> final(game_context).audio.unwrap().commands@ == if old(
                game_context,
            ).asset_loader is Some {
                old(game_context).audio.unwrap().commands@.push(AudioCommand::LoadSfx(SfxId(SFX_ID_BLIP))).push(
                    AudioCommand::LoadSfx(SfxId(SFX_ID_MEME)),
                ).push(AudioCommand::LoadMusic(MusicId(MUSIC_ID_PACHEBAL)))
            } else {
                old(game_context).audio.unwrap().commands@
            },
            final(game_context).renderer == old(game_context).renderer,
            final(game_context).mouse_context == old(game_context).mouse_context,
            final(game_context).screen_size == old(game_context).screen_size,
            final(game_context).next_scene == old(game_context).next_scene,
            final(game_context).shutdown_flag == old(game_context).shutdown_flag,
    {
        match &mut game_context.asset_loader {
            Some(asset_loader) => {
                asset_loader.ensure_texture_spritesheet_loaded(TEXTURE_ID_TITLE_BG);
                asset_loader.ensure_texture_spritesheet_loaded(TEXTURE_ID_LEEKSHEET);
                asset_loader.ensure_texture_spritesheet_loaded(TEXTURE_ID_FONTSHEET);
            },
            None => {
                return;
            },
        }
        match &mut game_context.audio {
            Some(audio) => {
                audio.load_sfx(SfxId(SFX_ID_BLIP));
                audio.load_sfx(SfxId(SFX_ID_MEME));
                audio.load_music(MusicId(MUSIC_ID_PACHEBAL));
            },
            None => {},
        }
    }

    /// What a tick does to the scene and to the context (see `update`).
    pub open spec fn ticked(self, after: Self, ticks: u32, ctx: GameContext, after_ctx: GameContext) -> bool {
        &&& ({
            let layout = spec_title_layout(ctx.screen_size);
            let mouse = ctx.mouse_context;
            let (qh, qc, qhl) = self.quit_btn.spec_update(
                ticks,
                self.quit_btn.spec_pointer_over(layout, mouse.position),
                mouse.left_clicked,
            );
            let (sh, sc, shl) = self.start_game_btn.spec_update(
                ticks,
                self.start_game_btn.spec_pointer_over(layout, mouse.position),
                mouse.left_clicked,
            );
            let start = sc && ctx.next_scene is None;
            let quit = qc && !start && ctx.next_scene is None;
            let has_audio = ctx.audio is Some;
            let intro = if self.played_intro is Ready {
                seq![AudioCommand::PlaySfx(SfxId(SFX_ID_MEME))]
            } else {
                Seq::<AudioCommand>::empty()
            };
            let music = if self.play_music is Ready {
                seq![AudioCommand::PlayMusic(MusicId(MUSIC_ID_PACHEBAL))]
            } else {
                Seq::<AudioCommand>::empty()
            };
            let blips = if start || quit {
                seq![AudioCommand::PlaySfx(SfxId(SFX_ID_BLIP))]
            } else {
                Seq::<AudioCommand>::empty()
            };
            &&& after.bg == self.bg
            &&& after.quit_btn.hovered == qh
            &&& after.quit_btn.clicked == (qc && !quit)
            &&& after.quit_btn.highlight == qhl
            &&& after.start_game_btn.hovered == sh
            &&& after.start_game_btn.clicked == (sc && !start)
            &&& after.start_game_btn.highlight == shl
            &&& after.played_intro == spec_fire_and_advance(self.played_intro, u32::MAX, ticks)
            &&& after.play_music == spec_fire_and_advance(
                self.play_music,
                TITLE_MUSIC_PERIOD,
                ticks,
            )
            &&& start ==> queued_level(after_ctx.next_scene)
            &&& quit ==> queued_shutdown(after_ctx.next_scene)
            &&& !start && !quit ==> after_ctx.next_scene == ctx.next_scene
            &&& after_ctx.audio is Some == has_audio
            &&& has_audio ==> after_ctx.audio.unwrap().commands@ =~= ctx.audio.unwrap().commands@
                + intro + music + blips
        })
        &&& after.quit_btn.text@ == self.quit_btn.text@
        &&& after.start_game_btn.text@ == self.start_game_btn.text@
        &&& after.quit_btn.rect == self.quit_btn.rect
        &&& after.start_game_btn.rect == self.start_game_btn.rect
        &&& after_ctx.renderer == ctx.renderer
        &&& after_ctx.mouse_context == ctx.mouse_context
        &&& after_ctx.screen_size == ctx.screen_size
        &&& after_ctx.asset_loader == ctx.asset_loader
        &&& after_ctx.shutdown_flag == ctx.shutdown_flag
    }

    /// A tick: the buttons follow the pointer; the intro jingle plays once
    /// (its timer never runs out); the music starts whenever its timer is
    /// ready and then waits its period; a click on "Start" queues a level
    /// and one on "Quit" the goodbye scene, each with a blip and only while
    /// no scene is queued.
    pub fn update(&mut self, ticks: u32, game_context: &mut GameContext)
        requires
            old(self).wf(),
        ensures
            final(self).wf(),
            old(self).ticked(*final(self), ticks, *old(game_context), *final(game_context)),
    {
        let layout = screen_layout(game_context.screen_size, 27, 48);
        proof {
            lemma_screen_layout_ok(game_context.screen_size, 27, 48);
            lemma_button_on_screen(&self.quit_btn, game_context.screen_size, 27, 48);
            lemma_button_on_screen(&self.start_game_btn, game_context.screen_size, 27, 48);
        }
        self.quit_btn.update(ticks, game_context, &layout);
        self.start_game_btn.update(ticks, game_context, &layout);

        match self.played_intro {
            ReadyState::Ready => {
                self.played_intro = ReadyState::Cooldown { wait_for: u32::MAX, ticks_waited: 0 };
                match &mut game_context.audio {
                    Some(audio) => {
                        audio.play_sfx(SfxId(SFX_ID_MEME));
                    },
                    None => {},
                }
            },
            _ => {},
        }
        match self.play_music {
            ReadyState::Ready => {
                match &mut game_context.audio {
                    Some(audio) => {
                        audio.play_music(MusicId(MUSIC_ID_PACHEBAL));
                    },
                    None => {},
                }
                self.play_music = ReadyState::Cooldown { wait_for: TITLE_MUSIC_PERIOD, ticks_waited: 0 };
            },
            _ => {},
        }
        self.played_intro = advance_ready_state(self.played_intro, ticks);
        self.play_music = advance_ready_state(self.play_music, ticks);

        if self.start_game_btn.clicked && game_context.next_scene.is_none() {
            match &mut game_context.audio {
                Some(audio) => {
                    audio.play_sfx(SfxId(SFX_ID_BLIP));
                },
                None => {},
            }
            game_context.queue_level();
            self.start_game_btn.clicked = false;
        }
        if self.quit_btn.clicked && game_context.next_scene.is_none() {
            match &mut game_context.audio {
                Some(audio) => {
                    audio.play_sfx(SfxId(SFX_ID_BLIP));
                },
                None => {},
            }
            game_context.shutdown();
            self.quit_btn.clicked = false;
        }
    }

    /// Queues the frame's draw commands, when there is a renderer.  The
    /// buttons' cells lie at the screen's left edge, where `Rect::center`
    /// divides by zero (see `lemma_button_on_screen_not_drawable`), so the
    /// scene is drawn only without a renderer, and then nothing is queued.
    pub fn draw(&mut self, game_context: &mut GameContext)
        requires
            old(self).wf(),
            old(game_context).renderer is Some ==> old(self).draw_ok(old(game_context).screen_size),
        ensures
            *final(self) == *old(self),
            final(self).wf(),
            final(game_context).renderer is Some == old(game_context).renderer is Some,
            old(game_context).renderer is Some ==> final(game_context).renderer.unwrap().commands@
                == old(game_context).renderer.unwrap().commands@ + old(self).spec_draw(old(game_context).screen_size),
            final(game_context).mouse_context == old(game_context).mouse_context,
            final(game_context).screen_size == old(game_context).screen_size,
            final(game_context).next_scene == old(game_context).next_scene,
            final(game_context).asset_loader == old(game_context).asset_loader,
            final(game_context).audio == old(game_context).audio,
            final(game_context).shutdown_flag == old(game_context).shutdown_flag,
    {
        let layout = screen_layout(game_context.screen_size, 27, 48);
        proof {
            lemma_screen_layout_ok(game_context.screen_size, 27, 48);
        }
        match &mut game_context.renderer {
            Some(renderer) => {
                proof {
                    crate::lemma_sprite_frame_fits(self.bg);
                }
                let src: Rect = self.bg.get_rect();
                renderer.send_command(RenderCommand::DrawRect {
                    texture_id: TEXTURE_ID_TITLE_BG,
                    source: src,
                    destination: Rect::new(0, 0, layout.area.width, layout.area.height),
                });
            },
            None => {
                return;
            },
        }
        self.quit_btn.draw(game_context, &layout);
        self.start_game_btn.draw(game_context, &layout);
    }
}

impl Default for TitleScene {
    fn default() -> (s: TitleScene)
        ensures
            s.wf(),
            s.bg == (SpriteInfo {
                start_x: 0,
                start_y: 0,
                width: 1280,
                height: 720,
                frames: 1,
                current_frame: 0,
                framerate_per_second: 60,
                delta: 0,
            }),
            s.start_game_btn.is_fresh("Start"@, Rect { x: 32, y: 15, width: 10, height: 2 }),
            s.quit_btn.is_fresh("Quit"@, Rect { x: 32, y: 18, width: 10, height: 2 }),
            s.played_intro == ReadyState::Ready,
            s.play_music == (ReadyState::Cooldown { wait_for: 180, ticks_waited: 0 }),
    {
        proof {
            reveal_strlit("Start");
            reveal_strlit("Quit");
            reveal_with_fuel(crate::font::printable_each, 6);
            crate::font::lemma_printable_each("Start"@);
            crate::font::lemma_printable_each("Quit"@);
        }
        TitleScene {
            bg: sprite_info_title(),
            start_game_btn: Button::new("Start".to_owned(), Rect { x: 32, y: 15, width: 10, height: 2 }),
            quit_btn: Button::new("Quit".to_owned(), Rect { x: 32, y: 18, width: 10, height: 2 }),
            played_intro: ReadyState::Ready,
            play_music: ReadyState::Cooldown { wait_for: 180, ticks_waited: 0 },
        }
    }
}

} // verus!
