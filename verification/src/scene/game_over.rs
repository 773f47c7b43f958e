//! The game over scene: continue with a new level, or give up and stop.
use vstd::prelude::*;

use crate::asset_loader::AssetLoader;
use crate::audio::AudioCommand;
use crate::constants::{
    sprite_info_gameover_miku, MusicId, SfxId, MUSIC_ID_MOON, MUSIC_ID_TETO, SFX_ID_BLIP,
    TEXTURE_ID_FONTSHEET, TEXTURE_ID_GAMEOVER, TEXTURE_ID_LEEKSHEET,
};
use crate::game::{queued_level, queued_shutdown, GameContext};
use crate::grid_layout::GridLayout;
use crate::renderer::{draw_rect, RenderCommand};
use crate::scene::button::{lemma_button_on_screen, Button};
use crate::scene::{lemma_screen_layout_ok, screen_layout, spec_screen_layout};
use crate::{Rect, SpriteInfo};

verus! {

pub struct GameOverScene {
    pub miku: SpriteInfo,
    pub try_again_btn: Button,
    pub give_up_btn: Button,
    pub desired_music: MusicId,
    pub current_music: MusicId,
}

/// The scene's grid: 10 rows of 15 columns over the screen.
pub open spec fn spec_game_over_layout(screen: (u32, u32)) -> GridLayout {
    spec_screen_layout(screen, 10, 15)
}

impl GameOverScene {
    pub open spec fn wf(&self) -> bool {
        &&& self.miku.wf()
        &&& self.miku.frames == 3
        &&& self.try_again_btn.wf()
        &&& self.give_up_btn.wf()
        &&& 0 <= self.try_again_btn.rect.width <= 15
        &&& 0 <= self.try_again_btn.rect.height <= 10
        &&& 0 <= self.give_up_btn.rect.width <= 15
        &&& 0 <= self.give_up_btn.rect.height <= 10
    }

    /// The music, Miku's frame and the buttons after a tick's pointer
    /// handling: over "Give up?" Miku sobs to Teto's music, over
    /// "Continue?" she cheers to the moon music, elsewhere she waits.
    pub open spec fn spec_mood(give_up_hovered: bool, try_again_hovered: bool, desired: MusicId) -> (u32, MusicId) {
        if give_up_hovered {
            (1, MusicId(MUSIC_ID_TETO))
        } else if try_again_hovered {
            (2, MusicId(MUSIC_ID_MOON))
        } else {
            (0, desired)
        }
    }

    /// The draw commands: the buttons, then Miku over the whole screen from
    /// the corner of the first cell.
    pub open spec fn spec_draw(&self, screen: (u32, u32)) -> Seq<RenderCommand> {
        let layout = spec_game_over_layout(screen);
        let cell = layout.spec_cell_rect();
        self.give_up_btn.spec_draw(layout) + self.try_again_btn.spec_draw(layout) + seq![
            draw_rect(
                TEXTURE_ID_GAMEOVER,
                self.miku.spec_rect(),
                Rect { x: cell.x, y: cell.y, width: layout.area.width, height: layout.area.height },
            ),
        ]
    }

    /// The buttons can be drawn (see `Button::draw_ok`).
    pub open spec fn draw_ok(&self, screen: (u32, u32)) -> bool {
        &&& self.give_up_btn.draw_ok(spec_game_over_layout(screen))
        &&& self.try_again_btn.draw_ok(spec_game_over_layout(screen))
    }

    /// The scene as it starts: Miku waiting, no button touched, Teto's
    /// music wanted while the moon music is taken to be playing.
    pub open spec fn spec_is_initial(&self) -> bool {
        &&& self.miku == (SpriteInfo {
            start_x: 0,
            start_y: 0,
            width: 480,
            height: 320,
            frames: 3,
            current_frame: 0,
            framerate_per_second: 60,
            delta: 0,
        })
        &&& self.try_again_btn.is_fresh("Continue?"@, Rect { x: 2, y: 3, width: 5, height: 1 })
        &&& self.give_up_btn.is_fresh("Give up?"@, Rect { x: 8, y: 3, width: 5, height: 1 })
        &&& self.desired_music == MusicId(MUSIC_ID_TETO)
        &&& self.current_music == MusicId(MUSIC_ID_MOON)
    }

    pub fn init(&mut self, game_context: &mut GameContext)
        ensures
            *final(self) == *old(self),
            final(game_context).asset_loader is Some == old(game_context).asset_loader is Some,
            final(game_context).audio is Some == old(game_context).audio is Some,
            old(game_context).asset_loader is Some ==> final(game_context).asset_loader.unwrap().requested@
                == old(game_context).asset_loader.unwrap().requested@.push(TEXTURE_ID_GAMEOVER).push(
                TEXTURE_ID_LEEKSHEET,
            ).push(TEXTURE_ID_FONTSHEET),
            old(game_context).audio is Some ==> final(game_context).audio.unwrap().commands@ == if old(
                game_context,
            ).asset_loader is Some {
                old(game_context).audio.unwrap().commands@.push(AudioCommand::LoadSfx(SfxId(SFX_ID_BLIP))).push(
                    AudioCommand::LoadMusic(MusicId(MUSIC_ID_MOON)),
                ).push(AudioCommand::LoadMusic(MusicId(MUSIC_ID_TETO)))
            } else {
                old(game_context).audio.unwrap().commands@
            },
            final(game_context).renderer == old(game_context).renderer,
            final(game_context).mouse_context == old(game_context).mouse_context,
            final(game_context).screen_size == old(game_context).screen_size,
            final(game_context).next_scene == old(game_context).next_scene,
            final(game_context).shutdown_flag == old(game_context).shutdown_flag,
    {
        match &mut game_context.asset_loader {
            Some(asset_loader) => {
                asset_loader.ensure_texture_spritesheet_loaded(TEXTURE_ID_GAMEOVER);
                asset_loader.ensure_texture_spritesheet_loaded(TEXTURE_ID_LEEKSHEET);
                asset_loader.ensure_texture_spritesheet_loaded(TEXTURE_ID_FONTSHEET);
            },
            None => {
                return;
            },
        }
        match &mut game_context.audio {
            Some(audio) => {
                audio.load_sfx(SfxId(SFX_ID_BLIP));
                audio.load_music(MusicId(MUSIC_ID_MOON));
                audio.load_music(MusicId(MUSIC_ID_TETO));
            },
            None => {},
        }
    }

    /// What a tick does to the scene and to the context (see `update`).
    pub open spec fn ticked(self, after: Self, ticks: u32, ctx: GameContext, after_ctx: GameContext) -> bool {
        &&& ({
            let layout = spec_game_over_layout(ctx.screen_size);
            let mouse = ctx.mouse_context;
            let (gh, gc, ghl) = self.give_up_btn.spec_update(
                ticks,
                self.give_up_btn.spec_pointer_over(layout, mouse.position),
                mouse.left_clicked,
            );
            let (th, tc, thl) = self.try_again_btn.spec_update(
                ticks,
                self.try_again_btn.spec_pointer_over(layout, mouse.position),
                mouse.left_clicked,
            );
            let (frame, desired) = GameOverScene::spec_mood(gh, th, self.desired_music);
            let retry = tc && ctx.next_scene is None;
            let quit = gc && !retry && ctx.next_scene is None;
            let has_audio = ctx.audio is Some;
            let change_music = desired != self.current_music && has_audio;
            let blips = if retry || quit {
                seq![AudioCommand::PlaySfx(SfxId(SFX_ID_BLIP))]
            } else {
                Seq::<AudioCommand>::empty()
            };
            let music = if change_music {
                seq![AudioCommand::PlayMusic(desired)]
            } else {
                Seq::<AudioCommand>::empty()
            };
            &&& after.miku == SpriteInfo { current_frame: frame, ..self.miku }
            &&& after.give_up_btn.hovered == gh
            &&& after.give_up_btn.clicked == (gc && !quit)
            &&& after.give_up_btn.highlight == ghl
            &&& after.try_again_btn.hovered == th
            &&& after.try_again_btn.clicked == (tc && !retry)
            &&& after.try_again_btn.highlight == thl
            &&& after.desired_music == desired
            &&& after.current_music == if change_music {
                desired
            } else {
                self.current_music
            }
            &&& retry ==> queued_level(after_ctx.next_scene)
            &&& quit ==> queued_shutdown(after_ctx.next_scene)
            &&& !retry && !quit ==> after_ctx.next_scene == ctx.next_scene
            &&& after_ctx.audio is Some == has_audio
            &&& has_audio ==> after_ctx.audio.unwrap().commands@ =~= ctx.audio.unwrap().commands@
                + blips + music
        })
        &&& after.give_up_btn.text@ == self.give_up_btn.text@
        &&& after.try_again_btn.text@ == self.try_again_btn.text@
        &&& after.give_up_btn.rect == self.give_up_btn.rect
        &&& after.try_again_btn.rect == self.try_again_btn.rect
        &&& after_ctx.renderer == ctx.renderer
        &&& after_ctx.mouse_context == ctx.mouse_context
        &&& after_ctx.screen_size == ctx.screen_size
        &&& after_ctx.asset_loader == ctx.asset_loader
        &&& after_ctx.shutdown_flag == ctx.shutdown_flag
    }

    /// A tick: the buttons follow the pointer, Miku and the music follow
    /// the button under the pointer, a click on "Continue?" queues a new
    /// level and one on "Give up?" the goodbye scene (each with a blip, and
    /// only while no scene is queued), and the music changes when the
    /// wanted piece is not the one playing.
    pub fn update(&mut self, ticks: u32, game_context: &mut GameContext)
        requires
            old(self).wf(),
        ensures
            final(self).wf(),
            old(self).ticked(*final(self), ticks, *old(game_context), *final(game_context)),
    {
        let layout = screen_layout(game_context.screen_size, 10, 15);
        proof {
            lemma_screen_layout_ok(game_context.screen_size, 10, 15);
            lemma_button_on_screen(&self.give_up_btn, game_context.screen_size, 10, 15);
            lemma_button_on_screen(&self.try_again_btn, game_context.screen_size, 10, 15);
        }
        self.give_up_btn.update(ticks, game_context, &layout);
        self.try_again_btn.update(ticks, game_context, &layout);
        if self.give_up_btn.hovered {
            self.miku.current_frame = 1;
            self.desired_music = MusicId(MUSIC_ID_TETO);
        } else if self.try_again_btn.hovered {
            self.miku.current_frame = 2;
            self.desired_music = MusicId(MUSIC_ID_MOON);
        } else {
            self.miku.current_frame = 0;
        }
        if self.try_again_btn.clicked && game_context.next_scene.is_none() {
            game_context.queue_level();
            match &mut game_context.audio {
                Some(audio) => {
                    audio.play_sfx(SfxId(SFX_ID_BLIP));
                },
                None => {},
            }
            self.try_again_btn.clicked = false;
        }
        if self.give_up_btn.clicked && game_context.next_scene.is_none() {
            game_context.shutdown();
            match &mut game_context.audio {
                Some(audio) => {
                    audio.play_sfx(SfxId(SFX_ID_BLIP));
                },
                None => {},
            }
            self.give_up_btn.clicked = false;
        }
        if self.desired_music != self.current_music {
            match &mut game_context.audio {
                Some(audio) => {
                    audio.play_music(self.desired_music);
                    self.current_music = self.desired_music;
                },
                None => {},
            }
        }
    }

    /// Queues the frame's draw commands, when there is a renderer.  The
    /// buttons' cells lie at the screen's left edge, where `Rect::center`
    /// divides by zero (see `lemma_button_on_screen_not_drawable`), so the
    /// scene is drawn only without a renderer, and then nothing is queued.
    pub fn draw(&mut self, game_context: &mut GameContext)
        requires
            old(self).wf(),
            old(game_context).renderer is Some ==> old(self).draw_ok(old(game_context).screen_size),
        ensures
            *final(self) == *old(self),
            final(self).wf(),
            final(game_context).renderer is Some == old(game_context).renderer is Some,
            old(game_context).renderer is Some ==> final(game_context).renderer.unwrap().commands@
                == old(game_context).renderer.unwrap().commands@ + old(self).spec_draw(old(game_context).screen_size),
            final(game_context).mouse_context == old(game_context).mouse_context,
            final(game_context).screen_size == old(game_context).screen_size,
            final(game_context).next_scene == old(game_context).next_scene,
            final(game_context).asset_loader == old(game_context).asset_loader,
            final(game_context).audio == old(game_context).audio,
            final(game_context).shutdown_flag == old(game_context).shutdown_flag,
    {
        let layout = screen_layout(game_context.screen_size, 10, 15);
        proof {
            lemma_screen_layout_ok(game_context.screen_size, 10, 15);
        }
        self.give_up_btn.draw(game_context, &layout);
        self.try_again_btn.draw(game_context, &layout);
        let renderer = match &mut game_context.renderer {
            Some(r) => r,
            None => {
                return;
            },
        };
        let cell: Rect = layout.cell_rect(0, 0);
        proof {
            crate::lemma_sprite_frame_fits(self.miku);
        }
        let src: Rect = self.miku.get_rect();
        renderer.send_command(RenderCommand::DrawRect {
            texture_id: TEXTURE_ID_GAMEOVER,
            source: src,
            destination: Rect::new(cell.x, cell.y, layout.area.width, layout.area.height),
        });
    }
}

impl Default for GameOverScene {
    fn default() -> (s: GameOverScene)
        ensures
            s.wf(),
            s.spec_is_initial(),
    {
        proof {
            reveal_strlit("Continue?");
            reveal_strlit("Give up?");
            reveal_with_fuel(crate::font::printable_each, 10);
            crate::font::lemma_printable_each("Continue?"@);
            crate::font::lemma_printable_each("Give up?"@);
        }
        GameOverScene {
            miku: sprite_info_gameover_miku(),
            try_again_btn: Button::new("Continue?".to_owned(), Rect { x: 2, y: 3, width: 5, height: 1 }),
            give_up_btn: Button::new("Give up?".to_owned(), Rect { x: 8, y: 3, width: 5, height: 1 }),
            desired_music: MusicId(MUSIC_ID_TETO),
            current_music: MusicId(MUSIC_ID_MOON),
        }
    }
}

} // verus!
