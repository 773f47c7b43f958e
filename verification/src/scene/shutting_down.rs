//! The goodbye scene: Miku waves for two seconds, then the game stops.
use vstd::prelude::*;

use crate::asset_loader::AssetLoader;
use crate::constants::{sprite_info_miku_wave, TEXTURE_ID_MIKU_WAVE};
use crate::game::GameContext;
use crate::renderer::{draw_rect, RenderCommand};
use crate::scene::{lemma_screen_layout_ok, screen_layout, spec_screen_layout};
use crate::{advance_ready_state, spec_advance_ready_state, ReadyState, Rect, SpriteInfo};

verus! {

#[derive(Debug, Clone, Copy, PartialEq, Eq, Structural)]
pub struct ShuttingDownScene {
    pub miku: SpriteInfo,
    pub countdown: ReadyState,
}

impl ShuttingDownScene {
    pub open spec fn wf(&self) -> bool {
        self.miku.wf()
    }

    /// The scene as it starts: Miku waving, two seconds to go.
    pub open spec fn spec_default() -> ShuttingDownScene {
        ShuttingDownScene {
            miku: SpriteInfo {
                start_x: 0,
                start_y: 0,
                width: 320,
                height: 320,
                frames: 2,
                current_frame: 0,
                framerate_per_second: 30,
                delta: 0,
            },
            countdown: ReadyState::Cooldown { wait_for: 120, ticks_waited: 0 },
        }
    }

    /// The scene after a tick; once the countdown is over the game is to
    /// stop.
    pub open spec fn spec_update(&self, ticks: u32) -> ShuttingDownScene {
        ShuttingDownScene {
            miku: self.miku.spec_advance(ticks),
            countdown: spec_advance_ready_state(self.countdown, ticks),
        }
    }

    /// The draw command: Miku in the middle cell of a three by three grid.
    pub open spec fn spec_draw(&self, screen: (u32, u32)) -> Seq<RenderCommand> {
        seq![draw_rect(TEXTURE_ID_MIKU_WAVE, self.miku.spec_rect(), spec_screen_layout(screen, 3, 3).spec_cell_rect())]
    }

    pub fn init(&mut self, game_context: &mut GameContext)
        ensures
            *final(self) == *old(self),
            final(game_context).asset_loader is Some == old(game_context).asset_loader is Some,
            old(game_context).asset_loader is Some ==> final(game_context).asset_loader.unwrap().requested@
                == old(game_context).asset_loader.unwrap().requested@.push(TEXTURE_ID_MIKU_WAVE),
            final(game_context).renderer == old(game_context).renderer,
            final(game_context).mouse_context == old(game_context).mouse_context,
            final(game_context).screen_size == old(game_context).screen_size,
            final(game_context).next_scene == old(game_context).next_scene,
            final(game_context).audio == old(game_context).audio,
            final(game_context).shutdown_flag == old(game_context).shutdown_flag,
    {
        match &mut game_context.asset_loader {
            Some(asset_loader) => {
                asset_loader.ensure_texture_spritesheet_loaded(TEXTURE_ID_MIKU_WAVE);
            },
            None => {},
        }
    }

    pub fn update(&mut self, ticks: u32, game_context: &mut GameContext)
        requires
            old(self).wf(),
        ensures
            final(self).wf(),
            *final(self) == old(self).spec_update(ticks),
            final(game_context).shutdown_flag == (old(game_context).shutdown_flag || final(self).countdown is Ready),
            final(game_context).renderer == old(game_context).renderer,
            final(game_context).mouse_context == old(game_context).mouse_context,
            final(game_context).screen_size == old(game_context).screen_size,
            final(game_context).next_scene == old(game_context).next_scene,
            final(game_context).asset_loader == old(game_context).asset_loader,
            final(game_context).audio == old(game_context).audio,
    {
        proof {
            crate::lemma_sprite_advance_keeps_wf(self.miku, ticks);
        }
        self.miku.advance(ticks);
        self.countdown = advance_ready_state(self.countdown, ticks);
        match self.countdown {
            ReadyState::Ready => {
                game_context.shutdown_flag = true;
            },
            _ => {},
        }
    }

    pub fn draw(&mut self, game_context: &mut GameContext)
        requires
            old(self).wf(),
        ensures
            *final(self) == *old(self),
            final(game_context).renderer is Some == old(game_context).renderer is Some,
            old(game_context).renderer is Some ==> final(game_context).renderer.unwrap().commands@
                == old(game_context).renderer.unwrap().commands@ + old(self).spec_draw(old(game_context).screen_size),
            final(game_context).mouse_context == old(game_context).mouse_context,
            final(game_context).screen_size == old(game_context).screen_size,
            final(game_context).next_scene == old(game_context).next_scene,
            final(game_context).asset_loader == old(game_context).asset_loader,
            final(game_context).audio == old(game_context).audio,
            final(game_context).shutdown_flag == old(game_context).shutdown_flag,
    {
        let layout = screen_layout(game_context.screen_size, 3, 3);
        proof {
            lemma_screen_layout_ok(game_context.screen_size, 3, 3);
            crate::lemma_sprite_frame_fits(self.miku);
        }
        let renderer = match &mut game_context.renderer {
            Some(r) => r,
            None => {
                return;
            },
        };
        let destination: Rect = layout.cell_rect(1, 1);
        let src: Rect = self.miku.get_rect();
        renderer.send_command(RenderCommand::DrawRect { texture_id: TEXTURE_ID_MIKU_WAVE, source: src, destination });
    }
}

impl Default for ShuttingDownScene {
    fn default() -> (s: ShuttingDownScene)
        ensures
            s == ShuttingDownScene::spec_default(),
            s.wf(),
    {
        Self { miku: sprite_info_miku_wave(), countdown: ReadyState::Cooldown { ticks_waited: 0, wait_for: 120 } }
    }
}

/// The goodbye scene stops the game exactly once it has waited two seconds
/// of ticks in all.
pub proof fn lemma_shutdown_after_countdown(ticks: u32)
    ensures
        ShuttingDownScene::spec_default().spec_update(ticks).countdown is Ready <==> ticks >= 120,
{
}

} // verus!
