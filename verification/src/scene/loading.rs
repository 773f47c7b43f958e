//! A test scene: two sprites animating.
use vstd::prelude::*;

use crate::asset_loader::AssetLoader;
use crate::constants::{sprite_info_miku, sprite_info_portrait, TEXTURE_ID_MIKU, TEXTURE_ID_PORTRAIT};
use crate::game::GameContext;
use crate::renderer::{draw_rect, RenderCommand};
use crate::{Rect, SpriteInfo};

verus! {

/// A scene of sprites, each drawn from its texture.
pub struct TestScene {
    pub sprites: Vec<(usize, SpriteInfo)>,
}

/// Where a sprite of the test scene is drawn: dancing Miku at `(200, 600)`,
/// everything else at the origin, at its own size.
pub open spec fn spec_test_destination(id: usize, src: Rect) -> Rect {
    if id == TEXTURE_ID_MIKU {
        Rect { x: 200, y: 600, width: src.width, height: src.height }
    } else {
        Rect { x: 0, y: 0, width: src.width, height: src.height }
    }
}

impl TestScene {
    pub open spec fn wf(&self) -> bool {
        forall|i: int| 0 <= i < self.sprites@.len() ==> (#[trigger] self.sprites@[i]).1.wf()
    }

    /// Adds dancing Miku and the portrait, and asks for their textures.
    pub fn init(&mut self, game_context: &mut GameContext)
        requires
            old(self).wf(),
        ensures
            final(self).wf(),
            final(self).sprites@ == old(self).sprites@.push((TEXTURE_ID_MIKU, SpriteInfo {
                start_x: 0,
                start_y: 0,
                width: 71,
                height: 54,
                frames: 6,
                current_frame: 0,
                framerate_per_second: 10,
                delta: 0,
            })).push((TEXTURE_ID_PORTRAIT, SpriteInfo {
                start_x: 0,
                start_y: 0,
                width: 2478,
                height: 402,
                frames: 1,
                current_frame: 0,
                framerate_per_second: 60,
                delta: 0,
            })),
            final(game_context).asset_loader is Some == old(game_context).asset_loader is Some,
            old(game_context).asset_loader is Some ==> final(game_context).asset_loader.unwrap().requested@
                == old(game_context).asset_loader.unwrap().requested@.push(TEXTURE_ID_MIKU).push(TEXTURE_ID_PORTRAIT),
            final(game_context).renderer == old(game_context).renderer,
            final(game_context).mouse_context == old(game_context).mouse_context,
            final(game_context).screen_size == old(game_context).screen_size,
            final(game_context).next_scene == old(game_context).next_scene,
            final(game_context).audio == old(game_context).audio,
            final(game_context).shutdown_flag == old(game_context).shutdown_flag,
    {
        let miku = sprite_info_miku();
        let portrait = sprite_info_portrait();
        self.sprites.push((TEXTURE_ID_MIKU, miku));
        self.sprites.push((TEXTURE_ID_PORTRAIT, portrait));
        proof {
            let n = old(self).sprites@.len();
            assert forall|i: int| 0 <= i < self.sprites@.len() implies (#[trigger] self.sprites@[i]).1.wf() by {
                if i < n {
                    assert(self.sprites@[i] == old(self).sprites@[i]);
                }
            }
        }
        match &mut game_context.asset_loader {
            Some(asset_loader) => {
                asset_loader.ensure_texture_spritesheet_loaded(TEXTURE_ID_MIKU);
                asset_loader.ensure_texture_spritesheet_loaded(TEXTURE_ID_PORTRAIT);
            },
            None => {},
        }
    }

    /// Every sprite animates.
    pub fn update(&mut self, ticks: u32, game_context: &mut GameContext)
        requires
            old(self).wf(),
        ensures
            final(self).wf(),
            final(self).sprites@ == old(self).sprites@.map_values(|s: (usize, SpriteInfo)| (s.0, s.1.spec_advance(ticks))),
            *final(game_context) == *old(game_context),
    {
        let ghost before = self.sprites@;
        let mut i: usize = 0;
        while i < self.sprites.len()
            invariant
                before == old(self).sprites@,
                self.sprites@.len() == before.len(),
                i <= before.len(),
                forall|j: int| 0 <= j < before.len() ==> (#[trigger] before[j]).1.wf(),
                forall|j: int| 0 <= j < i ==> self.sprites@[j] == ((#[trigger] before[j]).0, before[j].1.spec_advance(ticks)),
                forall|j: int| i <= j < before.len() ==> self.sprites@[j] == #[trigger] before[j],
            decreases before.len() - i,
        {
            let (id, mut sprite) = self.sprites[i];
            proof {
                assert(self.sprites@[i as int] == before[i as int]);
                assert(before[i as int].1.wf());
                crate::lemma_sprite_advance_keeps_wf(sprite, ticks);
            }
            sprite.advance(ticks);
            self.sprites.set(i, (id, sprite));
            i = i + 1;
        }
        proof {
            assert(self.sprites@ =~= before.map_values(|s: (usize, SpriteInfo)| (s.0, s.1.spec_advance(ticks))));
            assert forall|j: int| 0 <= j < self.sprites@.len() implies (#[trigger] self.sprites@[j]).1.wf() by {
                crate::lemma_sprite_advance_keeps_wf(before[j].1, ticks);
            }
        }
    }

    /// The draw commands: each sprite's current frame from its texture.
    pub open spec fn spec_draw(&self) -> Seq<RenderCommand> {
        self.sprites@.map_values(
            |s: (usize, SpriteInfo)| draw_rect(s.0, s.1.spec_rect(), spec_test_destination(s.0, s.1.spec_rect())),
        )
    }

    pub fn draw(&mut self, game_context: &mut GameContext)
        requires
            old(self).wf(),
        ensures
            *final(self) == *old(self),
            final(self).sprites@ == old(self).sprites@,
            final(game_context).renderer is Some == old(game_context).renderer is Some,
            old(game_context).renderer is Some ==> final(game_context).renderer.unwrap().commands@
                == old(game_context).renderer.unwrap().commands@ + old(self).spec_draw(),
            final(game_context).mouse_context == old(game_context).mouse_context,
            final(game_context).screen_size == old(game_context).screen_size,
            final(game_context).next_scene == old(game_context).next_scene,
            final(game_context).asset_loader == old(game_context).asset_loader,
            final(game_context).audio == old(game_context).audio,
            final(game_context).shutdown_flag == old(game_context).shutdown_flag,
    {
        let renderer = match &mut game_context.renderer {
            Some(r) => r,
            None => {
                return;
            },
        };
        let ghost start = renderer.commands@;
        let ghost part = self.spec_draw();
        let mut i: usize = 0;
        while i < self.sprites.len()
            invariant
                i <= self.sprites@.len(),
                self.wf(),
                part == self.spec_draw(),
                renderer.commands@ == start + part.take(i as int),
            decreases self.sprites@.len() - i,
        {
            let (id, sprite) = self.sprites[i];
            proof {
                assert(self.sprites@[i as int].1.wf());
                crate::lemma_sprite_frame_fits(sprite);
            }
            let (x, y): (isize, isize) = if id == TEXTURE_ID_MIKU {
                (200, 600)
            } else {
                (0, 0)
            };
            let src: Rect = sprite.get_rect();
            renderer.send_command(RenderCommand::DrawRect {
                texture_id: id,
                source: src,
                destination: Rect::new(x, y, src.width, src.height),
            });
            proof {
                assert(part.take(i + 1) =~= part.take(i as int).push(part[i as int]));
            }
            i = i + 1;
        }
        proof {
            assert(part.take(self.sprites@.len() as int) =~= part);
        }
    }
}

impl Default for TestScene {
    fn default() -> (s: TestScene)
        ensures
            s.sprites@ == Seq::<(usize, SpriteInfo)>::empty(),
            s.wf(),
    {
        TestScene { sprites: Vec::new() }
    }
}

} // verus!
