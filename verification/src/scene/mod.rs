//! The scenes of the game.
use vstd::prelude::*;

use crate::grid_layout::{max0, GridLayout};
use crate::scene::game_over::GameOverScene;
use crate::scene::level::LevelScene;
use crate::scene::loading::TestScene;
use crate::scene::shutting_down::ShuttingDownScene;
use crate::scene::title_screen::TitleScene;
use crate::audio::AudioCommand;
use crate::constants::{
    MusicId, SfxId, TextureId, MUSIC_ID_MOON, MUSIC_ID_PACHEBAL, MUSIC_ID_TETO, SFX_ID_BLIP, SFX_ID_MEME,
    TEXTURE_ID_FONTSHEET, TEXTURE_ID_GAMEOVER, TEXTURE_ID_LEEKSHEET, TEXTURE_ID_MIKU, TEXTURE_ID_MIKU_WAVE,
    TEXTURE_ID_PORTRAIT, TEXTURE_ID_TITLE_BG,
};
use crate::game::{GameContext, MouseContext};
use crate::renderer::RenderCommand;
use crate::scene::level::Interpolate;
use crate::{Rect, SpriteInfo};

pub mod button;
pub mod game_over;
pub mod level;
pub mod loading;
pub mod shutting_down;
pub mod title_screen;

verus! {

/// One of the game's scenes.
pub enum AnyScene {
    Test(TestScene),
    Level(LevelScene),
    ShuttingDown(ShuttingDownScene),
    GameOver(GameOverScene),
    Title(TitleScene),
}

/// The grid a scene lays out over the whole screen, without gaps.
pub open spec fn spec_screen_layout(screen: (u32, u32), rows: usize, columns: usize) -> GridLayout {
    GridLayout {
        area: Rect { x: 0, y: 0, width: screen.0 as isize, height: screen.1 as isize },
        rows,
        columns,
        cell_gap: 0,
    }
}

/// The grid of a scene over the screen.
pub fn screen_layout(screen: (u32, u32), rows: usize, columns: usize) -> (g: GridLayout)
    ensures
        g == spec_screen_layout(screen, rows, columns),
{
    let (screen_width, screen_height) = screen;
    GridLayout {
        area: Rect::new(0, 0, screen_width as isize, screen_height as isize),
        rows,
        columns,
        cell_gap: 0,
    }
}

/// A grid of a few rows and columns over the screen keeps its arithmetic
/// within bounds, whatever the screen's size; its cells are no wider than
/// the screen shared by the columns, and no taller than the screen shared by
/// the rows.
pub proof fn lemma_screen_layout_ok(screen: (u32, u32), rows: usize, columns: usize)
    requires
        0 < rows <= 1000,
        0 < columns <= 1000,
    ensures
        spec_screen_layout(screen, rows, columns).cells_ok(),
        spec_screen_layout(screen, rows, columns).spec_origin() == (0int, 0int),
        spec_screen_layout(screen, rows, columns).spec_cell_size().0 * (columns as int) <= max0(screen.0 as isize as int),
        spec_screen_layout(screen, rows, columns).spec_cell_size().1 * (rows as int) <= max0(screen.1 as isize as int),
        spec_screen_layout(screen, rows, columns).spec_cell_size().0 >= 0,
        spec_screen_layout(screen, rows, columns).spec_cell_size().1 >= 0,
{
    let g = spec_screen_layout(screen, rows, columns);
    let mw = max0(screen.0 as isize as int);
    let mh = max0(screen.1 as isize as int);
    let w = g.spec_cell_size().0;
    let h = g.spec_cell_size().1;
    assert(g.gaps().0 == 0);
    assert(g.gaps().1 == 0);
    assert(w == mw / (columns as int));
    assert(h == mh / (rows as int));
    vstd::arithmetic::div_mod::lemma_fundamental_div_mod(mw, columns as int);
    vstd::arithmetic::div_mod::lemma_fundamental_div_mod(mh, rows as int);
    vstd::arithmetic::div_mod::lemma_div_pos_is_pos(mw, columns as int);
    vstd::arithmetic::div_mod::lemma_div_pos_is_pos(mh, rows as int);
    assert(w * (columns as int) <= mw) by (nonlinear_arith)
        requires
            mw == (columns as int) * w + mw % (columns as int),
            mw % (columns as int) >= 0,
    ;
    assert(h * (rows as int) <= mh) by (nonlinear_arith)
        requires
            mh == (rows as int) * h + mh % (rows as int),
            mh % (rows as int) >= 0,
    ;
    assert(0 <= (columns - 1) * w <= w * (columns as int)) by (nonlinear_arith)
        requires
            w >= 0,
            columns >= 1,
    ;
    assert(0 <= (rows - 1) * h <= h * (rows as int)) by (nonlinear_arith)
        requires
            h >= 0,
            rows >= 1,
    ;
    assert(rows * columns <= 1000 * 1000) by (nonlinear_arith)
        requires
            0 < rows <= 1000,
            0 < columns <= 1000,
    ;
    assert(mw <= isize::MAX);
    assert(mh <= isize::MAX);
}


impl AnyScene {
    pub open spec fn wf(&self) -> bool {
        match self {
            AnyScene::Test(s) => s.wf(),
            AnyScene::Level(s) => s.wf(),
            AnyScene::ShuttingDown(s) => s.wf(),
            AnyScene::GameOver(s) => s.wf(),
            AnyScene::Title(s) => s.wf(),
        }
    }

    /// The scene can take a tick of `ticks` ticks (see
    /// `LevelScene::update_ok`).
    pub open spec fn update_ok(&self, ticks: u32) -> bool {
        match self {
            AnyScene::Level(s) => s.update_ok(ticks),
            _ => true,
        }
    }

    /// The scene can be drawn on a screen of that size (see
    /// `Button::draw_ok`).
    pub open spec fn draw_ok(&self, screen: (u32, u32)) -> bool {
        match self {
            AnyScene::GameOver(s) => s.draw_ok(screen),
            AnyScene::Title(s) => s.draw_ok(screen),
            _ => true,
        }
    }

    /// The sprite sheets the scene asks for when it starts.
    pub open spec fn spec_init_textures(&self) -> Seq<TextureId> {
        match self {
            AnyScene::Test(_) => seq![TEXTURE_ID_MIKU, TEXTURE_ID_PORTRAIT],
            AnyScene::Level(_) => Seq::empty(),
            AnyScene::ShuttingDown(_) => seq![TEXTURE_ID_MIKU_WAVE],
            AnyScene::GameOver(_) => seq![TEXTURE_ID_GAMEOVER, TEXTURE_ID_LEEKSHEET, TEXTURE_ID_FONTSHEET],
            AnyScene::Title(_) => seq![TEXTURE_ID_TITLE_BG, TEXTURE_ID_LEEKSHEET, TEXTURE_ID_FONTSHEET],
        }
    }

    /// The sounds the scene loads when it starts, where it can load sprite
    /// sheets too.
    pub open spec fn spec_init_sounds(&self) -> Seq<AudioCommand> {
        match self {
            AnyScene::GameOver(_) => seq![
                AudioCommand::LoadSfx(SfxId(SFX_ID_BLIP)),
                AudioCommand::LoadMusic(MusicId(MUSIC_ID_MOON)),
                AudioCommand::LoadMusic(MusicId(MUSIC_ID_TETO)),
            ],
            AnyScene::Title(_) => seq![
                AudioCommand::LoadSfx(SfxId(SFX_ID_BLIP)),
                AudioCommand::LoadSfx(SfxId(SFX_ID_MEME)),
                AudioCommand::LoadMusic(MusicId(MUSIC_ID_PACHEBAL)),
            ],
            _ => Seq::empty(),
        }
    }

    /// What starting does to the scene: the test scene adds its two
    /// sprites, the others stay as they are.
    pub open spec fn inited(self, after: Self) -> bool {
        match (self, after) {
            (AnyScene::Test(a), AnyScene::Test(b)) => b.sprites@ == a.sprites@.push(
                (TEXTURE_ID_MIKU, SpriteInfo {
                    start_x: 0,
                    start_y: 0,
                    width: 71,
                    height: 54,
                    frames: 6,
                    current_frame: 0,
                    framerate_per_second: 10,
                    delta: 0,
                }),
            ).push(
                (TEXTURE_ID_PORTRAIT, SpriteInfo {
                    start_x: 0,
                    start_y: 0,
                    width: 2478,
                    height: 402,
                    frames: 1,
                    current_frame: 0,
                    framerate_per_second: 60,
                    delta: 0,
                }),
            ),
            (AnyScene::Test(_), _) => false,
            (a, b) => b == a,
        }
    }

    /// What a tick does to the scene and to the context: each scene's own
    /// rule (see the `update` of each).
    pub open spec fn ticked(self, after: Self, ticks: u32, ctx: GameContext, after_ctx: GameContext) -> bool {
        match (self, after) {
            (AnyScene::Test(a), AnyScene::Test(b)) => {
                &&& b.sprites@ == a.sprites@.map_values(
                    |s: (usize, SpriteInfo)| (s.0, s.1.spec_advance(ticks)),
                )
                &&& after_ctx == ctx
            },
            (AnyScene::Level(a), AnyScene::Level(b)) => a.ticked(b, ticks, ctx, after_ctx),
            (AnyScene::ShuttingDown(a), AnyScene::ShuttingDown(b)) => {
                &&& b == a.spec_update(ticks)
                &&& after_ctx == GameContext { shutdown_flag: ctx.shutdown_flag || b.countdown is Ready, ..ctx }
            },
            (AnyScene::GameOver(a), AnyScene::GameOver(b)) => a.ticked(b, ticks, ctx, after_ctx),
            (AnyScene::Title(a), AnyScene::Title(b)) => a.ticked(b, ticks, ctx, after_ctx),
            _ => false,
        }
    }

    /// The draw commands of the scene.
    pub open spec fn spec_draw(&self, screen: (u32, u32), mouse: MouseContext) -> Seq<RenderCommand> {
        match self {
            AnyScene::Test(s) => s.spec_draw(),
            AnyScene::Level(s) => s.spec_draw(screen, mouse),
            AnyScene::ShuttingDown(s) => s.spec_draw(screen),
            AnyScene::GameOver(s) => s.spec_draw(screen),
            AnyScene::Title(s) => s.spec_draw(screen),
        }
    }

    /// Starts the scene: it asks for its sprite sheets and, where it could
    /// ask for those, loads its sounds.
    pub fn init(&mut self, game_context: &mut GameContext)
        requires
            old(self).wf(),
        ensures
            final(self).wf(),
            old(self).inited(*final(self)),
            final(game_context).asset_loader is Some == old(game_context).asset_loader is Some,
            final(game_context).audio is Some == old(game_context).audio is Some,
            old(game_context).asset_loader is Some ==> final(game_context).asset_loader.unwrap().requested@
                == old(game_context).asset_loader.unwrap().requested@ + old(self).spec_init_textures(),
            old(game_context).audio is Some ==> final(game_context).audio.unwrap().commands@
                == old(game_context).audio.unwrap().commands@ + if old(game_context).asset_loader is Some {
                old(self).spec_init_sounds()
            } else {
                Seq::empty()
            },
            final(game_context).renderer == old(game_context).renderer,
            final(game_context).mouse_context == old(game_context).mouse_context,
            final(game_context).screen_size == old(game_context).screen_size,
            final(game_context).next_scene == old(game_context).next_scene,
            final(game_context).shutdown_flag == old(game_context).shutdown_flag,
    {
        match self {
            AnyScene::Test(s) => s.init(game_context),
            AnyScene::Level(_) => {},
            AnyScene::ShuttingDown(s) => s.init(game_context),
            AnyScene::GameOver(s) => s.init(game_context),
            AnyScene::Title(s) => s.init(game_context),
        }
    }

    /// A tick of `ticks` ticks of the scene.
    pub fn update<I: Interpolate>(&mut self, ticks: u32, game_context: &mut GameContext, interpolation: &I)
        requires
            old(self).wf(),
            old(self).update_ok(ticks),
        ensures
            final(self).wf(),
            old(self).ticked(*final(self), ticks, *old(game_context), *final(game_context)),
            match (*old(self), *final(self)) {
                (AnyScene::Level(l), AnyScene::Level(l2)) => forall|i: int|
                    0 <= i < l.spec_flying(ticks, *old(game_context)).len() ==> (#[trigger] l.spec_flying(
                        ticks,
                        *old(game_context),
                    )[i]).placed_by(interpolation, l2.projectiles@[i]),
                (AnyScene::Level(_), _) => false,
                _ => true,
            },
    {
        match self {
            AnyScene::Test(s) => s.update(ticks, game_context),
            AnyScene::Level(s) => s.update(ticks, game_context, interpolation),
            AnyScene::ShuttingDown(s) => s.update(ticks, game_context),
            AnyScene::GameOver(s) => s.update(ticks, game_context),
            AnyScene::Title(s) => s.update(ticks, game_context),
        }
    }

    /// Queues the scene's draw commands, when there is a renderer.
    pub fn draw(&mut self, game_context: &mut GameContext)
        requires
            old(self).wf(),
            old(game_context).renderer is Some ==> old(self).draw_ok(old(game_context).screen_size),
        ensures
            *final(self) == *old(self),
            final(self).wf(),
            final(game_context).renderer is Some == old(game_context).renderer is Some,
            old(game_context).renderer is Some ==> final(game_context).renderer.unwrap().commands@
                == old(game_context).renderer.unwrap().commands@ + old(self).spec_draw(
                old(game_context).screen_size,
                old(game_context).mouse_context,
            ),
            final(game_context).mouse_context == old(game_context).mouse_context,
            final(game_context).screen_size == old(game_context).screen_size,
            final(game_context).next_scene == old(game_context).next_scene,
            final(game_context).asset_loader == old(game_context).asset_loader,
            final(game_context).audio == old(game_context).audio,
            final(game_context).shutdown_flag == old(game_context).shutdown_flag,
    {
        match self {
            AnyScene::Test(s) => s.draw(game_context),
            AnyScene::Level(s) => s.draw(game_context),
            AnyScene::ShuttingDown(s) => s.draw(game_context),
            AnyScene::GameOver(s) => s.draw(game_context),
            AnyScene::Title(s) => s.draw(game_context),
        }
    }
}

impl AnyScene {
    /// Whether the scene can take a tick of `ticks` ticks (see
    /// `update_ok`).
    pub fn can_update(&self, ticks: u32) -> (b: bool)
        requires
            self.wf(),
        ensures
            b == self.update_ok(ticks),
    {
        match self {
            AnyScene::Level(s) => s.can_update(ticks),
            _ => true,
        }
    }

    /// Whether the scene can be drawn on a screen of that size (see
    /// `draw_ok`): the buttons of the title and game over scenes never can.
    pub fn can_draw(&self, screen: (u32, u32)) -> (b: bool)
        ensures
            b == self.draw_ok(screen),
    {
        match self {
            AnyScene::GameOver(s) => {
                proof {
                    crate::scene::button::lemma_button_on_screen_not_drawable(&s.give_up_btn, screen, 10, 15);
                }
                false
            },
            AnyScene::Title(s) => {
                proof {
                    crate::scene::button::lemma_button_on_screen_not_drawable(&s.quit_btn, screen, 27, 48);
                }
                false
            },
            _ => true,
        }
    }
}

} // verus!
