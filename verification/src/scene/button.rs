//! A clickable button with a text label, placed on a parent grid.
use vstd::prelude::*;

use crate::constants::{sprite_info_highlight, sprite_info_topbar_bg, TEXTURE_ID_FONTSHEET, TEXTURE_ID_LEEKSHEET};
use crate::font::{get_rects_for_str, printable, spec_glyph_rect};
use crate::game::GameContext;
use crate::grid_layout::GridLayout;
use crate::renderer::{draw_rect, RenderCommand};
use crate::scene::{lemma_screen_layout_ok, spec_screen_layout};
use crate::{fits_isize, trunc_div, Rect, SpriteInfo};

verus! {

/// A button: `rect` places it on the parent grid, `x` and `y` being the
/// column and row of its corner cell and `width` and `height` its size in
/// cells.
pub struct Button {
    pub text: String,
    pub rect: Rect,
    pub hovered: bool,
    pub clicked: bool,
    pub bg: SpriteInfo,
    pub highlight: SpriteInfo,
}

impl Button {
    pub open spec fn wf(&self) -> bool {
        &&& self.bg.wf()
        &&& self.highlight.wf()
        &&& printable(self.text@)
    }

    /// The corner cell of the button on the parent grid, as `cell_rect`
    /// gives it.
    pub open spec fn spec_anchor(&self, parent: GridLayout) -> Rect {
        parent.spec_cell_rect()
    }

    /// The arithmetic of `relative_layout` stays within `isize`.
    pub open spec fn relative_layout_ok(&self, parent: GridLayout) -> bool {
        &&& parent.cell_size_ok()
        &&& parent.origin_ok()
        &&& fits_isize(self.spec_anchor(parent).width * self.rect.width)
        &&& fits_isize(self.spec_anchor(parent).height * self.rect.height)
    }

    /// The button's own grid: one cell over the button's whole area.
    pub open spec fn spec_relative_layout(&self, parent: GridLayout) -> GridLayout {
        let anchor = self.spec_anchor(parent);
        GridLayout {
            area: Rect {
                x: anchor.x,
                y: anchor.y,
                width: (anchor.width * self.rect.width) as isize,
                height: (anchor.height * self.rect.height) as isize,
            },
            rows: 1,
            columns: 1,
            cell_gap: 0,
        }
    }

    /// The button after a tick: hovered while the pointer is over it, and
    /// clicked by a left click while hovered; leaving it clears both.
    pub open spec fn spec_update(&self, ticks: u32, pointer_over: bool, left_clicked: bool) -> (bool, bool, SpriteInfo) {
        if !pointer_over {
            (false, false, self.highlight)
        } else {
            (true, self.clicked || left_clicked, self.highlight.spec_advance(ticks))
        }
    }

    /// The pointer is over the button's cell.
    pub open spec fn spec_pointer_over(&self, parent: GridLayout, position: Option<(isize, isize)>) -> bool {
        self.spec_relative_layout(parent).spec_cell_for_mouse(position) is Some
    }

    /// The cell of the button on the screen.
    pub open spec fn spec_cell(&self, parent: GridLayout) -> Rect {
        self.spec_relative_layout(parent).spec_cell_rect()
    }

    /// The width of one glyph of the label: the cell's width shared by the
    /// glyphs and one glyph's room on either side.
    pub open spec fn glyph_width(&self, parent: GridLayout) -> int {
        trunc_div(self.spec_cell(parent).width as int, (self.text@.len() + 2) as int)
    }

    /// Where glyph `i` of the label goes: in a row along the middle of the
    /// cell, after one glyph's room.
    pub open spec fn spec_glyph_cell(&self, parent: GridLayout, i: int) -> Rect {
        let cell = self.spec_cell(parent);
        let gw = self.glyph_width(parent);
        Rect {
            x: (cell.x + gw + i * gw) as isize,
            y: (cell.spec_center().1 - trunc_div(gw, 2)) as isize,
            width: gw as isize,
            height: gw as isize,
        }
    }

    /// The arithmetic of `draw` stays within `isize`, and the cell has a
    /// center (see `Rect::center_ok`).
    pub open spec fn draw_ok(&self, parent: GridLayout) -> bool {
        let cell = self.spec_cell(parent);
        let gw = self.glyph_width(parent);
        &&& self.relative_layout_ok(parent)
        &&& self.spec_relative_layout(parent).cell_size_ok()
        &&& self.spec_relative_layout(parent).origin_ok()
        &&& cell.center_ok()
        &&& self.text@.len() + 2 <= isize::MAX
        &&& fits_isize(cell.x + gw)
        &&& fits_isize(cell.spec_center().1 - trunc_div(gw, 2))
        &&& forall|i: int| 0 <= i < self.text@.len() ==> fits_isize(#[trigger] (i * gw)) && fits_isize(cell.x + gw + i * gw)
    }

    /// The draw commands of the button: its background, its highlight while
    /// hovered, and a glyph for every character of its label.
    pub open spec fn spec_draw(&self, parent: GridLayout) -> Seq<RenderCommand> {
        let cell = self.spec_cell(parent);
        seq![draw_rect(TEXTURE_ID_LEEKSHEET, self.bg.spec_rect(), cell)] + (if self.hovered {
            seq![draw_rect(TEXTURE_ID_LEEKSHEET, self.highlight.spec_rect(), cell)]
        } else {
            Seq::empty()
        }) + Seq::new(
            self.text@.len(),
            |i: int| draw_rect(TEXTURE_ID_FONTSHEET, spec_glyph_rect(self.text@[i]), self.spec_glyph_cell(parent, i)),
        )
    }

    /// A button as `new` makes it: that label and place, untouched, on the
    /// menu's background sprite with the highlight on its first frame.
    pub open spec fn is_fresh(&self, text: Seq<char>, rect: Rect) -> bool {
        &&& self.text@ == text
        &&& self.rect == rect
        &&& !self.hovered
        &&& !self.clicked
        &&& self.bg == (SpriteInfo {
            start_x: 544,
            start_y: 0,
            width: 32,
            height: 32,
            frames: 1,
            current_frame: 0,
            framerate_per_second: 60,
            delta: 0,
        })
        &&& self.highlight == (SpriteInfo {
            start_x: 96,
            start_y: 0,
            width: 32,
            height: 32,
            frames: 4,
            current_frame: 0,
            framerate_per_second: 4,
            delta: 0,
        })
    }

    pub fn new(text: String, rect: Rect) -> (b: Button)
        ensures
            b.is_fresh(text@, rect),
            b.text@ == text@,
            b.rect == rect,
            !b.hovered,
            !b.clicked,
            b.bg == (SpriteInfo {
                start_x: 544,
                start_y: 0,
                width: 32,
                height: 32,
                frames: 1,
                current_frame: 0,
                framerate_per_second: 60,
                delta: 0,
            }),
            b.highlight == (SpriteInfo {
                start_x: 96,
                start_y: 0,
                width: 32,
                height: 32,
                frames: 4,
                current_frame: 0,
                framerate_per_second: 4,
                delta: 0,
            }),
    {
        Self { text, rect, hovered: false, clicked: false, bg: sprite_info_topbar_bg(), highlight: sprite_info_highlight() }
    }

    pub fn relative_layout(&self, parent_layout: &GridLayout) -> (g: GridLayout)
        requires
            self.relative_layout_ok(*parent_layout),
        ensures
            g == self.spec_relative_layout(*parent_layout),
    {
        let anchor: Rect = parent_layout.cell_rect(self.rect.y as usize, self.rect.x as usize);
        let width: isize = anchor.width * self.rect.width;
        let height: isize = anchor.height * self.rect.height;
        GridLayout { area: Rect { x: anchor.x, y: anchor.y, width, height }, rows: 1, columns: 1, cell_gap: 0 }
    }

    pub fn update(&mut self, ticks: u32, game_context: &GameContext, parent_layout: &GridLayout)
        requires
            old(self).wf(),
            old(self).relative_layout_ok(*parent_layout),
            old(self).spec_relative_layout(*parent_layout).cells_ok(),
        ensures
            final(self).wf(),
            (final(self).hovered, final(self).clicked, final(self).highlight) == old(self).spec_update(
                ticks,
                old(self).spec_pointer_over(*parent_layout, game_context.mouse_context.position),
                game_context.mouse_context.left_clicked,
            ),
            final(self).text@ == old(self).text@,
            final(self).rect == old(self).rect,
            final(self).bg == old(self).bg,
    {
        let layout = self.relative_layout(parent_layout);
        let hit = layout.cell_for_mouse(game_context.mouse_context.position);
        if hit.is_none() {
            self.hovered = false;
            self.clicked = false;
            return;
        }
        self.hovered = true;
        proof {
            crate::lemma_sprite_advance_keeps_wf(self.highlight, ticks);
        }
        self.highlight.advance(ticks);
        if game_context.mouse_context.left_clicked {
            self.clicked = true;
        }
    }

    pub fn draw(&mut self, game_context: &mut GameContext, parent_layout: &GridLayout)
        requires
            old(self).wf(),
            old(game_context).renderer is Some ==> old(self).draw_ok(*parent_layout),
        ensures
            *final(self) == *old(self),
            final(game_context).renderer is Some == old(game_context).renderer is Some,
            old(game_context).renderer is Some ==> final(game_context).renderer.unwrap().commands@
                == old(game_context).renderer.unwrap().commands@ + old(self).spec_draw(*parent_layout),
            final(game_context).mouse_context == old(game_context).mouse_context,
            final(game_context).screen_size == old(game_context).screen_size,
            final(game_context).next_scene == old(game_context).next_scene,
            final(game_context).asset_loader == old(game_context).asset_loader,
            final(game_context).audio == old(game_context).audio,
            final(game_context).shutdown_flag == old(game_context).shutdown_flag,
    {
        let renderer = match &mut game_context.renderer {
            Some(r) => r,
            None => {
                return;
            },
        };
        let ghost start = renderer.commands@;
        let layout = self.relative_layout(parent_layout);
        proof {
            crate::lemma_sprite_frame_fits(self.bg);
            crate::lemma_sprite_frame_fits(self.highlight);
        }
        let src: Rect = self.bg.get_rect();
        let anchor: Rect = layout.cell_rect(0, 0);
        renderer.send_command(RenderCommand::DrawRect { texture_id: TEXTURE_ID_LEEKSHEET, source: src, destination: anchor });
        if self.hovered {
            let src: Rect = self.highlight.get_rect();
            renderer.send_command(RenderCommand::DrawRect { texture_id: TEXTURE_ID_LEEKSHEET, source: src, destination: anchor });
        }
        let ghost head = renderer.commands@;
        let glyphs: Vec<Rect> = get_rects_for_str(self.text.as_str());
        let (_cx, cy) = anchor.center();
        let ghost part = Seq::new(
            self.text@.len(),
            |i: int| draw_rect(TEXTURE_ID_FONTSHEET, spec_glyph_rect(self.text@[i]), self.spec_glyph_cell(*parent_layout, i)),
        );
        let mut c: usize = 0;
        while c < glyphs.len()
            invariant
                c <= glyphs@.len(),
                glyphs@.len() == self.text@.len(),
                forall|i: int| 0 <= i < glyphs@.len() ==> glyphs@[i] == spec_glyph_rect(#[trigger] self.text@[i]),
                anchor == self.spec_cell(*parent_layout),
                cy == anchor.spec_center().1,
                self.draw_ok(*parent_layout),
                part.len() == self.text@.len(),
                forall|j: int| 0 <= j < part.len() ==> #[trigger] part[j] == draw_rect(
                    TEXTURE_ID_FONTSHEET,
                    spec_glyph_rect(self.text@[j]),
                    self.spec_glyph_cell(*parent_layout, j),
                ),
                renderer.commands@ == head + part.take(c as int),
            decreases glyphs@.len() - c,
        {
            let src: Rect = glyphs[c];
            let glyph_display_width: isize = anchor.width / (glyphs.len() as isize + 2);
            let glyph_display_height: isize = glyph_display_width;
            let start_offset: isize = anchor.x + glyph_display_width;
            proof {
                assert(fits_isize(c as int * glyph_display_width));
            }
            let cell = Rect {
                x: start_offset + c as isize * glyph_display_width,
                y: cy - glyph_display_height / 2,
                width: glyph_display_width,
                height: glyph_display_height,
            };
            renderer.send_command(RenderCommand::DrawRect { texture_id: TEXTURE_ID_FONTSHEET, source: src, destination: cell });
            proof {
                assert(part[c as int] == draw_rect(TEXTURE_ID_FONTSHEET, src, cell));
                assert(part.take(c + 1) =~= part.take(c as int).push(part[c as int]));
                assert(renderer.commands@ =~= head + part.take(c + 1));
            }
            c = c + 1;
        }
        proof {
            assert(part.take(glyphs@.len() as int) =~= part);
            assert(renderer.commands@ =~= start + self.spec_draw(*parent_layout));
        }
    }
}

/// A button no bigger than a grid over the screen keeps the arithmetic of
/// its own grid within bounds.
pub proof fn lemma_button_on_screen(b: &Button, screen: (u32, u32), rows: usize, columns: usize)
    requires
        0 < rows <= 1000,
        0 < columns <= 1000,
        0 <= b.rect.width <= columns,
        0 <= b.rect.height <= rows,
    ensures
        b.relative_layout_ok(spec_screen_layout(screen, rows, columns)),
        b.spec_relative_layout(spec_screen_layout(screen, rows, columns)).cells_ok(),
{
    let parent = spec_screen_layout(screen, rows, columns);
    lemma_screen_layout_ok(screen, rows, columns);
    let cw = parent.spec_cell_size().0;
    let ch = parent.spec_cell_size().1;
    assert(0 <= cw * b.rect.width <= cw * (columns as int)) by (nonlinear_arith)
        requires
            cw >= 0,
            0 <= b.rect.width <= columns,
    ;
    assert(0 <= ch * b.rect.height <= ch * (rows as int)) by (nonlinear_arith)
        requires
            ch >= 0,
            0 <= b.rect.height <= rows,
    ;
    let g = b.spec_relative_layout(parent);
    assert(g.gaps().0 == 0);
    assert(g.gaps().1 == 0);
}

/// On a grid over the screen a button's cell lies at the screen's left
/// edge, where `Rect::center` divides by zero: no such button can be drawn.
pub proof fn lemma_button_on_screen_not_drawable(b: &Button, screen: (u32, u32), rows: usize, columns: usize)
    ensures
        !b.draw_ok(spec_screen_layout(screen, rows, columns)),
{
    let parent = spec_screen_layout(screen, rows, columns);
    assert(b.spec_anchor(parent).x == 0);
    assert(b.spec_cell(parent).x == 0);
}

} // verus!
