//! Game logic of a small tower defense game: timers, sprite animation,
//! grid geometry, the scenes and their rules.  Rendering, audio and input
//! are performed by a backend; the library records what it asks of them.
use vstd::prelude::*;

pub mod asset_loader;
pub mod audio;
pub mod clock;
pub mod constants;
pub mod font;
pub mod game;
pub mod game_options;
pub mod grid_layout;
pub mod music_files;
pub mod renderer;
pub mod scene;
pub mod sound_pool;

verus! {

/// Rust's truncating integer division, `a / b` rounded toward zero.
pub open spec fn trunc_div(a: int, b: int) -> int {
    if a >= 0 {
        a / b
    } else {
        -((-a) / b)
    }
}

/// Whether `v` fits in an `isize`.
pub open spec fn fits_isize(v: int) -> bool {
    isize::MIN <= v <= isize::MAX
}

/// `a + b`, saturating at `u32::MAX`.
pub open spec fn sat_add_u32(a: int, b: int) -> int {
    if a + b > u32::MAX {
        u32::MAX as int
    } else {
        a + b
    }
}

/// `a - b`, saturating at zero.
pub open spec fn sat_sub(a: int, b: int) -> int {
    if a >= b {
        a - b
    } else {
        0
    }
}

/// Whether an actor may act now, or the cooldown it is still waiting out.
#[derive(Debug, Clone, Copy, PartialEq, Eq, Structural)]
pub enum ReadyState {
    Ready,
    Cooldown { wait_for: u32, ticks_waited: u32 },
}

impl ReadyState {
    pub open spec fn is_ready(self) -> bool {
        self is Ready
    }
}

/// The state a timer reaches after `ticks` more ticks.
pub open spec fn spec_advance_ready_state(ready_state: ReadyState, ticks: u32) -> ReadyState {
    match ready_state {
        ReadyState::Ready => ReadyState::Ready,
        ReadyState::Cooldown { wait_for, ticks_waited } => {
            let waited = sat_add_u32(ticks_waited as int, ticks as int);
            if waited >= wait_for {
                ReadyState::Ready
            } else {
                ReadyState::Cooldown { wait_for, ticks_waited: waited as u32 }
            }
        },
    }
}

/// Counts `ticks` more ticks of waiting; a cooldown turns ready once it has
/// waited at least `wait_for` ticks in all.
pub fn advance_ready_state(ready_state: ReadyState, ticks: u32) -> (r: ReadyState)
    ensures
        r == spec_advance_ready_state(ready_state, ticks),
{
    match ready_state {
        ReadyState::Ready => ready_state,
        ReadyState::Cooldown { wait_for, ticks_waited } => {
            let ticks_waited: u32 = ticks_waited.saturating_add(ticks);
            if ticks_waited >= wait_for {
                ReadyState::Ready
            } else {
                ReadyState::Cooldown { wait_for, ticks_waited }
            }
        },
    }
}

/// Advancing a timer by `a` ticks and then by `b` ticks is the same as
/// advancing it once by `a + b` ticks (saturating).
pub proof fn lemma_advance_ready_state_additive(s: ReadyState, a: u32, b: u32)
    ensures
        spec_advance_ready_state(spec_advance_ready_state(s, a), b) == spec_advance_ready_state(
            s,
            sat_add_u32(a as int, b as int) as u32,
        ),
{
}

/// A ready timer stays ready, whatever number of ticks passes.
pub proof fn lemma_ready_stays_ready(ticks: u32)
    ensures
        spec_advance_ready_state(ReadyState::Ready, ticks) == ReadyState::Ready,
{
}

/// A cooldown of `wait_for` ticks that has waited nothing yet is ready after
/// `ticks` ticks exactly when `ticks >= wait_for`.
pub proof fn lemma_cooldown_ready_exactly_when_waited(wait_for: u32, ticks: u32)
    ensures
        spec_advance_ready_state(ReadyState::Cooldown { wait_for, ticks_waited: 0 }, ticks).is_ready()
            <==> ticks >= wait_for,
{
}

/// An axis aligned rectangle; `(x, y)` is the corner from which `width` and
/// `height` extend.
#[derive(Debug, Clone, Copy, PartialEq, Eq, Structural)]
pub struct Rect {
    pub x: isize,
    pub y: isize,
    pub width: isize,
    pub height: isize,
}

impl Rect {
    /// The point lies strictly inside the rectangle.
    pub open spec fn spec_contains(self, x2: int, y2: int) -> bool {
        &&& self.x < x2 < self.x + self.width
        &&& self.y < y2 < self.y + self.height
    }

    /// The arithmetic of `contains` stays within `isize` for this point.
    pub open spec fn contains_ok(self, x2: int, y2: int) -> bool {
        &&& self.x < x2 ==> fits_isize(self.x + self.width)
        &&& self.y < y2 ==> fits_isize(self.y + self.height)
    }

    /// The center, with the half extents rounded toward zero.
    pub open spec fn spec_center(self) -> (int, int) {
        (self.x + trunc_div(self.width as int, 2), self.y + trunc_div(self.height as int, 2))
    }

    /// The arithmetic of `center` stays within `isize`.  The unit it halves
    /// by is computed as `x / x`, so a rectangle at `x == 0` has no center.
    pub open spec fn center_ok(self) -> bool {
        &&& self.x != 0
        &&& fits_isize(self.spec_center().0)
        &&& fits_isize(self.spec_center().1)
    }

    pub fn new(x: isize, y: isize, width: isize, height: isize) -> (r: Rect)
        ensures
            r == (Rect { x, y, width, height }),
    {
        Rect { x, y, width, height }
    }

    pub fn contains(&self, x2: isize, y2: isize) -> (b: bool)
        requires
            self.contains_ok(x2 as int, y2 as int),
        ensures
            b == self.spec_contains(x2 as int, y2 as int),
    {
        let in_x: bool = self.x < x2 && x2 < self.x + self.width;
        let in_y: bool = self.y < y2 && y2 < self.y + self.height;
        in_x && in_y
    }

    pub fn center(&self) -> (c: (isize, isize))
        requires
            self.center_ok(),
        ensures
            c.0 == self.spec_center().0,
            c.1 == self.spec_center().1,
    {
        let one: isize = self.x / self.x;
        proof {
            lemma_trunc_div_self(self.x as int);
        }
        let two: isize = one + one;
        let cx: isize = self.x + self.width / two;
        let cy: isize = self.y + self.height / two;
        (cx, cy)
    }
}

proof fn lemma_trunc_div_self(x: int)
    requires
        x != 0,
    ensures
        trunc_div(x, x) == 1,
{
    if x > 0 {
        vstd::arithmetic::div_mod::lemma_div_by_self(x);
    } else {
        assert((-x) / x == -1) by (nonlinear_arith)
            requires
                x < 0,
        ;
    }
}

/// A sprite on a sprite sheet: frames of `width` by `height` laid out left to
/// right from `(start_x, start_y)`, with the animation state.
#[derive(Debug, Clone, Copy, PartialEq, Eq, Structural)]
pub struct SpriteInfo {
    pub start_x: u32,
    pub start_y: u32,
    pub width: u32,
    pub height: u32,
    pub frames: u32,
    pub current_frame: u32,
    pub framerate_per_second: u32,
    pub delta: u32,
}

impl SpriteInfo {
    /// The current frame is one of the sheet's frames, and every frame of the
    /// sheet has an `x` offset that fits in a `u32`.
    pub open spec fn wf(self) -> bool {
        &&& self.frames > 0
        &&& self.current_frame < self.frames
        &&& self.start_x + self.width * (self.frames - 1) <= u32::MAX
    }

    /// The delta counter after adding `delta`, wrapping around.
    pub open spec fn wrapped_delta(self, delta: u32) -> int {
        (self.delta + delta) % 0x1_0000_0000
    }

    /// The arithmetic of `advance` stays within `u32`.
    pub open spec fn advance_ok(self, delta: u32) -> bool {
        self.wrapped_delta(delta) > self.framerate_per_second ==> self.current_frame < u32::MAX
    }

    /// The animation state after `delta` more ticks: once more than
    /// `framerate_per_second` ticks have accumulated the frame moves on,
    /// looping back to the first frame at the end of the sheet.
    pub open spec fn spec_advance(self, delta: u32) -> SpriteInfo {
        let d = self.wrapped_delta(delta);
        let moved = d > self.framerate_per_second;
        let frame = if moved {
            self.current_frame + 1
        } else {
            self.current_frame as int
        };
        let frame = if frame >= self.frames {
            0
        } else {
            frame
        };
        SpriteInfo {
            current_frame: frame as u32,
            delta: if moved {
                0
            } else {
                d as u32
            },
            ..self
        }
    }

    /// The `x` offset of the current frame on the sheet.
    pub open spec fn frame_x(self) -> int {
        self.start_x + self.width * self.current_frame
    }

    /// The source rectangle of the current frame.
    pub open spec fn spec_rect(self) -> Rect {
        Rect {
            x: self.frame_x() as isize,
            y: self.start_y as isize,
            width: self.width as isize,
            height: self.height as isize,
        }
    }

    pub fn advance(&mut self, delta: u32)
        requires
            old(self).advance_ok(delta),
        ensures
            *final(self) == old(self).spec_advance(delta),
    {
        self.delta = self.delta.wrapping_add(delta);
        if self.delta > self.framerate_per_second {
            self.current_frame += 1;
            self.delta = 0;
        }
        if self.current_frame >= self.frames {
            self.current_frame = 0;
        }
    }

    pub fn get_rect_for(&self) -> (r: [u32; 4])
        requires
            self.frame_x() <= u32::MAX,
        ensures
            r@ == seq![self.frame_x() as u32, self.start_y, self.width, self.height],
    {
        proof {
            vstd::arithmetic::mul::lemma_mul_nonnegative(
                self.width as int,
                self.current_frame as int,
            );
        }
        let x_offset: u32 = self.start_x + self.width * self.current_frame;
        let r = [x_offset, self.start_y, self.width, self.height];
        assert(r@ =~= seq![self.frame_x() as u32, self.start_y, self.width, self.height]);
        r
    }

    pub fn get_rect(&self) -> (r: Rect)
        requires
            self.frame_x() <= u32::MAX,
        ensures
            r == self.spec_rect(),
    {
        let a = self.get_rect_for();
        let x: u32 = a[0];
        let y: u32 = a[1];
        let w: u32 = a[2];
        let h: u32 = a[3];
        Rect::new(x as isize, y as isize, w as isize, h as isize)
    }
}

/// A well formed sprite never overflows while animating, and stays well
/// formed whatever number of ticks passes.
pub proof fn lemma_sprite_advance_keeps_wf(s: SpriteInfo, delta: u32)
    requires
        s.wf(),
    ensures
        s.advance_ok(delta),
        s.spec_advance(delta).wf(),
{
}

/// The current frame of a well formed sprite has a source rectangle whose
/// offset fits in a `u32`.
pub proof fn lemma_sprite_frame_fits(s: SpriteInfo)
    requires
        s.wf(),
    ensures
        0 <= s.frame_x() <= u32::MAX,
{
    assert(s.width * s.current_frame <= s.width * (s.frames - 1)) by (nonlinear_arith)
        requires
            s.current_frame <= s.frames - 1,
            s.width >= 0,
    ;
    assert(s.width * s.current_frame >= 0) by (nonlinear_arith)
        requires
            s.current_frame >= 0,
            s.width >= 0,
    ;
}

} // verus!
