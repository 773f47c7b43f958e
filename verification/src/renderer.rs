//! What a scene asks a renderer to draw.
use vstd::prelude::*;

use crate::constants::TextureId;
use crate::Rect;

verus! {

/// One drawing request: copy `source` from a texture to `destination` on
/// the screen; fill the screen with a color, given as 8 bit sRGB channels
/// and alpha; or show the frame drawn so far.
#[derive(Debug, Clone, Copy, PartialEq, Eq, Structural)]
pub enum RenderCommand {
    DrawRect { texture_id: TextureId, source: Rect, destination: Rect },
    Clear { r: u8, g: u8, b: u8, a: u8 },
    Present,
}

/// Clearing the screen to opaque black.
pub open spec fn clear_black() -> RenderCommand {
    RenderCommand::Clear { r: 0, g: 0, b: 0, a: 255 }
}

/// The draw command of a texture rectangle.
pub open spec fn draw_rect(texture_id: TextureId, source: Rect, destination: Rect) -> RenderCommand {
    RenderCommand::DrawRect { texture_id, source, destination }
}

/// A renderer that queues the commands sent to it; the backend draws them
/// in order when it presents the frame.
pub struct RenderQueue {
    pub commands: Vec<RenderCommand>,
}

impl RenderQueue {
    pub fn new() -> (q: RenderQueue)
        ensures
            q.commands@ == Seq::<RenderCommand>::empty(),
    {
        RenderQueue { commands: Vec::new() }
    }

    pub fn send_command(&mut self, cmd: RenderCommand)
        ensures
            final(self).commands@ == old(self).commands@.push(cmd),
    {
        self.commands.push(cmd);
    }

    /// Hands out the queued commands, oldest first, and empties the queue.
    pub fn take_commands(&mut self) -> (cmds: Vec<RenderCommand>)
        ensures
            cmds@ == old(self).commands@,
            final(self).commands@ == Seq::<RenderCommand>::empty(),
    {
        let mut cmds: Vec<RenderCommand> = Vec::new();
        std::mem::swap(&mut cmds, &mut self.commands);
        cmds
    }
}

/// The browser's renderer, which draws nothing yet: presenting a frame
/// only lets its commands go.
pub struct RendererWasm {
    pub commands: Vec<RenderCommand>,
}

impl RendererWasm {
    pub fn new() -> (r: RendererWasm)
        ensures
            r.commands@ == Seq::<RenderCommand>::empty(),
    {
        RendererWasm { commands: Vec::new() }
    }

    pub fn name(&self) -> (n: String)
        ensures
            n@ == "WASM Renderer"@,
    {
        "WASM Renderer".to_owned()
    }

    pub fn send_command(&mut self, cmd: RenderCommand)
        ensures
            final(self).commands@ == old(self).commands@.push(cmd),
    {
        self.commands.push(cmd);
    }

    /// Lets the queued commands go: none has an effect yet.
    pub fn process_commands(&mut self)
        ensures
            final(self).commands@ == Seq::<RenderCommand>::empty(),
    {
        self.commands.clear();
    }

    /// Shows the frame: its commands are processed.
    pub fn present(&mut self)
        ensures
            final(self).commands@ == Seq::<RenderCommand>::empty(),
    {
        self.process_commands();
    }
}

} // verus!
