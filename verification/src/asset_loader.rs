//! Loading of sprite sheets.
use vstd::prelude::*;

use crate::constants::TextureId;

verus! {

/// Something that makes sure a sprite sheet is loaded before it is drawn.
pub trait AssetLoader {
    fn ensure_texture_spritesheet_loaded(&mut self, sheet_id: usize);
}

/// An asset loader that records which sheets were asked for; the backend
/// loads them.
pub struct TextureRequests {
    pub requested: Vec<TextureId>,
}

impl TextureRequests {
    pub fn new() -> (t: TextureRequests)
        ensures
            t.requested@ == Seq::<TextureId>::empty(),
    {
        TextureRequests { requested: Vec::new() }
    }

    /// Hands out the requested sheets, oldest first, and forgets them.
    pub fn take_requests(&mut self) -> (ids: Vec<TextureId>)
        ensures
            ids@ == old(self).requested@,
            final(self).requested@ == Seq::<TextureId>::empty(),
    {
        let mut ids: Vec<TextureId> = Vec::new();
        std::mem::swap(&mut ids, &mut self.requested);
        ids
    }
}

impl AssetLoader for TextureRequests {
    fn ensure_texture_spritesheet_loaded(&mut self, sheet_id: usize)
        ensures
            final(self).requested@ == old(self).requested@.push(sheet_id),
    {
        self.requested.push(sheet_id);
    }
}

} // verus!
