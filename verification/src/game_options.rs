//! Options the game starts with.
use vstd::prelude::*;

verus! {

pub struct GameOptions {
    pub name: String,
    pub window_width: u32,
    pub window_height: u32,
}

impl Default for GameOptions {
    fn default() -> (o: GameOptions)
        ensures
            o.name@ == "Miku Miku Tower"@,
            o.window_width == 1280,
            o.window_height == 720,
    {
        GameOptions { name: "Miku Miku Tower".to_owned(), window_width: 1280, window_height: 720 }
    }
}

} // verus!
