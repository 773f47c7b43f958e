//! Identifiers of the game's assets, where they live below the asset
//! folder, and the sprites cut from the sprite sheets.
use vstd::prelude::*;

use std::path::PathBuf;

use crate::SpriteInfo;

verus! {

/// Identifies a sprite sheet texture.
pub type TextureId = usize;

pub const TEXTURE_ID_MIKU: usize = 0;

pub const TEXTURE_ID_PORTRAIT: usize = 1;

pub const TEXTURE_ID_LEEKSHEET: usize = 2;

pub const TEXTURE_ID_FONTSHEET: usize = 3;

pub const TEXTURE_ID_GAMEOVER: usize = 4;

pub const TEXTURE_ID_MIKU_WAVE: usize = 5;

pub const TEXTURE_ID_TITLE_BG: usize = 6;

/// Identifies a piece of music.  Background music found on disk is numbered
/// by its file name; the game's own pieces use numbers above those.
#[derive(Debug, Clone, Copy, PartialEq, Eq, Hash, Structural)]
pub struct MusicId(pub usize);

/// Identifies a sound effect.
#[derive(Debug, Clone, Copy, PartialEq, Eq, Hash, Structural)]
pub struct SfxId(pub usize);

/// Numbers of the game's own music, to be wrapped in a `MusicId`.
pub const MUSIC_ID_MOON: usize = 1000;

pub const MUSIC_ID_TETO: usize = 1001;

pub const MUSIC_ID_PACHEBAL: usize = 1002;

/// Numbers of the sound effects, to be wrapped in an `SfxId`.
pub const SFX_ID_BLIP: usize = 0;

pub const SFX_ID_MEME: usize = 1;

#[verifier::external_type_specification]
#[verifier::external_body]
pub struct ExPathBuf(std::path::PathBuf);

/// The components of a path, in order, each as the characters that
/// `Path::components` yields for it.
pub uninterp spec fn path_components(p: PathBuf) -> Seq<Seq<char>>;

/// A single relative path component: not empty, no separator or drive
/// letter in it, and neither `.` nor `..`.
pub open spec fn is_plain_component(s: Seq<char>) -> bool {
    &&& s.len() > 0
    &&& no_separator(s)
    &&& s != seq!['.']
    &&& s != seq!['.', '.']
}

/// No character of `s` separates path components or names a drive.
pub open spec fn no_separator(s: Seq<char>) -> bool
    decreases s.len(),
{
    s.len() == 0 || (s[0] != '/' && s[0] != '\\' && s[0] != ':' && no_separator(s.drop_first()))
}

/// Calls `PathBuf::new`, which gives the empty path: it has no components.
#[verifier::external_body]
fn path_new() -> (p: PathBuf)
    ensures
        path_components(p) == Seq::<Seq<char>>::empty(),
{
    PathBuf::new()
}

/// Calls `Path::join` with a relative single component, which `push`
/// appends after a separator: the result has that component after the
/// components of `p`.
#[verifier::external_body]
fn path_join(p: &PathBuf, part: &str) -> (q: PathBuf)
    requires
        is_plain_component(part@),
    ensures
        path_components(q) == path_components(*p).push(part@),
{
    p.join(part)
}

/// A path built from plain components.
fn path_of(parts: &[&str]) -> (p: PathBuf)
    requires
        forall|i: int| 0 <= i < parts@.len() ==> is_plain_component(#[trigger] parts@[i]@),
    ensures
        path_components(p) == parts@.map_values(|s: &str| s@),
{
    let mut p = path_new();
    let mut i: usize = 0;
    while i < parts.len()
        invariant
            i <= parts@.len(),
            forall|j: int| 0 <= j < parts@.len() ==> is_plain_component(#[trigger] parts@[j]@),
            path_components(p) == parts@.take(i as int).map_values(|s: &str| s@),
        decreases parts@.len() - i,
    {
        p = path_join(&p, parts[i]);
        proof {
            assert(parts@.take(i + 1).map_values(|s: &str| s@) =~= parts@.take(i as int).map_values(
                |s: &str| s@,
            ).push(parts@[i as int]@));
        }
        i = i + 1;
    }
    proof {
        assert(parts@.take(parts@.len() as int) =~= parts@);
    }
    p
}

/// Where each texture's sheet lives below the asset folder; the empty path
/// for any other id, the title background's among them.
pub open spec fn spec_texture_path(id: usize) -> Seq<Seq<char>> {
    if id == TEXTURE_ID_LEEKSHEET {
        seq!["made-by-me"@, "leek-bg1-bg2.png"@]
    } else if id == TEXTURE_ID_GAMEOVER {
        seq!["made-by-me"@, "GameOver.png"@]
    } else if id == TEXTURE_ID_PORTRAIT {
        seq!["chaim-vester"@, "portraits-spritesheet.png"@]
    } else if id == TEXTURE_ID_MIKU {
        seq!["dance.png"@]
    } else if id == TEXTURE_ID_FONTSHEET {
        seq!["webfontkit-BoldPixels"@, "BoldPixels-edit.png"@]
    } else if id == TEXTURE_ID_MIKU_WAVE {
        seq!["made-by-me"@, "miku-wave.png"@]
    } else {
        Seq::empty()
    }
}

/// The path of a texture's sheet relative to the asset folder; the empty
/// path for an unknown id.
pub fn id_to_relative_path(id: usize) -> (p: PathBuf)
    ensures
        path_components(p) == spec_texture_path(id),
{
    proof {
        reveal_strlit("made-by-me");
        reveal_strlit("leek-bg1-bg2.png");
        reveal_strlit("GameOver.png");
        reveal_strlit("chaim-vester");
        reveal_strlit("portraits-spritesheet.png");
        reveal_strlit("dance.png");
        reveal_strlit("webfontkit-BoldPixels");
        reveal_strlit("BoldPixels-edit.png");
        reveal_strlit("miku-wave.png");
    }
    let parts: &[&str] = if id == TEXTURE_ID_LEEKSHEET {
        &["made-by-me", "leek-bg1-bg2.png"]
    } else if id == TEXTURE_ID_GAMEOVER {
        &["made-by-me", "GameOver.png"]
    } else if id == TEXTURE_ID_PORTRAIT {
        &["chaim-vester", "portraits-spritesheet.png"]
    } else if id == TEXTURE_ID_MIKU {
        &["dance.png"]
    } else if id == TEXTURE_ID_FONTSHEET {
        &["webfontkit-BoldPixels", "BoldPixels-edit.png"]
    } else if id == TEXTURE_ID_MIKU_WAVE {
        &["made-by-me", "miku-wave.png"]
    } else {
        &[]
    };
    assert(parts@.map_values(|s: &str| s@) =~= spec_texture_path(id));
    proof {
        reveal_with_fuel(no_separator, 30);
        assert(forall|i: int| 0 <= i < parts@.len() ==> is_plain_component(#[trigger] parts@[i]@));
    }
    path_of(parts)
}

/// The sprite of the plain leek tile, on its first frame.
pub fn sprite_info_leek() -> (s: SpriteInfo)
    ensures
        s == (SpriteInfo { start_x: 0, start_y: 0, width: 32, height: 32, frames: 1, current_frame: 0, framerate_per_second: 60, delta: 0 }),
        s.wf(),
{
    SpriteInfo { start_x: 0, start_y: 0, width: 32, height: 32, frames: 1, current_frame: 0, framerate_per_second: 60, delta: 0 }
}

/// The sprite of the grass tile, on its first frame.
pub fn sprite_info_grass() -> (s: SpriteInfo)
    ensures
        s == (SpriteInfo { start_x: 64, start_y: 0, width: 32, height: 32, frames: 1, current_frame: 0, framerate_per_second: 60, delta: 0 }),
        s.wf(),
{
    SpriteInfo { start_x: 64, start_y: 0, width: 32, height: 32, frames: 1, current_frame: 0, framerate_per_second: 60, delta: 0 }
}

/// The sprite of the road tile, on its first frame.
pub fn sprite_info_road() -> (s: SpriteInfo)
    ensures
        s == (SpriteInfo { start_x: 32, start_y: 0, width: 32, height: 32, frames: 1, current_frame: 0, framerate_per_second: 60, delta: 0 }),
        s.wf(),
{
    SpriteInfo { start_x: 32, start_y: 0, width: 32, height: 32, frames: 1, current_frame: 0, framerate_per_second: 60, delta: 0 }
}

/// The sprite of dancing Miku, on its first frame.
pub fn sprite_info_miku() -> (s: SpriteInfo)
    ensures
        s == (SpriteInfo { start_x: 0, start_y: 0, width: 71, height: 54, frames: 6, current_frame: 0, framerate_per_second: 10, delta: 0 }),
        s.wf(),
{
    SpriteInfo { start_x: 0, start_y: 0, width: 71, height: 54, frames: 6, current_frame: 0, framerate_per_second: 10, delta: 0 }
}

/// The sprite of the pulsing cell highlight, on its first frame.
pub fn sprite_info_highlight() -> (s: SpriteInfo)
    ensures
        s == (SpriteInfo { start_x: 96, start_y: 0, width: 32, height: 32, frames: 4, current_frame: 0, framerate_per_second: 4, delta: 0 }),
        s.wf(),
{
    SpriteInfo { start_x: 96, start_y: 0, width: 32, height: 32, frames: 4, current_frame: 0, framerate_per_second: 4, delta: 0 }
}

/// The sprite of the Miku tower, on its first frame.
pub fn sprite_info_miku_tower() -> (s: SpriteInfo)
    ensures
        s == (SpriteInfo { start_x: 224, start_y: 0, width: 32, height: 32, frames: 2, current_frame: 0, framerate_per_second: 8, delta: 0 }),
        s.wf(),
{
    SpriteInfo { start_x: 224, start_y: 0, width: 32, height: 32, frames: 2, current_frame: 0, framerate_per_second: 8, delta: 0 }
}

/// The sprite of the Rin tower, on its first frame.
pub fn sprite_info_rin_tower() -> (s: SpriteInfo)
    ensures
        s == (SpriteInfo { start_x: 288, start_y: 0, width: 32, height: 32, frames: 2, current_frame: 0, framerate_per_second: 4, delta: 0 }),
        s.wf(),
{
    SpriteInfo { start_x: 288, start_y: 0, width: 32, height: 32, frames: 2, current_frame: 0, framerate_per_second: 4, delta: 0 }
}

/// The sprite of the Luka tower, on its first frame.
pub fn sprite_info_luka_tower() -> (s: SpriteInfo)
    ensures
        s == (SpriteInfo { start_x: 352, start_y: 0, width: 32, height: 32, frames: 2, current_frame: 0, framerate_per_second: 16, delta: 0 }),
        s.wf(),
{
    SpriteInfo { start_x: 352, start_y: 0, width: 32, height: 32, frames: 2, current_frame: 0, framerate_per_second: 16, delta: 0 }
}

/// The sprite of Teto standing, on its first frame.
pub fn sprite_info_teto() -> (s: SpriteInfo)
    ensures
        s == (SpriteInfo { start_x: 416, start_y: 0, width: 32, height: 32, frames: 1, current_frame: 0, framerate_per_second: 16, delta: 0 }),
        s.wf(),
{
    SpriteInfo { start_x: 416, start_y: 0, width: 32, height: 32, frames: 1, current_frame: 0, framerate_per_second: 16, delta: 0 }
}

/// The sprite of Teto walking, on its first frame.
pub fn sprite_info_teto_walking() -> (s: SpriteInfo)
    ensures
        s == (SpriteInfo { start_x: 448, start_y: 0, width: 32, height: 32, frames: 2, current_frame: 0, framerate_per_second: 16, delta: 0 }),
        s.wf(),
{
    SpriteInfo { start_x: 448, start_y: 0, width: 32, height: 32, frames: 2, current_frame: 0, framerate_per_second: 16, delta: 0 }
}

/// The sprite of an energy shot, on its first frame.
pub fn sprite_info_energy() -> (s: SpriteInfo)
    ensures
        s == (SpriteInfo { start_x: 512, start_y: 0, width: 32, height: 32, frames: 1, current_frame: 0, framerate_per_second: 60, delta: 0 }),
        s.wf(),
{
    SpriteInfo { start_x: 512, start_y: 0, width: 32, height: 32, frames: 1, current_frame: 0, framerate_per_second: 60, delta: 0 }
}

/// The sprite of the menu background tile, on its first frame.
pub fn sprite_info_topbar_bg() -> (s: SpriteInfo)
    ensures
        s == (SpriteInfo { start_x: 544, start_y: 0, width: 32, height: 32, frames: 1, current_frame: 0, framerate_per_second: 60, delta: 0 }),
        s.wf(),
{
    SpriteInfo { start_x: 544, start_y: 0, width: 32, height: 32, frames: 1, current_frame: 0, framerate_per_second: 60, delta: 0 }
}

/// The sprite of Miku on the game over screen, on its first frame.
pub fn sprite_info_gameover_miku() -> (s: SpriteInfo)
    ensures
        s == (SpriteInfo { start_x: 0, start_y: 0, width: 480, height: 320, frames: 3, current_frame: 0, framerate_per_second: 60, delta: 0 }),
        s.wf(),
{
    SpriteInfo { start_x: 0, start_y: 0, width: 480, height: 320, frames: 3, current_frame: 0, framerate_per_second: 60, delta: 0 }
}

/// The sprite of the portrait strip, on its first frame.
pub fn sprite_info_portrait() -> (s: SpriteInfo)
    ensures
        s == (SpriteInfo { start_x: 0, start_y: 0, width: 2478, height: 402, frames: 1, current_frame: 0, framerate_per_second: 60, delta: 0 }),
        s.wf(),
{
    SpriteInfo { start_x: 0, start_y: 0, width: 2478, height: 402, frames: 1, current_frame: 0, framerate_per_second: 60, delta: 0 }
}

/// The sprite of Miku waving goodbye, on its first frame.
pub fn sprite_info_miku_wave() -> (s: SpriteInfo)
    ensures
        s == (SpriteInfo { start_x: 0, start_y: 0, width: 320, height: 320, frames: 2, current_frame: 0, framerate_per_second: 30, delta: 0 }),
        s.wf(),
{
    SpriteInfo { start_x: 0, start_y: 0, width: 320, height: 320, frames: 2, current_frame: 0, framerate_per_second: 30, delta: 0 }
}

/// The sprite of the title screen background, on its first frame.
pub fn sprite_info_title() -> (s: SpriteInfo)
    ensures
        s == (SpriteInfo { start_x: 0, start_y: 0, width: 1280, height: 720, frames: 1, current_frame: 0, framerate_per_second: 60, delta: 0 }),
        s.wf(),
{
    SpriteInfo { start_x: 0, start_y: 0, width: 1280, height: 720, frames: 1, current_frame: 0, framerate_per_second: 60, delta: 0 }
}

} // verus!
