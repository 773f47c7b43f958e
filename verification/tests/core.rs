use std::path::PathBuf;

use mikumikutower::constants::{
    id_to_relative_path, sprite_info_miku, sprite_info_title, TEXTURE_ID_FONTSHEET, TEXTURE_ID_GAMEOVER,
    TEXTURE_ID_LEEKSHEET, TEXTURE_ID_MIKU, TEXTURE_ID_MIKU_WAVE, TEXTURE_ID_PORTRAIT, TEXTURE_ID_TITLE_BG,
};
use mikumikutower::grid_layout::GridLayout;
use mikumikutower::{advance_ready_state, ReadyState, Rect, SpriteInfo};

#[test]
fn ready_state_stays_ready() {
    assert_eq!(advance_ready_state(ReadyState::Ready, 0), ReadyState::Ready);
    assert_eq!(advance_ready_state(ReadyState::Ready, u32::MAX), ReadyState::Ready);
}

#[test]
fn cooldown_counts_then_turns_ready() {
    let s = ReadyState::Cooldown { wait_for: 10, ticks_waited: 3 };
    let s = advance_ready_state(s, 5);
    assert_eq!(s, ReadyState::Cooldown { wait_for: 10, ticks_waited: 8 });
    let s = advance_ready_state(s, 1);
    assert_eq!(s, ReadyState::Cooldown { wait_for: 10, ticks_waited: 9 });
    assert_eq!(advance_ready_state(s, 1), ReadyState::Ready);
}

#[test]
fn cooldown_waiting_saturates() {
    let s = ReadyState::Cooldown { wait_for: u32::MAX, ticks_waited: u32::MAX - 1 };
    assert_eq!(advance_ready_state(s, 5), ReadyState::Ready);
    let s = ReadyState::Cooldown { wait_for: u32::MAX, ticks_waited: 0 };
    assert_eq!(advance_ready_state(s, u32::MAX - 1), ReadyState::Cooldown { wait_for: u32::MAX, ticks_waited: u32::MAX - 1 });
}

#[test]
fn advancing_twice_is_advancing_once_by_the_sum() {
    let s = ReadyState::Cooldown { wait_for: 100, ticks_waited: 0 };
    let twice = advance_ready_state(advance_ready_state(s, 30), 50);
    let once = advance_ready_state(s, 80);
    assert_eq!(twice, once);
    assert_eq!(once, ReadyState::Cooldown { wait_for: 100, ticks_waited: 80 });
    assert_eq!(advance_ready_state(advance_ready_state(s, 60), 50), advance_ready_state(s, 110));
}

#[test]
fn fresh_cooldown_is_ready_exactly_after_its_wait() {
    let s = ReadyState::Cooldown { wait_for: 120, ticks_waited: 0 };
    assert_eq!(advance_ready_state(s, 119), ReadyState::Cooldown { wait_for: 120, ticks_waited: 119 });
    assert_eq!(advance_ready_state(s, 120), ReadyState::Ready);
}

#[test]
fn rect_contains_is_strict() {
    let r = Rect::new(0, 0, 10, 10);
    assert!(r.contains(5, 5));
    assert!(!r.contains(0, 5));
    assert!(!r.contains(10, 5));
    assert!(!r.contains(5, 10));
    assert!(r.contains(9, 1));
}

#[test]
fn rect_center_halves_toward_zero() {
    assert_eq!(Rect::new(2, 4, 10, 6).center(), (7, 7));
    assert_eq!(Rect::new(3, 0, -5, 0).center(), (1, 0));
    assert_eq!(Rect::new(-4, -4, 3, 3).center(), (-3, -3));
}

#[test]
fn grid_without_gap() {
    let g = GridLayout { area: Rect::new(0, 0, 100, 50), rows: 5, columns: 10, cell_gap: 0 };
    assert_eq!(g.cell_size(), (10, 10));
    assert_eq!(g.origin(), (0, 0));
    assert_eq!(g.cell_rect(3, 4), Rect::new(0, 0, 10, 10));
}

#[test]
fn grid_with_gap() {
    let g = GridLayout { area: Rect::new(10, 20, 100, 50), rows: 2, columns: 3, cell_gap: 2 };
    assert_eq!(g.cell_size(), (30, 22));
    assert_eq!(g.origin(), (12, 22));
    assert_eq!(g.cell_rect(1, 2), Rect::new(12, 22, 30, 22));
    let cells = g.iter_cells();
    assert_eq!(
        cells,
        vec![
            (0, 0, Rect::new(12, 22, 30, 22)),
            (0, 1, Rect::new(44, 22, 30, 22)),
            (0, 2, Rect::new(76, 22, 30, 22)),
            (1, 0, Rect::new(12, 46, 30, 22)),
            (1, 1, Rect::new(44, 46, 30, 22)),
            (1, 2, Rect::new(76, 46, 30, 22)),
        ]
    );
}

#[test]
fn grid_too_small_for_its_gaps_has_empty_cells() {
    let g = GridLayout { area: Rect::new(0, 0, 3, 3), rows: 2, columns: 2, cell_gap: 4 };
    assert_eq!(g.cell_size(), (0, 0));
    assert_eq!(g.origin(), (4, 4));
}

#[test]
fn pointer_over_grid_cells() {
    let g = GridLayout { area: Rect::new(10, 20, 100, 50), rows: 2, columns: 3, cell_gap: 2 };
    assert_eq!(g.cell_for_mouse(Some((45, 47))), Some((1, 1, Rect::new(44, 46, 30, 22))));
    assert_eq!(g.cell_for_mouse(Some((12, 22))), Some((0, 0, Rect::new(12, 22, 30, 22))));
    assert_eq!(g.cell_for_mouse(Some((43, 47))), None);
    assert_eq!(g.cell_for_mouse(Some((42, 22))), None);
    assert_eq!(g.cell_for_mouse(Some((0, 0))), None);
    assert_eq!(g.cell_for_mouse(None), None);
}

#[test]
fn sprite_animation_moves_on_and_loops() {
    let mut s = sprite_info_miku();
    s.advance(5);
    assert_eq!(s.current_frame, 0);
    assert_eq!(s.delta, 5);
    s.advance(6);
    assert_eq!(s.current_frame, 1);
    assert_eq!(s.delta, 0);
    assert_eq!(s.get_rect(), Rect::new(71, 0, 71, 54));
    assert_eq!(s.get_rect_for(), [71, 0, 71, 54]);
    let mut last = SpriteInfo { current_frame: 5, ..sprite_info_miku() };
    last.advance(11);
    assert_eq!(last.current_frame, 0);
    assert_eq!(last.get_rect(), Rect::new(0, 0, 71, 54));
}

#[test]
fn sprite_delta_wraps() {
    let mut s = SpriteInfo { delta: u32::MAX, framerate_per_second: u32::MAX, ..sprite_info_miku() };
    s.advance(2);
    assert_eq!(s.delta, 1);
    assert_eq!(s.current_frame, 0);
}

#[test]
fn title_background_covers_the_screen() {
    let s = sprite_info_title();
    assert_eq!(s.get_rect(), Rect::new(0, 0, 1280, 720));
}

#[test]
fn texture_paths() {
    assert_eq!(id_to_relative_path(TEXTURE_ID_LEEKSHEET), PathBuf::from("made-by-me").join("leek-bg1-bg2.png"));
    assert_eq!(id_to_relative_path(TEXTURE_ID_MIKU), PathBuf::from("dance.png"));
    assert_eq!(
        id_to_relative_path(TEXTURE_ID_FONTSHEET),
        PathBuf::from("webfontkit-BoldPixels").join("BoldPixels-edit.png")
    );
    assert_eq!(id_to_relative_path(TEXTURE_ID_GAMEOVER), PathBuf::from("made-by-me").join("GameOver.png"));
    assert_eq!(id_to_relative_path(TEXTURE_ID_PORTRAIT), PathBuf::from("chaim-vester").join("portraits-spritesheet.png"));
    assert_eq!(id_to_relative_path(TEXTURE_ID_MIKU_WAVE), PathBuf::from("made-by-me").join("miku-wave.png"));
    assert_eq!(id_to_relative_path(TEXTURE_ID_TITLE_BG), PathBuf::new());
    assert_eq!(id_to_relative_path(99), PathBuf::new());
}
