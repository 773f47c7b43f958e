# mikumikutower

The rules of a small tower defense game, verified with Verus, and the
desktop program around them.

- `src/` is the verified library: timers and sprite animation (`lib.rs`),
  grid geometry (`grid_layout.rs`), the bitmap font (`font.rs`), sprite
  sheets and asset paths (`constants.rs`), the scenes (`scene/`: title,
  level, game over, goodbye and a sprite test scene, with the buttons they
  share), the game loop's fixed rate updates and frame schedule (`game.rs`),
  the sound effect pool of the desktop backend (`sound_pool.rs`), and the
  reading of the music folder (`music_files.rs`).  Scenes do not talk to a
  backend directly: they record the sprite sheets, sounds and draw commands
  they ask for (`asset_loader.rs`, `audio.rs`, `renderer.rs`), and the
  backend performs them.
- `app/` is the SDL3 program: window, textures, audio streams and mixer,
  input events, the clock, and the floating point parts (colors, the flight
  of a shot, the length of a sound).  A browser backend sits beside it.
- `tests/` runs the library on concrete values.
