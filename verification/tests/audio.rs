use std::time::Duration;

use mikumikutower::audio::{Audio, AudioCommand, AudioRequests, WasmSounds};
use mikumikutower::constants::{MusicId, SfxId};
use mikumikutower::game_options::GameOptions;
use mikumikutower::renderer::{RenderCommand, RendererWasm};
use mikumikutower::sound_pool::{
    bytes_per_sample, choose_stream, plan_buckets, total_samples, LoadedSound, SampleFormat, SfxPlay, SoundBank,
    SpecKey,
};

const A: SpecKey = SpecKey { freq: 44100, channels: 2, format: SampleFormat::S16LE };
const B: SpecKey = SpecKey { freq: 22050, channels: 1, format: SampleFormat::U8 };
const C: SpecKey = SpecKey { freq: 48000, channels: 2, format: SampleFormat::F32LE };

#[test]
fn browser_audio_accepts_everything() {
    let mut s = WasmSounds::new(&GameOptions::default());
    assert!(s.play_sfx(SfxId(0)).is_ok());
    assert!(s.load_sfx(SfxId(0)).is_ok());
    assert!(s.play_music(MusicId(1)).is_ok());
    assert!(s.load_music(MusicId(1)).is_ok());
    assert!(s.load_bg_music().is_empty());
    assert_eq!(s.music_duration_seconds(MusicId(1)).unwrap(), Duration::from_millis(0));
    assert!(s.prepare().is_empty());
}

#[test]
fn recorded_audio_keeps_the_order() {
    let mut a = AudioRequests::new();
    a.load_sfx(SfxId(1));
    a.play_sfx(SfxId(1));
    a.load_music(MusicId(2));
    a.play_music(MusicId(2));
    a.prepare();
    assert_eq!(
        a.take_commands(),
        vec![
            AudioCommand::LoadSfx(SfxId(1)),
            AudioCommand::PlaySfx(SfxId(1)),
            AudioCommand::LoadMusic(MusicId(2)),
            AudioCommand::PlayMusic(MusicId(2)),
            AudioCommand::Prepare,
        ]
    );
    assert!(a.commands.is_empty());
}

#[test]
fn samples_in_a_buffer() {
    assert_eq!(bytes_per_sample(SampleFormat::U8), 1);
    assert_eq!(bytes_per_sample(SampleFormat::S16BE), 2);
    assert_eq!(bytes_per_sample(SampleFormat::F32BE), 4);
    assert_eq!(bytes_per_sample(SampleFormat::Other), 2);
    assert_eq!(total_samples(SampleFormat::S16LE, 44100 * 4, 2), 44100);
    assert_eq!(total_samples(SampleFormat::S32LE, 10, 1), 2);
    assert_eq!(total_samples(SampleFormat::U8, 7, 3), 2);
}

#[test]
fn the_first_free_stream_or_the_one_that_frees_up_soonest() {
    assert_eq!(choose_stream(&vec![Some(50), None, Some(10)], 20), Some(1));
    assert_eq!(choose_stream(&vec![Some(50), Some(10)], 20), Some(1));
    assert_eq!(choose_stream(&vec![Some(50), Some(30), Some(30)], 20), Some(1));
    assert_eq!(choose_stream(&vec![Some(5)], 5), Some(0));
    assert_eq!(choose_stream(&vec![], 5), None);
}

#[test]
fn bucket_plan_keeps_used_formats_and_adds_missing_ones_once() {
    let plan = plan_buckets(&vec![A, B], &vec![B, C, C]);
    assert_eq!(plan.keep, vec![false, true]);
    assert_eq!(plan.create, vec![C]);
    let plan = plan_buckets(&vec![], &vec![A, B, A]);
    assert_eq!(plan.keep, Vec::<bool>::new());
    assert_eq!(plan.create, vec![A, B]);
}

#[test]
fn the_sound_bank_plays_effects_on_free_streams() {
    let mut bank = SoundBank::new(2);
    assert!(!bank.sfx_loaded(SfxId(1)));
    bank.add_sfx(LoadedSound { id: SfxId(1), spec: A, duration_ns: 100 });
    assert!(bank.sfx_loaded(SfxId(1)));
    assert_eq!(bank.play_sfx(SfxId(1), 0), SfxPlay::NoBucket(A));
    assert_eq!(bank.play_sfx(SfxId(9), 0), SfxPlay::NotLoaded);
    let plan = bank.plan_prepare();
    assert_eq!(plan.create, vec![A]);
    bank.retain_buckets(&plan.keep);
    bank.add_bucket(A, bank.pool_size);
    assert_eq!(bank.play_sfx(SfxId(1), 0), SfxPlay::Play { bucket: 0, stream: 0 });
    assert_eq!(bank.buckets[0].free_at, vec![None, None]);
    assert!(bank.mark_busy(0, 0, 100, 0));
    assert_eq!(bank.buckets[0].free_at, vec![Some(100), None]);
    assert_eq!(bank.play_sfx(SfxId(1), 50), SfxPlay::Play { bucket: 0, stream: 1 });
    assert!(bank.mark_busy(0, 1, 100, 50));
    assert_eq!(bank.play_sfx(SfxId(1), 60), SfxPlay::Play { bucket: 0, stream: 0 });
    assert!(bank.mark_busy(0, 0, 100, 60));
    assert_eq!(bank.buckets[0].free_at, vec![Some(160), Some(150)]);
    assert_eq!(bank.play_sfx(SfxId(1), 150), SfxPlay::Play { bucket: 0, stream: 1 });
    assert!(!bank.mark_busy(0, 2, 100, 150));
    assert!(!bank.mark_busy(1, 0, 100, 150));
    assert!(bank.mark_busy(0, 1, u128::MAX, 150));
    assert_eq!(bank.buckets[0].free_at, vec![Some(160), Some(u128::MAX)]);
}

#[test]
fn the_sound_bank_without_streams_and_with_unused_buckets() {
    let mut bank = SoundBank::new(0);
    bank.add_sfx(LoadedSound { id: SfxId(2), spec: B, duration_ns: 10 });
    bank.add_bucket(C, 1);
    bank.add_bucket(B, 0);
    assert_eq!(bank.play_sfx(SfxId(2), 0), SfxPlay::NoStream);
    let plan = bank.plan_prepare();
    assert_eq!(plan.keep, vec![false, true]);
    assert!(plan.create.is_empty());
    bank.retain_buckets(&plan.keep);
    assert_eq!(bank.buckets.len(), 1);
    assert_eq!(bank.buckets[0].spec, B);
    assert!(!bank.music_loaded(MusicId(5)));
    bank.add_music(MusicId(5));
    assert!(bank.music_loaded(MusicId(5)));
}

#[test]
fn background_music_is_recorded_once() {
    let mut bank = SoundBank::new(1);
    assert!(!bank.record_bg_music(MusicId(7), false));
    assert!(bank.music.is_empty());
    assert!(!bank.record_bg_music(MusicId(7), true));
    assert_eq!(bank.music, vec![MusicId(7)]);
    assert!(bank.record_bg_music(MusicId(7), true));
    assert_eq!(bank.music, vec![MusicId(7)]);
    assert!(bank.record_bg_music(MusicId(7), false));
    assert_eq!(bank.music, vec![MusicId(7)]);
}

#[test]
fn the_browser_renderer_lets_its_commands_go() {
    let mut r = RendererWasm::new();
    assert_eq!(r.name(), "WASM Renderer");
    r.send_command(RenderCommand::Present);
    r.send_command(RenderCommand::Clear { r: 1, g: 2, b: 3, a: 4 });
    assert_eq!(r.commands.len(), 2);
    r.present();
    assert!(r.commands.is_empty());
}
