//! Sound effects and music.
use vstd::prelude::*;

use std::time::Duration;

use crate::constants::{MusicId, SfxId};
use crate::game_options::GameOptions;

verus! {

/// Why an audio request failed, in words.
#[derive(Debug)]
pub struct AudioError {
    pub message: String,
}

pub type AudioResult<T> = Result<T, AudioError>;

/// What a backend's audio offers.  Loading the same piece twice loads it
/// once.
pub trait Audio {
    fn play_sfx(&mut self, id: SfxId) -> AudioResult<()>;

    fn load_sfx(&mut self, id: SfxId) -> AudioResult<()>;

    fn play_music(&mut self, id: MusicId) -> AudioResult<()>;

    fn load_music(&mut self, id: MusicId) -> AudioResult<()>;

    fn load_bg_music(&mut self) -> Vec<AudioResult<MusicId>>;

    fn music_duration_seconds(&self, id: MusicId) -> AudioResult<Duration>;

    fn prepare(&mut self) -> Vec<AudioResult<()>>;
}

/// One request of a scene to the audio.
#[derive(Debug, Clone, Copy, PartialEq, Eq, Structural)]
pub enum AudioCommand {
    PlaySfx(SfxId),
    LoadSfx(SfxId),
    PlayMusic(MusicId),
    LoadMusic(MusicId),
    Prepare,
}

/// Audio that records what it was asked; the backend performs the requests
/// in order.  The scenes go on whatever the outcome, so none is reported.
pub struct AudioRequests {
    pub commands: Vec<AudioCommand>,
}

impl AudioRequests {
    pub fn new() -> (a: AudioRequests)
        ensures
            a.commands@ == Seq::<AudioCommand>::empty(),
    {
        AudioRequests { commands: Vec::new() }
    }

    pub fn play_sfx(&mut self, id: SfxId)
        ensures
            final(self).commands@ == old(self).commands@.push(AudioCommand::PlaySfx(id)),
    {
        self.commands.push(AudioCommand::PlaySfx(id));
    }

    pub fn load_sfx(&mut self, id: SfxId)
        ensures
            final(self).commands@ == old(self).commands@.push(AudioCommand::LoadSfx(id)),
    {
        self.commands.push(AudioCommand::LoadSfx(id));
    }

    pub fn play_music(&mut self, id: MusicId)
        ensures
            final(self).commands@ == old(self).commands@.push(AudioCommand::PlayMusic(id)),
    {
        self.commands.push(AudioCommand::PlayMusic(id));
    }

    pub fn load_music(&mut self, id: MusicId)
        ensures
            final(self).commands@ == old(self).commands@.push(AudioCommand::LoadMusic(id)),
    {
        self.commands.push(AudioCommand::LoadMusic(id));
    }

    pub fn prepare(&mut self)
        ensures
            final(self).commands@ == old(self).commands@.push(AudioCommand::Prepare),
    {
        self.commands.push(AudioCommand::Prepare);
    }

    /// Hands out the recorded requests, oldest first, and forgets them.
    pub fn take_commands(&mut self) -> (cmds: Vec<AudioCommand>)
        ensures
            cmds@ == old(self).commands@,
            final(self).commands@ == Seq::<AudioCommand>::empty(),
    {
        let mut cmds: Vec<AudioCommand> = Vec::new();
        std::mem::swap(&mut cmds, &mut self.commands);
        cmds
    }
}

/// The duration of `millis` milliseconds.
pub uninterp spec fn duration_of_millis(millis: u64) -> Duration;

/// Calls `Duration::from_millis`, documented to make a duration of that many
/// milliseconds.  The contract names the result after its argument and
/// says nothing more of it.
#[verifier::external_body]
fn duration_from_millis(millis: u64) -> (d: Duration)
    ensures
        d == duration_of_millis(millis),
{
    Duration::from_millis(millis)
}

/// The audio of the browser backend, which plays nothing: every request
/// succeeds at once.
pub struct WasmSounds {}

impl WasmSounds {
    pub fn new(_game_options: &GameOptions) -> (s: WasmSounds) {
        WasmSounds {}
    }
}

impl Audio for WasmSounds {
    fn play_sfx(&mut self, _id: SfxId) -> (r: AudioResult<()>)
        ensures
            r is Ok,
    {
        Ok(())
    }

    fn load_sfx(&mut self, _id: SfxId) -> (r: AudioResult<()>)
        ensures
            r is Ok,
    {
        Ok(())
    }

    fn play_music(&mut self, _id: MusicId) -> (r: AudioResult<()>)
        ensures
            r is Ok,
    {
        Ok(())
    }

    fn load_music(&mut self, _id: MusicId) -> (r: AudioResult<()>)
        ensures
            r is Ok,
    {
        Ok(())
    }

    fn load_bg_music(&mut self) -> (ids: Vec<AudioResult<MusicId>>)
        ensures
            ids@.len() == 0,
    {
        Vec::new()
    }

    fn music_duration_seconds(&self, _id: MusicId) -> (r: AudioResult<Duration>)
        ensures
            r == Ok::<Duration, AudioError>(duration_of_millis(0)),
    {
        Ok(duration_from_millis(0))
    }

    fn prepare(&mut self) -> (failures: Vec<AudioResult<()>>)
        ensures
            failures@.len() == 0,
    {
        Vec::new()
    }
}

} // verus!
