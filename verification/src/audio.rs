//! The audio collaborator's command vocabulary and settings rules.
//!
//! Audio rendering happens outside this crate, behind a fire-and-forget
//! command channel, so a slow or failing backend can never stall
//! ingestion.  What is decided here — and verified — is which command a
//! situation calls for, which file each effect plays, and how the stored
//! volume percentages combine.

use vstd::prelude::*;

verus! {

/// The fixed set of sound effects the game can trigger.
#[derive(Clone, Copy, PartialEq, Eq, Structural, Debug)]
pub enum SoundEffect {
    GameStart,
    GameOver,
    LaserBroken,
    Buzzer,
}

/// One fire-and-forget command for the audio collaborator.
#[derive(Clone, Copy, PartialEq, Eq, Structural, Debug)]
pub enum AudioCommand {
    /// Play one effect once.
    PlayEffect(SoundEffect),
    /// Start the ambient loop.
    StartBackgroundMusic,
    /// Pause the ambient loop.
    StopBackgroundMusic,
    /// Replace the stored audio settings; volumes are percentages.
    UpdateSettings { master_volume: u8, effect_volume: u8, ambient_enabled: bool, effects_enabled: bool },
    /// Stop all audio and shut the collaborator down.
    Stop,
}

/// The audio collaborator's stored settings.  Volumes are percentages
/// (0–100); the backend converts them to its own unit scale.
pub struct AudioSettings {
    pub master_volume: u8,
    pub effect_volume: u8,
    pub ambient_enabled: bool,
    pub effects_enabled: bool,
}

/// The file each effect plays.
pub open spec fn spec_effect_filename(effect: SoundEffect) -> Seq<char> {
    match effect {
        SoundEffect::GameStart => "game_start.wav"@,
        SoundEffect::GameOver => "game_over.wav"@,
        SoundEffect::LaserBroken => "laser_broken.wav"@,
        SoundEffect::Buzzer => "game_finished.wav"@,
    }
}

/// The file the ambient loop plays.
pub open spec fn spec_music_filename() -> Seq<char> {
    "loop.wav"@
}

impl AudioSettings {
    /// Volumes are percentages.
    pub open spec fn wf(self) -> bool {
        self.master_volume <= 100 && self.effect_volume <= 100
    }

    /// Default settings: both volumes at 70%, everything enabled.
    pub fn new() -> (s: AudioSettings)
        ensures
            s.wf(),
            s.master_volume == 70,
            s.effect_volume == 70,
            s.ambient_enabled,
            s.effects_enabled,
    {
        AudioSettings { master_volume: 70, effect_volume: 70, ambient_enabled: true, effects_enabled: true }
    }

    /// Replace the settings wholesale; a volume over 100% is clamped.
    pub fn update(&mut self, master_volume: u8, effect_volume: u8, ambient_enabled: bool, effects_enabled: bool)
        ensures
            final(self).wf(),
            final(self).master_volume == if master_volume <= 100 { master_volume } else { 100u8 },
            final(self).effect_volume == if effect_volume <= 100 { effect_volume } else { 100u8 },
            final(self).ambient_enabled == ambient_enabled,
            final(self).effects_enabled == effects_enabled,
    {
        self.master_volume = if master_volume <= 100 { master_volume } else { 100 };
        self.effect_volume = if effect_volume <= 100 { effect_volume } else { 100 };
        self.ambient_enabled = ambient_enabled;
        self.effects_enabled = effects_enabled;
    }

    /// The volume an effect actually plays at: the effect volume scaled
    /// by the master volume.  In hundredths of a percent of full scale,
    /// so 10000 is full volume.
    pub fn effective_effect_volume(&self) -> (r: u16)
        requires
            self.wf(),
        ensures
            r == self.effect_volume * self.master_volume,
    {
        proof {
            assert((self.effect_volume as u16) * (self.master_volume as u16) <= 10000)
                by (nonlinear_arith)
                requires
                    self.effect_volume <= 100,
                    self.master_volume <= 100,
            ;
        }
        (self.effect_volume as u16) * (self.master_volume as u16)
    }

    /// Decide a play-effect command: the effect plays — from its fixed
    /// file — exactly when effects are enabled.
    pub fn effect_plan(&self, effect: SoundEffect) -> (r: Option<&'static str>)
        ensures
            r is Some <==> self.effects_enabled,
            r matches Some(f) ==> f@ == spec_effect_filename(effect),
    {
        if !self.effects_enabled {
            return None;
        }
        Some(effect_filename(effect))
    }

    /// Decide a start-ambient command: the loop starts, from its fixed
    /// file at the master volume, exactly when ambient is enabled.
    pub fn music_plan(&self) -> (r: Option<(&'static str, u8)>)
        ensures
            r is Some <==> self.ambient_enabled,
            r matches Some(p) ==> p.0@ == spec_music_filename() && p.1 == self.master_volume,
    {
        if !self.ambient_enabled {
            return None;
        }
        Some(("loop.wav", self.master_volume))
    }

    /// Decide a toggle: the ambient loop plays exactly when asked to
    /// and ambient is enabled; otherwise it pauses.
    pub fn toggle_music_plan(&self, play: bool) -> (r: bool)
        ensures
            r == (play && self.ambient_enabled),
    {
        play && self.ambient_enabled
    }
}

/// The file each effect plays.
pub fn effect_filename(effect: SoundEffect) -> (r: &'static str)
    ensures
        r@ == spec_effect_filename(effect),
{
    match effect {
        SoundEffect::GameStart => "game_start.wav",
        SoundEffect::GameOver => "game_over.wav",
        SoundEffect::LaserBroken => "laser_broken.wav",
        SoundEffect::Buzzer => "game_finished.wav",
    }
}

/// Which command a play/pause toggle sends to the audio collaborator.
pub fn toggle_command(play: bool) -> (r: AudioCommand)
    ensures
        play ==> r is StartBackgroundMusic,
        !play ==> r is StopBackgroundMusic,
{
    if play {
        AudioCommand::StartBackgroundMusic
    } else {
        AudioCommand::StopBackgroundMusic
    }
}

} // verus!
