use laser_ingest::audio::{
    effect_filename, toggle_command, AudioCommand, AudioSettings, SoundEffect,
};

#[test]
fn each_effect_has_its_file() {
    assert_eq!(effect_filename(SoundEffect::GameStart), "game_start.wav");
    assert_eq!(effect_filename(SoundEffect::GameOver), "game_over.wav");
    assert_eq!(effect_filename(SoundEffect::LaserBroken), "laser_broken.wav");
    assert_eq!(effect_filename(SoundEffect::Buzzer), "game_finished.wav");
}

#[test]
fn default_settings_are_seventy_percent_everything_on() {
    let s = AudioSettings::new();
    assert_eq!(s.master_volume, 70);
    assert_eq!(s.effect_volume, 70);
    assert!(s.ambient_enabled);
    assert!(s.effects_enabled);
}

#[test]
fn update_stores_and_clamps_volumes() {
    let mut s = AudioSettings::new();
    s.update(30, 90, false, true);
    assert_eq!(s.master_volume, 30);
    assert_eq!(s.effect_volume, 90);
    assert!(!s.ambient_enabled);
    assert!(s.effects_enabled);
    s.update(250, 101, true, false);
    assert_eq!(s.master_volume, 100);
    assert_eq!(s.effect_volume, 100);
}

#[test]
fn effective_effect_volume_scales_by_master() {
    let mut s = AudioSettings::new();
    assert_eq!(s.effective_effect_volume(), 4900);
    s.update(100, 100, true, true);
    assert_eq!(s.effective_effect_volume(), 10000);
    s.update(0, 100, true, true);
    assert_eq!(s.effective_effect_volume(), 0);
    s.update(50, 80, true, true);
    assert_eq!(s.effective_effect_volume(), 4000);
}

#[test]
fn effects_play_only_when_enabled() {
    let mut s = AudioSettings::new();
    assert_eq!(s.effect_plan(SoundEffect::Buzzer), Some("game_finished.wav"));
    s.update(70, 70, true, false);
    assert_eq!(s.effect_plan(SoundEffect::Buzzer), None);
}

#[test]
fn ambient_loop_plays_only_when_enabled() {
    let mut s = AudioSettings::new();
    s.update(40, 70, true, true);
    assert_eq!(s.music_plan(), Some(("loop.wav", 40)));
    assert!(s.toggle_music_plan(true));
    assert!(!s.toggle_music_plan(false));
    s.update(40, 70, false, true);
    assert_eq!(s.music_plan(), None);
    assert!(!s.toggle_music_plan(true));
}

#[test]
fn toggle_sends_the_matching_command() {
    assert_eq!(toggle_command(true), AudioCommand::StartBackgroundMusic);
    assert_eq!(toggle_command(false), AudioCommand::StopBackgroundMusic);
}
