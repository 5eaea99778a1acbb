use lucid::audio::{clamp_volume, SoundManager, SoundEffect};

#[test]
fn volumes_are_kept_in_range() {
    assert_eq!(clamp_volume(-1), 0);
    assert_eq!(clamp_volume(0), 0);
    assert_eq!(clamp_volume(300_000), 300_000);
    assert_eq!(clamp_volume(1_000_000), 1_000_000);
    assert_eq!(clamp_volume(1_000_001), 1_000_000);
}

#[test]
fn new_effect_is_at_full_volume() {
    let e = SoundEffect::new("step".to_string(), "step.wav".to_string());
    assert_eq!(e.name, "step");
    assert_eq!(e.path, "step.wav");
    assert_eq!(e.volume, 1_000_000);
    let e = e.with_volume(250_000);
    assert_eq!(e.volume, 250_000);
    assert_eq!(e.with_volume(7_000_000).volume, 1_000_000);
}

#[test]
fn registered_sound_is_played() {
    let mut bank = SoundManager::new();
    bank.register_sound("step".to_string(), "step.wav".to_string());
    bank.register_sound("gun1".to_string(), "gun1.wav".to_string());
    let p = bank.play_sound("gun1").ok().unwrap();
    assert_eq!(p.path, "gun1.wav");
    assert_eq!(p.volume, 1_000_000);
    let p = bank.play_sound("step").ok().unwrap();
    assert_eq!(p.path, "step.wav");
}

#[test]
fn unknown_sound_is_an_error() {
    let mut bank = SoundManager::new();
    assert_eq!(bank.play_sound("gun2").err().unwrap(), "Sound effect 'gun2' not found");
    bank.register_sound("step".to_string(), "step.wav".to_string());
    assert_eq!(bank.play_sound("").err().unwrap(), "Sound effect '' not found");
}

#[test]
fn registering_again_replaces_the_sound() {
    let mut bank = SoundManager::new();
    bank.register_sound("step".to_string(), "a.wav".to_string());
    bank.register_sound("gun1".to_string(), "b.wav".to_string());
    bank.register_sound("step".to_string(), "c.wav".to_string());
    assert_eq!(bank.effects.len(), 2);
    assert_eq!(bank.play_sound("step").ok().unwrap().path, "c.wav");
    assert_eq!(bank.play_sound("gun1").ok().unwrap().path, "b.wav");
}

#[test]
fn master_volume_scales_every_sound() {
    let mut bank = SoundManager::new();
    bank.register_sound("step".to_string(), "a.wav".to_string());
    bank.effects[0].volume = 500_000;
    bank.set_master_volume(300_000);
    assert_eq!(bank.master_volume, 300_000);
    assert_eq!(bank.play_sound("step").ok().unwrap().volume, 150_000);
    bank.set_master_volume(-5);
    assert_eq!(bank.play_sound("step").ok().unwrap().volume, 0);
    bank.set_master_volume(2_000_000);
    assert_eq!(bank.master_volume, 1_000_000);
    assert_eq!(bank.play_sound("step").ok().unwrap().volume, 500_000);
}
