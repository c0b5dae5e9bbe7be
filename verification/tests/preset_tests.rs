use marconio::preset::AudioFxPreset;

#[test]
fn parses_every_preset_name() {
    assert_eq!(AudioFxPreset::from_str("clean"), Some(AudioFxPreset::Clean));
    assert_eq!(AudioFxPreset::from_str("cassette"), Some(AudioFxPreset::Cassette));
    assert_eq!(AudioFxPreset::from_str("bass"), Some(AudioFxPreset::Bass));
    assert_eq!(AudioFxPreset::from_str("radio"), Some(AudioFxPreset::Radio));
}

#[test]
fn rejects_unknown_preset_names() {
    assert_eq!(AudioFxPreset::from_str(""), None);
    assert_eq!(AudioFxPreset::from_str("CLEAN"), None);
    assert_eq!(AudioFxPreset::from_str("metal"), None);
    assert_eq!(AudioFxPreset::from_str("bass "), None);
}

#[test]
fn preset_codes_round_trip() {
    for p in [
        AudioFxPreset::Clean,
        AudioFxPreset::Cassette,
        AudioFxPreset::Bass,
        AudioFxPreset::Radio,
    ] {
        assert_eq!(AudioFxPreset::from_u8(p.as_u8()), p);
    }
    assert_eq!(AudioFxPreset::Clean.as_u8(), 0);
    assert_eq!(AudioFxPreset::Cassette.as_u8(), 1);
    assert_eq!(AudioFxPreset::Bass.as_u8(), 2);
    assert_eq!(AudioFxPreset::Radio.as_u8(), 3);
}

#[test]
fn unknown_codes_fall_back_to_clean() {
    assert_eq!(AudioFxPreset::from_u8(4), AudioFxPreset::Clean);
    assert_eq!(AudioFxPreset::from_u8(7), AudioFxPreset::Clean);
    assert_eq!(AudioFxPreset::from_u8(255), AudioFxPreset::Clean);
}
