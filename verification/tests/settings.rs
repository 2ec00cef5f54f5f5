use mini_metars::settings::Settings;

#[test]
fn new_settings_show_everything() {
    let s = Settings::new();
    assert!(s.show_vatsim_atis);
    assert!(s.show_altimeter);
    assert!(s.show_wind);
}

#[test]
fn default_settings_equal_new() {
    assert_eq!(Settings::default(), Settings::new());
}
