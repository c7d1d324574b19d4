use short::settings::Settings;

#[test]
fn settings() {
    let mut s = Settings::new();
    assert_eq!(s.setup(), None);
    assert_eq!(s.env(), None);
    s.set_setup("setup".to_string());
    s.set_env("env".to_string());
    assert_eq!(Some(&"setup".to_string()), s.setup());
    assert_eq!(Some(&"env".to_string()), s.env());
}
