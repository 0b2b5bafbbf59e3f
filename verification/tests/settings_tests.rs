use deskhop::settings::{settings_or_default, update_location, update_opacity, Settings};

#[test]
fn default_settings_values() {
    let s = Settings::default();
    assert_eq!(s, Settings { x: 100, y: 100, opacity: 200 });
}

#[test]
fn missing_settings_fall_back_to_default() {
    assert_eq!(settings_or_default(None), Settings::default());
    let saved = Settings { x: -5, y: 7, opacity: 3 };
    assert_eq!(settings_or_default(Some(saved)), saved);
}

#[test]
fn update_opacity_keeps_position() {
    let s = Settings { x: 12, y: -40, opacity: 200 };
    let t = update_opacity(s, 51);
    assert_eq!(t, Settings { x: 12, y: -40, opacity: 51 });
}

#[test]
fn update_location_keeps_opacity() {
    let s = Settings { x: 12, y: -40, opacity: 200 };
    let t = update_location(s, 300, 9);
    assert_eq!(t, Settings { x: 300, y: 9, opacity: 200 });
}

#[test]
fn updates_commute() {
    let s = Settings::default();
    let a = update_location(update_opacity(s, 25), 1, 2);
    let b = update_opacity(update_location(s, 1, 2), 25);
    assert_eq!(a, b);
}

#[test]
fn last_update_wins() {
    let s = Settings::default();
    assert_eq!(update_opacity(update_opacity(s, 25), 255), update_opacity(s, 255));
    assert_eq!(update_location(update_location(s, 1, 2), 3, 4), update_location(s, 3, 4));
}

#[test]
fn same_value_update_changes_nothing() {
    let s = Settings { x: i32::MIN, y: i32::MAX, opacity: 0 };
    assert_eq!(update_opacity(s, 0), s);
    assert_eq!(update_location(s, i32::MIN, i32::MAX), s);
}
