use deskhop::labels::{decimal_string, desktop_label, initial_osd_text, percentage_label};

#[test]
fn desktop_labels() {
    assert_eq!(desktop_label(1), "Desktop 1");
    assert_eq!(desktop_label(9), "Desktop 9");
    assert_eq!(desktop_label(10), "Desktop 10");
    for n in 0..200u32 {
        assert_eq!(desktop_label(n), format!("Desktop {}", n));
    }
}

#[test]
fn initial_text_is_first_desktop() {
    assert_eq!(initial_osd_text(), "Desktop 1");
}

#[test]
fn percentage_labels() {
    for step in 1..=10u32 {
        assert_eq!(percentage_label(step * 10), format!("{}%", step * 10));
    }
    assert_eq!(percentage_label(100), "100%");
}

#[test]
fn decimal_strings() {
    assert_eq!(decimal_string(0), "0");
    assert_eq!(decimal_string(7), "7");
    assert_eq!(decimal_string(105), "105");
    assert_eq!(decimal_string(u32::MAX), u32::MAX.to_string());
}
