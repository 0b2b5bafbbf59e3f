use deskhop::osd::{command_id, osd_action, osd_layout, OsdAction, OsdLayout, OsdMessage};
use deskhop::settings::{update_location, update_opacity, Settings};

#[test]
fn command_id_is_low_word() {
    assert_eq!(command_id(1011), 1011);
    assert_eq!(command_id(0x0001_03F5), 0x03F5);
    assert_eq!(command_id(0xFFFF), 0xFFFF);
    assert_eq!(command_id(0x1_0000), 0);
}

#[test]
fn messages_map_to_actions() {
    assert_eq!(osd_action(OsdMessage::NonClientCreate), OsdAction::AttachText);
    assert_eq!(osd_action(OsdMessage::LeftButtonDown), OsdAction::BeginDrag);
    assert_eq!(
        osd_action(OsdMessage::ExitSizeMove { left: -20, top: 35 }),
        OsdAction::SaveLocation { x: -20, y: 35 }
    );
    assert_eq!(osd_action(OsdMessage::RightButtonUp), OsdAction::ShowContextMenu);
    assert_eq!(osd_action(OsdMessage::Paint), OsdAction::Repaint);
    assert_eq!(osd_action(OsdMessage::Destroy), OsdAction::Release);
    assert_eq!(osd_action(OsdMessage::Other), OsdAction::Default);
}

#[test]
fn command_messages() {
    assert_eq!(osd_action(OsdMessage::Command { wparam: 1011 }), OsdAction::Quit);
    assert_eq!(osd_action(OsdMessage::Command { wparam: 1004 }), OsdAction::ApplyOpacity { opacity: 102 });
    assert_eq!(osd_action(OsdMessage::Command { wparam: 0x0002_0000 | 1009 }), OsdAction::ApplyOpacity { opacity: 229 });
    assert_eq!(osd_action(OsdMessage::Command { wparam: 1000 }), OsdAction::Default);
    assert_eq!(osd_action(OsdMessage::Command { wparam: 2 }), OsdAction::Default);
}

#[test]
fn picked_opacity_is_saved() {
    let s = Settings::default();
    if let OsdAction::ApplyOpacity { opacity } = osd_action(OsdMessage::Command { wparam: 1002 }) {
        assert_eq!(update_opacity(s, opacity).opacity, 51);
    } else {
        panic!("expected an opacity change");
    }
}

#[test]
fn moved_window_position_is_saved() {
    let s = Settings::default();
    if let OsdAction::SaveLocation { x, y } = osd_action(OsdMessage::ExitSizeMove { left: 640, top: 12 }) {
        assert_eq!(update_location(s, x, y), Settings { x: 640, y: 12, opacity: 200 });
    } else {
        panic!("expected a location save");
    }
}

#[test]
fn layout_follows_settings() {
    let s = Settings { x: 3, y: 4, opacity: 5 };
    assert_eq!(osd_layout(s), OsdLayout { x: 3, y: 4, width: 160, height: 50, opacity: 5 });
}
