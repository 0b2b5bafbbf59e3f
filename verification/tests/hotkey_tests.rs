use deskhop::hotkeys::{
    collect_bindings, desktop_switch, desktops_for_hotkey, hotkey_desktops, loop_step, switch_label,
    Binding, DesktopSwitch, LoopEvent, Registration,
};

/// Hotkey ids as Alt+digit hotkeys get them: the Alt modifier bit above the key code.
fn attempts(registered: &[bool]) -> Vec<Registration> {
    hotkey_desktops()
        .into_iter()
        .zip(registered.iter())
        .map(|(d, ok)| Registration { id: (1 << 16) | (5 + d), desktop: d, registered: *ok })
        .collect()
}

#[test]
fn desktops_one_to_nine() {
    assert_eq!(hotkey_desktops(), vec![1, 2, 3, 4, 5, 6, 7, 8, 9]);
}

#[test]
fn only_accepted_hotkeys_are_bound() {
    let a = attempts(&[true, false, true, true, true, true, true, true, false]);
    let b = collect_bindings(&a);
    assert_eq!(b.len(), 7);
    assert_eq!(b[0], Binding { id: a[0].id, desktop: 1 });
    assert_eq!(b[1], Binding { id: a[2].id, desktop: 3 });
    assert_eq!(b[6], Binding { id: a[7].id, desktop: 8 });
}

#[test]
fn hotkey_dispatch() {
    let a = attempts(&[true; 9]);
    let b = collect_bindings(&a);
    assert_eq!(desktops_for_hotkey(&b, a[4].id), vec![5]);
    assert_eq!(desktops_for_hotkey(&b, 12345), Vec::<u32>::new());
}

#[test]
fn unregistered_hotkey_switches_nowhere() {
    let a = attempts(&[true, true, false, true, true, true, true, true, true]);
    let b = collect_bindings(&a);
    assert_eq!(desktops_for_hotkey(&b, a[2].id), Vec::<u32>::new());
}

#[test]
fn duplicate_ids_switch_in_binding_order() {
    let b = vec![Binding { id: 7, desktop: 2 }, Binding { id: 8, desktop: 3 }, Binding { id: 7, desktop: 4 }];
    assert_eq!(desktops_for_hotkey(&b, 7), vec![2, 4]);
}

#[test]
fn switch_target_is_zero_based() {
    assert_eq!(desktop_switch(1), DesktopSwitch { target: 0, desktop: 1 });
    assert_eq!(desktop_switch(9), DesktopSwitch { target: 8, desktop: 9 });
    assert_eq!(switch_label(desktop_switch(4)), "Desktop 4");
}

#[test]
fn loop_steps() {
    let a = attempts(&[true; 9]);
    let b = collect_bindings(&a);

    let s = loop_step(&b, LoopEvent::CloseRequested);
    assert!(s.exit);
    assert!(s.switches.is_empty());

    let s = loop_step(&b, LoopEvent::Other);
    assert!(!s.exit);
    assert!(s.switches.is_empty());

    let s = loop_step(&b, LoopEvent::AboutToWait { quit_selected: false, hotkey: Some(a[2].id) });
    assert!(!s.exit);
    assert_eq!(s.switches, vec![DesktopSwitch { target: 2, desktop: 3 }]);

    let s = loop_step(&b, LoopEvent::AboutToWait { quit_selected: true, hotkey: Some(a[8].id) });
    assert!(s.exit);
    assert_eq!(s.switches, vec![DesktopSwitch { target: 8, desktop: 9 }]);

    let s = loop_step(&b, LoopEvent::AboutToWait { quit_selected: true, hotkey: None });
    assert!(s.exit);
    assert!(s.switches.is_empty());
}
