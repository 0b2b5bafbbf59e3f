use deskhop::opacity_menu::{
    checked_step, context_menu, decode_command, opacity_for_percentage, MenuCommand, MenuEntry,
    CLOSE_ID,
};

/// The opacity as the window procedure computes it with single-precision floats.
fn float_opacity(percentage: u32) -> u8 {
    (255.0 * (percentage as f32 / 100.0)) as u8
}

#[test]
fn opacity_matches_float_computation_for_every_step() {
    for step in 1..=10u32 {
        let p = step * 10;
        assert_eq!(opacity_for_percentage(p), float_opacity(p), "percentage {}", p);
    }
}

#[test]
fn opacity_values() {
    let expected = [25u8, 51, 76, 102, 127, 153, 178, 204, 229, 255];
    for (i, e) in expected.iter().enumerate() {
        assert_eq!(opacity_for_percentage(10 * (i as u32 + 1)), *e);
    }
    assert_eq!(opacity_for_percentage(0), 0);
}

#[test]
fn checked_step_is_nearest() {
    assert_eq!(checked_step(0), 1);
    assert_eq!(checked_step(5), 1);
    assert_eq!(checked_step(25), 1);
    assert_eq!(checked_step(38), 1);
    assert_eq!(checked_step(39), 2);
    assert_eq!(checked_step(140), 5);
    assert_eq!(checked_step(141), 6);
    assert_eq!(checked_step(200), 8);
    assert_eq!(checked_step(242), 9);
    assert_eq!(checked_step(243), 10);
    assert_eq!(checked_step(255), 10);
}

#[test]
fn default_menu_layout() {
    let m = context_menu(200);
    assert_eq!(m.len(), 12);
    for i in 0..10usize {
        match m[i] {
            MenuEntry::Opacity { id, percentage, checked } => {
                assert_eq!(id, 1001 + i as u16);
                assert_eq!(percentage, 10 * (i as u32 + 1));
                assert_eq!(checked, i == 7, "entry {}", i);
            }
            _ => panic!("entry {} is not an opacity entry", i),
        }
    }
    assert_eq!(m[10], MenuEntry::Separator);
    assert_eq!(m[11], MenuEntry::Close { id: 1011 });
}

#[test]
fn every_opacity_checks_exactly_the_nearest_entry() {
    for current in 0..=255u8 {
        let m = context_menu(current);
        let checked: Vec<usize> = m
            .iter()
            .enumerate()
            .filter(|(_, e)| matches!(e, MenuEntry::Opacity { checked: true, .. }))
            .map(|(i, _)| i)
            .collect();
        assert_eq!(checked.len(), 1, "opacity {}", current);
        let distance = |step: u32| (float_opacity(10 * step) as i32 - current as i32).abs();
        let best = checked[0] as u32 + 1;
        for step in 1..=10u32 {
            assert!(distance(best) < distance(step) || (distance(best) == distance(step) && best <= step));
        }
    }
}

#[test]
fn decode_commands() {
    assert_eq!(decode_command(CLOSE_ID), MenuCommand::Quit);
    assert_eq!(decode_command(1001), MenuCommand::SetOpacity(25));
    assert_eq!(decode_command(1005), MenuCommand::SetOpacity(127));
    assert_eq!(decode_command(1010), MenuCommand::SetOpacity(255));
    assert_eq!(decode_command(1000), MenuCommand::Unhandled);
    assert_eq!(decode_command(1012), MenuCommand::Unhandled);
    assert_eq!(decode_command(0), MenuCommand::Unhandled);
}

#[test]
fn every_entry_decodes_to_what_it_shows() {
    for current in [0u8, 25, 100, 200, 255] {
        for e in context_menu(current) {
            match e {
                MenuEntry::Opacity { id, percentage, .. } => assert_eq!(
                    decode_command(id),
                    MenuCommand::SetOpacity(opacity_for_percentage(percentage))
                ),
                MenuEntry::Close { id } => assert_eq!(decode_command(id), MenuCommand::Quit),
                MenuEntry::Separator => {}
            }
        }
    }
}

#[test]
fn picked_step_is_the_only_checked_entry() {
    for step in 1..=10u16 {
        let opacity = match decode_command(1000 + step) {
            MenuCommand::SetOpacity(o) => o,
            other => panic!("unexpected {:?}", other),
        };
        let m = context_menu(opacity);
        for (i, e) in m.iter().take(10).enumerate() {
            match e {
                MenuEntry::Opacity { checked, .. } => assert_eq!(*checked, i + 1 == step as usize),
                _ => panic!("not an opacity entry"),
            }
        }
    }
}
