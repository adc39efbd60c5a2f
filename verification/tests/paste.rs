use handy::paste::{
    chord_failure_message, ctrl_shift_v_chord, ctrl_v_chord, failure_message, shift_insert_chord,
    ChordStep, KeyDirection, PasteFailure, PasteKey, PastePlatform,
};

fn key(key: PasteKey, direction: KeyDirection, failure: PasteFailure) -> ChordStep {
    ChordStep::Key { key, direction, failure }
}

#[test]
fn ctrl_v_per_platform() {
    assert_eq!(
        ctrl_v_chord(PastePlatform::MacOs { command_v_keycode: 47 }, 30),
        vec![
            key(PasteKey::Meta, KeyDirection::Press, PasteFailure::PressModifier),
            key(PasteKey::Other(47), KeyDirection::Click, PasteFailure::ClickV),
            ChordStep::Hold { ms: 30 },
            key(PasteKey::Meta, KeyDirection::Release, PasteFailure::ReleaseModifier),
        ]
    );
    assert_eq!(
        ctrl_v_chord(PastePlatform::Windows, 0)[1],
        key(PasteKey::Other(0x56), KeyDirection::Click, PasteFailure::ClickV)
    );
    assert_eq!(
        ctrl_v_chord(PastePlatform::Linux, 0)[0],
        key(PasteKey::Control, KeyDirection::Press, PasteFailure::PressModifier)
    );
    assert_eq!(
        ctrl_v_chord(PastePlatform::Linux, 0)[1],
        key(PasteKey::Unicode('v'), KeyDirection::Click, PasteFailure::ClickV)
    );
}

#[test]
fn ctrl_shift_v_releases_in_reverse_order() {
    assert_eq!(
        ctrl_shift_v_chord(PastePlatform::Linux, 10),
        vec![
            key(PasteKey::Control, KeyDirection::Press, PasteFailure::PressModifier),
            key(PasteKey::Shift, KeyDirection::Press, PasteFailure::PressShift),
            key(PasteKey::Unicode('v'), KeyDirection::Click, PasteFailure::ClickV),
            ChordStep::Hold { ms: 10 },
            key(PasteKey::Shift, KeyDirection::Release, PasteFailure::ReleaseShift),
            key(PasteKey::Control, KeyDirection::Release, PasteFailure::ReleaseModifier),
        ]
    );
}

#[test]
fn shift_insert_keycodes() {
    assert_eq!(
        shift_insert_chord(PastePlatform::Windows, 5)[1],
        key(PasteKey::Other(0x2d), KeyDirection::Click, PasteFailure::ClickInsert)
    );
    assert_eq!(
        shift_insert_chord(PastePlatform::Linux, 5),
        vec![
            key(PasteKey::Shift, KeyDirection::Press, PasteFailure::PressShift),
            key(PasteKey::Other(0x76), KeyDirection::Click, PasteFailure::ClickInsert),
            ChordStep::Hold { ms: 5 },
            key(PasteKey::Shift, KeyDirection::Release, PasteFailure::ReleaseShift),
        ]
    );
}

#[test]
fn failure_messages() {
    assert_eq!(chord_failure_message(PasteFailure::ClickV, "denied"), "Failed to click V key: denied");
    assert_eq!(
        chord_failure_message(PasteFailure::ReleaseShift, "x"),
        "Failed to release Shift key: x"
    );
    assert_eq!(failure_message("Failed to send text directly", "boom"), "Failed to send text directly: boom");
}
