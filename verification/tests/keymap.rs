use handy::keymap::{
    build_map, command_v_keycode, find_keycode, translation_modifier_states, EnabledLayout,
    KeyChoice, KeyMap, KeyTranslation, LayoutSource, RemoteTyper, MOD_OPTION, MOD_SHIFT,
};

fn tr(keycode: u16, modifiers: u8, c: Option<char>) -> KeyTranslation {
    KeyTranslation { keycode, modifiers, output: c.map(|c| c as u16) }
}

fn map_of(entries: &[(u16, u8, char)]) -> KeyMap {
    let ts: Vec<KeyTranslation> = entries.iter().map(|&(k, m, c)| tr(k, m, Some(c))).collect();
    build_map(&ts)
}

#[test]
fn modifier_states_are_scanned_in_order() {
    assert_eq!(
        translation_modifier_states(),
        vec![(0, 0), (2, MOD_SHIFT), (8, MOD_OPTION), (10, MOD_SHIFT | MOD_OPTION)]
    );
}

#[test]
fn first_translation_wins() {
    let ts = vec![
        tr(0, 0, Some('a')),
        tr(0, MOD_SHIFT, Some('A')),
        tr(1, 0, Some('a')),
        tr(2, MOD_OPTION, Some('\u{7}')),
        tr(3, 0, None),
        KeyTranslation { keycode: 4, modifiers: 0, output: Some(0xd83d) },
        tr(5, MOD_SHIFT | MOD_OPTION, Some('\u{e9}')),
    ];
    let m = build_map(&ts);
    assert_eq!(m.get('a'), Some((0, 0)));
    assert_eq!(m.get('A'), Some((0, MOD_SHIFT)));
    assert_eq!(m.get('\u{7}'), None);
    assert_eq!(m.get('\u{e9}'), Some((5, 3)));
    assert_eq!(m.get('z'), None);
    assert!(!m.is_empty());
    assert!(build_map(&vec![tr(0, 0, Some('\n'))]).is_empty());
}

#[test]
fn finds_the_command_v_key() {
    let mut outputs = vec![None; 128];
    outputs[9] = Some(0x76);
    outputs[47] = Some(0x76);
    outputs[3] = Some(0x56);
    assert_eq!(find_keycode(&outputs), Some(9));
    assert_eq!(find_keycode(&vec![Some(0x61); 128]), None);
    let mut long = vec![None; 200];
    long[150] = Some(0x76);
    assert_eq!(find_keycode(&long), None);
    assert_eq!(command_v_keycode(Some(47)), 47);
    assert_eq!(command_v_keycode(None), 9);
}

fn typer() -> RemoteTyper {
    let punct = map_of(&[(0, 0, '?'), (1, 0, '!')]);
    let latin = map_of(&[
        (0, 0, 'a'),
        (0, MOD_SHIFT, 'A'),
        (44, MOD_SHIFT, '?'),
        (43, 0, ','),
        (39, MOD_SHIFT, '"'),
    ]);
    let cyrillic = map_of(&[(0, 0, '\u{444}'), (43, MOD_SHIFT, ','), (2, MOD_SHIFT, '"')]);
    RemoteTyper::new(
        Some(punct),
        vec![
            EnabledLayout { source_id: Some("com.apple.keylayout.US".to_string()), keymap: Some(latin) },
            EnabledLayout { source_id: Some("org.unknown.keylayout.HandyPunct".to_string()), keymap: Some(map_of(&[(5, 0, 'x')])) },
            EnabledLayout { source_id: None, keymap: None },
            EnabledLayout { source_id: Some("com.apple.keylayout.Russian".to_string()), keymap: Some(cyrillic) },
        ],
    )
    .unwrap()
}

#[test]
fn typer_needs_a_non_empty_layout() {
    assert!(RemoteTyper::new(None, vec![]).is_none());
    assert!(RemoteTyper::new(
        Some(build_map(&vec![])),
        vec![EnabledLayout { source_id: None, keymap: Some(map_of(&[])) }]
    )
    .is_none());
}

#[test]
fn typer_prefers_base_keys_then_selected() {
    let mut t = typer();
    // '?' is a base key of the punctuation layout, which comes first.
    assert_eq!(
        t.get('?'),
        Some(KeyChoice { keycode: 0, modifiers: 0, switch_to: Some(LayoutSource::HandyPunct) })
    );
    // The same character again needs no switch.
    assert_eq!(t.get('?'), Some(KeyChoice { keycode: 0, modifiers: 0, switch_to: None }));
    // 'A' only exists shifted, in the Latin layout.
    assert_eq!(
        t.get('A'),
        Some(KeyChoice { keycode: 0, modifiers: MOD_SHIFT, switch_to: Some(LayoutSource::Enabled(0)) })
    );
    // '?' is only shifted in the selected Latin layout, but a base key of the
    // punctuation layout: switch back there.
    assert_eq!(
        t.get('?'),
        Some(KeyChoice { keycode: 0, modifiers: 0, switch_to: Some(LayoutSource::HandyPunct) })
    );
    // Cyrillic switches to the Russian layout.
    assert_eq!(
        t.get('\u{444}'),
        Some(KeyChoice { keycode: 0, modifiers: 0, switch_to: Some(LayoutSource::Enabled(3)) })
    );
    // '"' is a base key nowhere: the selected Russian layout types it shifted.
    assert_eq!(t.get('"'), Some(KeyChoice { keycode: 2, modifiers: MOD_SHIFT, switch_to: None }));
    // ',' is shifted in Russian but a base key of the Latin layout.
    assert_eq!(
        t.get(','),
        Some(KeyChoice { keycode: 43, modifiers: 0, switch_to: Some(LayoutSource::Enabled(0)) })
    );
    // A character that no layout has: nothing, and the selection is kept.
    assert_eq!(t.get('\u{4e2d}'), None);
    assert_eq!(t.get(','), Some(KeyChoice { keycode: 43, modifiers: 0, switch_to: None }));
    // From the Latin layout, '"' stays there, shifted.
    assert_eq!(t.get('"'), Some(KeyChoice { keycode: 39, modifiers: MOD_SHIFT, switch_to: None }));
    // The duplicate punctuation layout from the enabled list was skipped.
    assert_eq!(t.get('x'), None);
}
