use handy::keymap::{build_map, EnabledLayout, KeyTranslation, LayoutSource, RemoteTyper, MOD_OPTION, MOD_SHIFT};
use handy::typing::{
    encode_utf16, plan_direct_typing, plan_remote_typing, type_text_direct_unicode, type_text_unicode,
    TypingAction, Utf16Units, FLAG_NONE, FLAG_OPTION, FLAG_SHIFT, MOD_SETTLE_MS, OPTION_KEYCODE,
    RETURN_KEYCODE, SHIFT_KEYCODE,
};
use handy::keymap::SWITCH_SETTLE_MS;

fn post(keycode: u16, key_down: bool, flags: u64, text: Option<Utf16Units>) -> TypingAction {
    TypingAction::Post { keycode, key_down, flags, text }
}

#[test]
fn utf16_encoding() {
    assert_eq!(encode_utf16('a'), Utf16Units::One(0x61));
    assert_eq!(encode_utf16('\u{ffff}'), Utf16Units::One(0xffff));
    assert_eq!(encode_utf16('\u{1f600}'), Utf16Units::Two(0xd83d, 0xde00));
    assert_eq!(encode_utf16('\u{10000}'), Utf16Units::Two(0xd800, 0xdc00));
    let mut buf = [0u16; 2];
    assert_eq!('\u{10ffff}'.encode_utf16(&mut buf), &[0xdbff, 0xdfff]);
    assert_eq!(encode_utf16('\u{10ffff}'), Utf16Units::Two(0xdbff, 0xdfff));
}

#[test]
fn direct_typing_sends_unicode_and_return() {
    let plan = plan_direct_typing("a\nb", 5);
    assert_eq!(
        plan,
        vec![
            post(0, true, FLAG_NONE, Some(Utf16Units::One(0x61))),
            post(0, false, FLAG_NONE, Some(Utf16Units::One(0x61))),
            TypingAction::Pause { ms: 5 },
            post(RETURN_KEYCODE, true, FLAG_NONE, None),
            post(RETURN_KEYCODE, false, FLAG_NONE, None),
            TypingAction::Pause { ms: 5 },
            post(0, true, FLAG_NONE, Some(Utf16Units::One(0x62))),
            post(0, false, FLAG_NONE, Some(Utf16Units::One(0x62))),
            TypingAction::Pause { ms: 5 },
        ]
    );
    assert_eq!(plan_direct_typing("\r", 0).len(), 2);
    assert!(plan_direct_typing("", 3).is_empty());
    assert!(plan_direct_typing("x\u{444}\u{1f600}", 1)
        .iter()
        .all(|a| !matches!(a, TypingAction::SelectLayout { .. })));
}

#[test]
fn remote_typing_without_maps_is_direct_typing() {
    let mut none: Option<RemoteTyper> = None;
    let plan = plan_remote_typing("ab\ncd", &mut none, 2);
    assert_eq!(plan.actions, plan_direct_typing("ab\ncd", 2));
    assert_eq!(plan.unmapped, 4);
    assert!(none.is_none());
}

#[test]
fn remote_typing_holds_modifiers_as_key_events() {
    let ts = vec![
        KeyTranslation { keycode: 0, modifiers: 0, output: Some('a' as u16) },
        KeyTranslation { keycode: 0, modifiers: MOD_SHIFT, output: Some('A' as u16) },
        KeyTranslation { keycode: 14, modifiers: MOD_OPTION, output: Some('\u{b4}' as u16) },
        KeyTranslation { keycode: 14, modifiers: MOD_SHIFT | MOD_OPTION, output: Some('\u{2030}' as u16) },
    ];
    let mut typer = RemoteTyper::new(
        None,
        vec![EnabledLayout { source_id: None, keymap: Some(build_map(&ts)) }],
    );
    let plan = plan_remote_typing("aA\u{2030}\u{4e2d}", &mut typer, 0);
    let both = FLAG_SHIFT + FLAG_OPTION;
    assert_eq!(
        plan.actions,
        vec![
            TypingAction::SelectLayout { layout: LayoutSource::Enabled(0) },
            TypingAction::Pause { ms: SWITCH_SETTLE_MS },
            post(0, true, FLAG_NONE, None),
            post(0, false, FLAG_NONE, None),
            post(SHIFT_KEYCODE, true, FLAG_SHIFT, None),
            TypingAction::Pause { ms: MOD_SETTLE_MS },
            post(0, true, FLAG_SHIFT, None),
            post(0, false, FLAG_SHIFT, None),
            TypingAction::Pause { ms: MOD_SETTLE_MS },
            post(SHIFT_KEYCODE, false, FLAG_NONE, None),
            post(SHIFT_KEYCODE, true, FLAG_SHIFT, None),
            post(OPTION_KEYCODE, true, both, None),
            TypingAction::Pause { ms: MOD_SETTLE_MS },
            post(14, true, both, None),
            post(14, false, both, None),
            TypingAction::Pause { ms: MOD_SETTLE_MS },
            post(OPTION_KEYCODE, false, FLAG_SHIFT, None),
            post(SHIFT_KEYCODE, false, FLAG_NONE, None),
            post(0, true, FLAG_NONE, Some(Utf16Units::One(0x4e2d))),
            post(0, false, FLAG_NONE, Some(Utf16Units::One(0x4e2d))),
        ]
    );
    assert_eq!(plan.unmapped, 1);
    assert_eq!(FLAG_OPTION, 0x80000);
}

#[test]
fn typing_is_unavailable_in_this_build() {
    assert_eq!(
        type_text_unicode("hello", 0),
        Err("Remote-desktop typing is only implemented on macOS".to_string())
    );
    assert_eq!(
        type_text_direct_unicode("hello", 0),
        Err("Direct Unicode typing is only implemented on macOS".to_string())
    );
}
