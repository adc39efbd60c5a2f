//! Paste key chords (Ctrl/Cmd+V, Ctrl/Cmd+Shift+V, Shift+Insert) as the
//! sequences of key events and holds that send them.
use vstd::prelude::*;

verus! {

/// A key of a paste chord.
#[derive(Debug, Clone, Copy, PartialEq, Eq, Structural)]
pub enum PasteKey {
    Meta,
    Control,
    Shift,
    /// A platform virtual keycode.
    Other(u32),
    /// The key that types this character.
    Unicode(char),
}

#[derive(Debug, Clone, Copy, PartialEq, Eq, Structural)]
pub enum KeyDirection {
    Press,
    Release,
    Click,
}

/// The platform a chord is sent on.
#[derive(Debug, Clone, Copy, PartialEq, Eq, Structural)]
pub enum PastePlatform {
    /// macOS, with the keycode that types `v` under Command in the active
    /// layout.
    MacOs { command_v_keycode: u32 },
    Windows,
    Linux,
}

/// Which key event of a chord failed.
#[derive(Debug, Clone, Copy, PartialEq, Eq, Structural)]
pub enum PasteFailure {
    PressModifier,
    ClickV,
    ReleaseModifier,
    PressShift,
    ReleaseShift,
    ClickInsert,
}

/// One step of a chord.
#[derive(Debug, Clone, Copy, PartialEq, Eq, Structural)]
pub enum ChordStep {
    /// Send a key event; if it fails, report `failure`.
    Key { key: PasteKey, direction: KeyDirection, failure: PasteFailure },
    /// Keep the keys as they are for this many milliseconds.
    Hold { ms: u64 },
}

/// Virtual keycode of `V` on Windows.
pub const WINDOWS_V_KEYCODE: u32 = 0x56;

/// Virtual keycode of Insert on Windows.
pub const WINDOWS_INSERT_KEYCODE: u32 = 0x2d;

/// Keycode of Insert elsewhere.
pub const INSERT_KEYCODE: u32 = 0x76;

pub open spec fn key_step(key: PasteKey, direction: KeyDirection, failure: PasteFailure) -> ChordStep {
    ChordStep::Key { key, direction, failure }
}

/// The paste modifier of a platform and its `V` key.
pub open spec fn paste_keys(platform: PastePlatform) -> (PasteKey, PasteKey) {
    match platform {
        PastePlatform::MacOs { command_v_keycode } => (PasteKey::Meta, PasteKey::Other(command_v_keycode)),
        PastePlatform::Windows => (PasteKey::Control, PasteKey::Other(WINDOWS_V_KEYCODE)),
        PastePlatform::Linux => (PasteKey::Control, PasteKey::Unicode('v')),
    }
}

fn platform_paste_keys(platform: PastePlatform) -> (r: (PasteKey, PasteKey))
    ensures
        r == paste_keys(platform),
{
    match platform {
        PastePlatform::MacOs { command_v_keycode } => (PasteKey::Meta, PasteKey::Other(command_v_keycode)),
        PastePlatform::Windows => (PasteKey::Control, PasteKey::Other(WINDOWS_V_KEYCODE)),
        PastePlatform::Linux => (PasteKey::Control, PasteKey::Unicode('v')),
    }
}

/// Ctrl+V (Cmd+V on macOS): modifier down, `V` clicked, a hold of `hold_ms`,
/// modifier up.
pub fn ctrl_v_chord(platform: PastePlatform, hold_ms: u64) -> (r: Vec<ChordStep>)
    ensures
        ({
            let (m, v) = paste_keys(platform);
            r@ == seq![
                key_step(m, KeyDirection::Press, PasteFailure::PressModifier),
                key_step(v, KeyDirection::Click, PasteFailure::ClickV),
                ChordStep::Hold { ms: hold_ms },
                key_step(m, KeyDirection::Release, PasteFailure::ReleaseModifier),
            ]
        }),
{
    let (m, v) = platform_paste_keys(platform);
    vec![
        ChordStep::Key { key: m, direction: KeyDirection::Press, failure: PasteFailure::PressModifier },
        ChordStep::Key { key: v, direction: KeyDirection::Click, failure: PasteFailure::ClickV },
        ChordStep::Hold { ms: hold_ms },
        ChordStep::Key { key: m, direction: KeyDirection::Release, failure: PasteFailure::ReleaseModifier },
    ]
}

/// Ctrl+Shift+V (Cmd+Shift+V on macOS): modifier and Shift down, `V`
/// clicked, a hold of `hold_ms`, Shift and modifier up.
pub fn ctrl_shift_v_chord(platform: PastePlatform, hold_ms: u64) -> (r: Vec<ChordStep>)
    ensures
        ({
            let (m, v) = paste_keys(platform);
            r@ == seq![
                key_step(m, KeyDirection::Press, PasteFailure::PressModifier),
                key_step(PasteKey::Shift, KeyDirection::Press, PasteFailure::PressShift),
                key_step(v, KeyDirection::Click, PasteFailure::ClickV),
                ChordStep::Hold { ms: hold_ms },
                key_step(PasteKey::Shift, KeyDirection::Release, PasteFailure::ReleaseShift),
                key_step(m, KeyDirection::Release, PasteFailure::ReleaseModifier),
            ]
        }),
{
    let (m, v) = platform_paste_keys(platform);
    vec![
        ChordStep::Key { key: m, direction: KeyDirection::Press, failure: PasteFailure::PressModifier },
        ChordStep::Key { key: PasteKey::Shift, direction: KeyDirection::Press, failure: PasteFailure::PressShift },
        ChordStep::Key { key: v, direction: KeyDirection::Click, failure: PasteFailure::ClickV },
        ChordStep::Hold { ms: hold_ms },
        ChordStep::Key { key: PasteKey::Shift, direction: KeyDirection::Release, failure: PasteFailure::ReleaseShift },
        ChordStep::Key { key: m, direction: KeyDirection::Release, failure: PasteFailure::ReleaseModifier },
    ]
}

/// The Insert key of a platform.
pub open spec fn insert_key(platform: PastePlatform) -> PasteKey {
    match platform {
        PastePlatform::Windows => PasteKey::Other(WINDOWS_INSERT_KEYCODE),
        _ => PasteKey::Other(INSERT_KEYCODE),
    }
}

/// Shift+Insert: Shift down, Insert clicked, a hold of `hold_ms`, Shift up.
/// Insert is keycode 0x2D on Windows and 0x76 elsewhere.
pub fn shift_insert_chord(platform: PastePlatform, hold_ms: u64) -> (r: Vec<ChordStep>)
    ensures
        ({
            let insert = insert_key(platform);
            r@ == seq![
                key_step(PasteKey::Shift, KeyDirection::Press, PasteFailure::PressShift),
                key_step(insert, KeyDirection::Click, PasteFailure::ClickInsert),
                ChordStep::Hold { ms: hold_ms },
                key_step(PasteKey::Shift, KeyDirection::Release, PasteFailure::ReleaseShift),
            ]
        }),
{
    let insert = match platform {
        PastePlatform::Windows => PasteKey::Other(WINDOWS_INSERT_KEYCODE),
        _ => PasteKey::Other(INSERT_KEYCODE),
    };
    vec![
        ChordStep::Key { key: PasteKey::Shift, direction: KeyDirection::Press, failure: PasteFailure::PressShift },
        ChordStep::Key { key: insert, direction: KeyDirection::Click, failure: PasteFailure::ClickInsert },
        ChordStep::Hold { ms: hold_ms },
        ChordStep::Key { key: PasteKey::Shift, direction: KeyDirection::Release, failure: PasteFailure::ReleaseShift },
    ]
}

/// What failed, in words.
pub open spec fn failure_text(f: PasteFailure) -> Seq<char> {
    match f {
        PasteFailure::PressModifier => "Failed to press modifier key"@,
        PasteFailure::ClickV => "Failed to click V key"@,
        PasteFailure::ReleaseModifier => "Failed to release modifier key"@,
        PasteFailure::PressShift => "Failed to press Shift key"@,
        PasteFailure::ReleaseShift => "Failed to release Shift key"@,
        PasteFailure::ClickInsert => "Failed to click Insert key"@,
    }
}

pub fn failure_context(f: PasteFailure) -> (r: &'static str)
    ensures
        r@ == failure_text(f),
{
    match f {
        PasteFailure::PressModifier => "Failed to press modifier key",
        PasteFailure::ClickV => "Failed to click V key",
        PasteFailure::ReleaseModifier => "Failed to release modifier key",
        PasteFailure::PressShift => "Failed to press Shift key",
        PasteFailure::ReleaseShift => "Failed to release Shift key",
        PasteFailure::ClickInsert => "Failed to click Insert key",
    }
}

/// `"{context}: {detail}"`.
pub fn failure_message(context: &str, detail: &str) -> (r: String)
    ensures
        r@ == context@ + ": "@ + detail@,
{
    let mut s = String::from_str(context);
    s.append(": ");
    s.append(detail);
    s
}

/// The message for a failed chord step, given the input backend's error.
pub fn chord_failure_message(f: PasteFailure, detail: &str) -> (r: String)
    ensures
        r@ == failure_text(f) + ": "@ + detail@,
{
    failure_message(failure_context(f), detail)
}


/// The paste modifier is Command (Meta) on macOS only, and Control on
/// Windows and Linux; the key clicked is the resolved `V` keycode on macOS,
/// virtual key 0x56 on Windows and the character `v` on Linux.
pub proof fn law_paste_modifier_per_platform(platform: PastePlatform)
    ensures
        paste_keys(platform).0 == PasteKey::Meta <==> platform is MacOs,
        !(platform is MacOs) ==> paste_keys(platform).0 == PasteKey::Control,
        platform is Windows ==> paste_keys(platform).1 == PasteKey::Other(0x56),
        platform is Linux ==> paste_keys(platform).1 == PasteKey::Unicode('v'),
        platform matches PastePlatform::MacOs { command_v_keycode: k } ==> paste_keys(platform).1
            == PasteKey::Other(k),
        platform is Windows ==> insert_key(platform) == PasteKey::Other(0x2d),
        !(platform is Windows) ==> insert_key(platform) == PasteKey::Other(0x76),
{
}

} // verus!
