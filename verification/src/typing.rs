//! Typing text as real keystroke events, for delivery through remote-desktop
//! clients, which forward keycodes rather than the Unicode payload of
//! synthetic events.
//!
//! The functions here plan the events; posting them is the caller's work.
use vstd::prelude::*;
use crate::keymap::{KeyChoice, LayoutSource, RemoteTyper, typer_step, MOD_OPTION, MOD_SHIFT, SWITCH_SETTLE_MS};
use crate::text::chars_of;

verus! {

/// Keycode of Return.
pub const RETURN_KEYCODE: u16 = 36;

/// Keycode of the left Shift key.
pub const SHIFT_KEYCODE: u16 = 56;

/// Keycode of the left Option key.
pub const OPTION_KEYCODE: u16 = 58;

/// Gap between a modifier and the key it modifies, so that the remote side
/// registers the modifier first.
pub const MOD_SETTLE_MS: u64 = 8;

/// Event flags: none.
pub const FLAG_NONE: u64 = 0;

/// Event flags: Shift held.
pub const FLAG_SHIFT: u64 = 0x0002_0000;

/// Event flags: Option held.
pub const FLAG_OPTION: u64 = 0x0008_0000;

/// The UTF-16 encoding of one character.
#[derive(Debug, Clone, Copy, PartialEq, Eq, Structural)]
pub enum Utf16Units {
    One(u16),
    Two(u16, u16),
}

/// One step of typing.
#[derive(Debug, Clone, Copy, PartialEq, Eq, Structural)]
pub enum TypingAction {
    /// Post a keyboard event.
    Post { keycode: u16, key_down: bool, flags: u64, text: Option<Utf16Units> },
    /// Wait this many milliseconds.
    Pause { ms: u64 },
    /// Make this layout the active input source.
    SelectLayout { layout: LayoutSource },
}

/// The events for a remote typing run and how many characters had no key.
pub struct RemoteTypingPlan {
    pub actions: Vec<TypingAction>,
    /// Characters typed through the Unicode fallback.
    pub unmapped: usize,
}

/// UTF-16 encoding (as `char::encode_utf16` writes it).
pub open spec fn utf16_of(c: char) -> Utf16Units {
    let u = c as u32;
    if u < 0x10000 {
        Utf16Units::One(u as u16)
    } else {
        let v = (u - 0x10000) as u32;
        Utf16Units::Two((0xd800 + v / 0x400) as u16, (0xdc00 + v % 0x400) as u16)
    }
}

pub open spec fn post(keycode: u16, key_down: bool, flags: u64, text: Option<Utf16Units>) -> TypingAction {
    TypingAction::Post { keycode, key_down, flags, text }
}

/// Return pressed and released.
pub open spec fn newline_actions() -> Seq<TypingAction> {
    seq![post(RETURN_KEYCODE, true, FLAG_NONE, None), post(RETURN_KEYCODE, false, FLAG_NONE, None)]
}

/// Keycode 0 carrying the character as its Unicode string, down and up.
pub open spec fn unicode_actions(c: char) -> Seq<TypingAction> {
    seq![post(0, true, FLAG_NONE, Some(utf16_of(c))), post(0, false, FLAG_NONE, Some(utf16_of(c)))]
}

pub open spec fn pause_if(cond: bool, ms: u64) -> Seq<TypingAction> {
    if cond {
        seq![TypingAction::Pause { ms }]
    } else {
        seq![]
    }
}

pub open spec fn post_if(cond: bool, keycode: u16, key_down: bool, flags: u64) -> Seq<TypingAction> {
    if cond {
        seq![post(keycode, key_down, flags, None)]
    } else {
        seq![]
    }
}

pub open spec fn has_shift(modifiers: u8) -> bool {
    modifiers & MOD_SHIFT != 0
}

pub open spec fn has_option(modifiers: u8) -> bool {
    modifiers & MOD_OPTION != 0
}

pub open spec fn key_flags(modifiers: u8) -> u64 {
    ((if has_shift(modifiers) {
        FLAG_SHIFT
    } else {
        FLAG_NONE
    }) + (if has_option(modifiers) {
        FLAG_OPTION
    } else {
        FLAG_NONE
    })) as u64
}

/// A key typed with its modifiers held as real key events: modifiers down,
/// a settle pause, the key down and up, a settle pause, modifiers up.
pub open spec fn keyed_actions(keycode: u16, modifiers: u8) -> Seq<TypingAction> {
    let shift = has_shift(modifiers);
    let option = has_option(modifiers);
    let flags = key_flags(modifiers);
    post_if(shift, SHIFT_KEYCODE, true, FLAG_SHIFT) + post_if(option, OPTION_KEYCODE, true, flags)
        + pause_if(shift || option, MOD_SETTLE_MS) + seq![
        post(keycode, true, flags, None),
        post(keycode, false, flags, None),
    ] + pause_if(shift || option, MOD_SETTLE_MS) + post_if(
        option,
        OPTION_KEYCODE,
        false,
        if shift {
            FLAG_SHIFT
        } else {
            FLAG_NONE
        },
    ) + post_if(shift, SHIFT_KEYCODE, false, FLAG_NONE)
}

/// Selecting the layout a choice needs, with the settle pause.
pub open spec fn switch_actions(choice: KeyChoice) -> Seq<TypingAction> {
    match choice.switch_to {
        Some(l) => seq![TypingAction::SelectLayout { layout: l }, TypingAction::Pause { ms: SWITCH_SETTLE_MS }],
        None => seq![],
    }
}

pub open spec fn is_line_break(c: char) -> bool {
    c == '\n' || c == '\r'
}

/// The state of the reverse maps used while typing: none, or the maps,
/// their sources and the selected layout.
pub open spec fn typer_state(t: Option<RemoteTyper>) -> Option<(Seq<Map<u32, (u16, u8)>>, Seq<LayoutSource>, Option<usize>)> {
    match t {
        Some(t) => Some((t.maps(), t.sources(), t.selected())),
        None => None,
    }
}

/// The events that type `text`, the number of characters typed through the
/// Unicode fallback, and the reverse-map state afterwards.
pub open spec fn remote_plan(
    text: Seq<char>,
    st: Option<(Seq<Map<u32, (u16, u8)>>, Seq<LayoutSource>, Option<usize>)>,
    delay: u64,
) -> (Seq<TypingAction>, nat, Option<(Seq<Map<u32, (u16, u8)>>, Seq<LayoutSource>, Option<usize>)>)
    decreases text.len(),
{
    if text.len() == 0 {
        (seq![], 0, st)
    } else {
        let (acts, un, st1) = remote_plan(text.drop_last(), st, delay);
        let c = text.last();
        let (step, un2, st2) = if is_line_break(c) {
            (newline_actions(), un, st1)
        } else {
            match st1 {
                Some((ls, srcs, sel)) => {
                    let (choice, sel2) = typer_step(ls, srcs, sel, c);
                    match choice {
                        Some(ch) => (
                            switch_actions(ch) + keyed_actions(ch.keycode, ch.modifiers),
                            un,
                            Some((ls, srcs, sel2)),
                        ),
                        None => (unicode_actions(c), un + 1, Some((ls, srcs, sel2))),
                    }
                },
                None => (unicode_actions(c), un + 1, st1),
            }
        };
        (acts + step + pause_if(delay > 0, delay), un2, st2)
    }
}

/// The events that type `text` as Unicode characters.
pub open spec fn direct_plan(text: Seq<char>, delay: u64) -> Seq<TypingAction>
    decreases text.len(),
{
    if text.len() == 0 {
        seq![]
    } else {
        let c = text.last();
        direct_plan(text.drop_last(), delay) + (if is_line_break(c) {
            newline_actions()
        } else {
            unicode_actions(c)
        }) + pause_if(delay > 0, delay)
    }
}

pub fn encode_utf16(c: char) -> (r: Utf16Units)
    ensures
        r == utf16_of(c),
{
    let u = c as u32;
    if u < 0x10000 {
        Utf16Units::One(u as u16)
    } else {
        let v = u - 0x10000;
        assert(v <= 0x10ffff - 0x10000) by {
            vstd::utf8::char_is_scalar(c);
        }
        Utf16Units::Two((0xd800 + v / 0x400) as u16, (0xdc00 + v % 0x400) as u16)
    }
}

fn push_post(v: &mut Vec<TypingAction>, keycode: u16, key_down: bool, flags: u64, text: Option<Utf16Units>)
    ensures
        final(v)@ == old(v)@.push(post(keycode, key_down, flags, text)),
{
    v.push(TypingAction::Post { keycode, key_down, flags, text });
}

fn push_newline(v: &mut Vec<TypingAction>)
    ensures
        final(v)@ == old(v)@ + newline_actions(),
{
    push_post(v, RETURN_KEYCODE, true, FLAG_NONE, None);
    push_post(v, RETURN_KEYCODE, false, FLAG_NONE, None);
}

fn push_unicode(v: &mut Vec<TypingAction>, c: char)
    ensures
        final(v)@ == old(v)@ + unicode_actions(c),
{
    let units = encode_utf16(c);
    push_post(v, 0, true, FLAG_NONE, Some(units));
    push_post(v, 0, false, FLAG_NONE, Some(units));
}

fn push_pause_if(v: &mut Vec<TypingAction>, cond: bool, ms: u64)
    ensures
        final(v)@ == old(v)@ + pause_if(cond, ms),
{
    if cond {
        v.push(TypingAction::Pause { ms });
    }
}

fn push_post_if(v: &mut Vec<TypingAction>, cond: bool, keycode: u16, key_down: bool, flags: u64)
    ensures
        final(v)@ == old(v)@ + post_if(cond, keycode, key_down, flags),
{
    if cond {
        push_post(v, keycode, key_down, flags, None);
    }
}

fn push_keyed(v: &mut Vec<TypingAction>, keycode: u16, modifiers: u8)
    ensures
        final(v)@ == old(v)@ + keyed_actions(keycode, modifiers),
{
    let shift = modifiers & MOD_SHIFT != 0;
    let option = modifiers & MOD_OPTION != 0;
    let flags: u64 = (if shift {
        FLAG_SHIFT
    } else {
        FLAG_NONE
    }) + (if option {
        FLAG_OPTION
    } else {
        FLAG_NONE
    });
    let ghost v0 = v@;
    push_post_if(v, shift, SHIFT_KEYCODE, true, FLAG_SHIFT);
    push_post_if(v, option, OPTION_KEYCODE, true, flags);
    push_pause_if(v, shift || option, MOD_SETTLE_MS);
    push_post(v, keycode, true, flags, None);
    push_post(v, keycode, false, flags, None);
    push_pause_if(v, shift || option, MOD_SETTLE_MS);
    push_post_if(
        v,
        option,
        OPTION_KEYCODE,
        false,
        if shift {
            FLAG_SHIFT
        } else {
            FLAG_NONE
        },
    );
    push_post_if(v, shift, SHIFT_KEYCODE, false, FLAG_NONE);
    assert(v@ == v0 + keyed_actions(keycode, modifiers));
}

fn push_switch(v: &mut Vec<TypingAction>, choice: KeyChoice)
    ensures
        final(v)@ == old(v)@ + switch_actions(choice),
{
    match choice.switch_to {
        Some(l) => {
            v.push(TypingAction::SelectLayout { layout: l });
            v.push(TypingAction::Pause { ms: SWITCH_SETTLE_MS });
        },
        None => {},
    }
}

/// Plans typing `text` through a remote-desktop client. Each character is
/// typed with the key that produces it in one of the layouts of `typer`,
/// switching layouts as `RemoteTyper::get` decides; line breaks are typed as
/// Return; characters without a key are sent as Unicode strings and
/// counted. A pause of `per_char_delay_ms` follows each character when it is
/// not zero.
pub fn plan_remote_typing(text: &str, typer: &mut Option<RemoteTyper>, per_char_delay_ms: u64) -> (r:
    RemoteTypingPlan)
    ensures
        ({
            let (acts, un, st) = remote_plan(text@, typer_state(*old(typer)), per_char_delay_ms);
            &&& r.actions@ == acts
            &&& r.unmapped == un
            &&& typer_state(*final(typer)) == st
        }),
{
    let cs = chars_of(text);
    let mut actions: Vec<TypingAction> = Vec::new();
    let mut unmapped: usize = 0;
    let ghost st0 = typer_state(*typer);
    let mut i: usize = 0;
    while i < cs.len()
        invariant
            i <= cs.len(),
            cs@ == text@,
            unmapped <= i,
            ({
                let (acts, un, st) = remote_plan(cs@.take(i as int), st0, per_char_delay_ms);
                &&& actions@ == acts
                &&& unmapped == un
                &&& typer_state(*typer) == st
            }),
        decreases cs.len() - i,
    {
        let c = cs[i];
        assert(cs@.take(i + 1).drop_last() == cs@.take(i as int));
        if c == '\n' || c == '\r' {
            push_newline(&mut actions);
        } else {
            match typer {
                Some(t) => {
                    let choice = t.get(c);
                    match choice {
                        Some(ch) => {
                            push_switch(&mut actions, ch);
                            push_keyed(&mut actions, ch.keycode, ch.modifiers);
                        },
                        None => {
                            push_unicode(&mut actions, c);
                            unmapped = unmapped + 1;
                        },
                    }
                },
                None => {
                    push_unicode(&mut actions, c);
                    unmapped = unmapped + 1;
                },
            }
        }
        push_pause_if(&mut actions, per_char_delay_ms > 0, per_char_delay_ms);
        i = i + 1;
    }
    assert(cs@.take(cs.len() as int) == cs@);
    RemoteTypingPlan { actions, unmapped }
}

/// Plans typing `text` as Unicode characters (keycode 0 carrying the
/// character), independent of any keyboard layout; line breaks are typed as
/// Return. A pause of `per_char_delay_ms` follows each character when it is
/// not zero.
pub fn plan_direct_typing(text: &str, per_char_delay_ms: u64) -> (r: Vec<TypingAction>)
    ensures
        r@ == direct_plan(text@, per_char_delay_ms),
{
    let cs = chars_of(text);
    let mut actions: Vec<TypingAction> = Vec::new();
    let mut i: usize = 0;
    while i < cs.len()
        invariant
            i <= cs.len(),
            cs@ == text@,
            actions@ == direct_plan(cs@.take(i as int), per_char_delay_ms),
        decreases cs.len() - i,
    {
        let c = cs[i];
        assert(cs@.take(i + 1).drop_last() == cs@.take(i as int));
        if c == '\n' || c == '\r' {
            push_newline(&mut actions);
        } else {
            push_unicode(&mut actions, c);
        }
        push_pause_if(&mut actions, per_char_delay_ms > 0, per_char_delay_ms);
        i = i + 1;
    }
    assert(cs@.take(cs.len() as int) == cs@);
    actions
}

/// Without reverse keyboard maps, remote typing sends exactly what direct
/// Unicode typing sends, and every character that is not a line break is
/// counted as typed through the fallback.
pub proof fn law_remote_without_maps_is_direct(text: Seq<char>, delay: u64)
    ensures
        remote_plan(text, None, delay).0 == direct_plan(text, delay),
        remote_plan(text, None, delay).1 == text.filter(|c: char| !is_line_break(c)).len(),
        remote_plan(text, None, delay).2 is None,
    decreases text.len(),
{
    reveal_with_fuel(Seq::<_>::filter, 1);
    if text.len() > 0 {
        law_remote_without_maps_is_direct(text.drop_last(), delay);
    }
}

/// Direct Unicode typing never switches the keyboard layout.
pub proof fn law_direct_typing_never_switches_layout(text: Seq<char>, delay: u64)
    ensures
        forall|k: int|
            0 <= k < direct_plan(text, delay).len() ==> !(#[trigger] direct_plan(text, delay)[k] is SelectLayout),
    decreases text.len(),
{
    if text.len() > 0 {
        law_direct_typing_never_switches_layout(text.drop_last(), delay);
        let pre = direct_plan(text.drop_last(), delay);
        let c = text.last();
        let mid = if is_line_break(c) {
            newline_actions()
        } else {
            unicode_actions(c)
        };
        let all = pre + mid + pause_if(delay > 0, delay);
        assert(direct_plan(text, delay) == all);
        assert forall|k: int| 0 <= k < all.len() implies !(#[trigger] all[k] is SelectLayout) by {
            if k < pre.len() {
                assert(all[k] == pre[k]);
            }
        }
    }
}

/// Typing through a remote-desktop client: this build has no keystroke
/// injection, so it always fails with a message saying so.
pub fn type_text_unicode(text: &str, per_char_delay_ms: u64) -> (r: Result<(), String>)
    ensures
        r matches Err(e) && e@ == "Remote-desktop typing is only implemented on macOS"@,
{
    Err(String::from_str("Remote-desktop typing is only implemented on macOS"))
}

/// Direct Unicode typing: this build has no keystroke injection, so it
/// always fails with a message saying so.
pub fn type_text_direct_unicode(text: &str, per_char_delay_ms: u64) -> (r: Result<(), String>)
    ensures
        r matches Err(e) && e@ == "Direct Unicode typing is only implemented on macOS"@,
{
    Err(String::from_str("Direct Unicode typing is only implemented on macOS"))
}


/// A line break is always typed as Return pressed and released (keycode 36,
/// no flags, no text), followed by the per-character pause, whatever reverse
/// maps are at hand; it is not counted as unmapped and leaves the map state
/// as it was.
pub proof fn law_line_break_is_return(
    text: Seq<char>,
    st: Option<(Seq<Map<u32, (u16, u8)>>, Seq<LayoutSource>, Option<usize>)>,
    delay: u64,
    c: char,
)
    requires
        c == '\n' || c == '\r',
    ensures
        ({
            let (acts, un, st1) = remote_plan(text, st, delay);
            remote_plan(text.push(c), st, delay) == (
                acts + seq![
                    TypingAction::Post { keycode: 36, key_down: true, flags: 0, text: None },
                    TypingAction::Post { keycode: 36, key_down: false, flags: 0, text: None },
                ] + (if delay > 0 {
                    seq![TypingAction::Pause { ms: delay }]
                } else {
                    seq![]
                }),
                un,
                st1,
            )
        }),
{
    assert(text.push(c).drop_last() == text);
    assert(text.push(c).last() == c);
}


/// Direct typing also sends a line break as Return pressed and released,
/// followed by the per-character pause.
pub proof fn law_direct_line_break_is_return(text: Seq<char>, delay: u64, c: char)
    requires
        c == '\n' || c == '\r',
    ensures
        direct_plan(text.push(c), delay) == direct_plan(text, delay) + seq![
            TypingAction::Post { keycode: 36, key_down: true, flags: 0, text: None },
            TypingAction::Post { keycode: 36, key_down: false, flags: 0, text: None },
        ] + (if delay > 0 {
            seq![TypingAction::Pause { ms: delay }]
        } else {
            seq![]
        }),
{
    assert(text.push(c).drop_last() == text);
    assert(text.push(c).last() == c);
}

} // verus!
