//! Reverse keyboard maps: from a character to the (keycode, modifiers) that
//! type it under a keyboard layout, and the choice among several layouts when
//! text is typed through a remote-desktop client.
use vstd::prelude::*;
use std::collections::HashMap;
use crate::text::{lemma_char_code_injective, char_from_u32, chars_eq, chars_of, is_control, is_control_spec};

verus! {

broadcast use vstd::std_specs::hash::group_hash_axioms;

/// Modifier bit: hold Shift.
pub const MOD_SHIFT: u8 = 1;

/// Modifier bit: hold Option.
pub const MOD_OPTION: u8 = 2;

/// Number of virtual keycodes that are scanned.
pub const KEYCODE_COUNT: u16 = 128;

/// Keycode of the ANSI `V` key, used when the layout cannot be resolved.
pub const ANSI_V_KEYCODE: u16 = 9;

/// Delay after the active input source was switched, so that the change is
/// seen system-wide before keys are sent.
pub const SWITCH_SETTLE_MS: u64 = 90;

/// Input-source id of the private punctuation layout.
pub const HANDYPUNCT_ID: &'static str = "org.unknown.keylayout.HandyPunct";

/// What translating one keycode under one modifier state produced.
#[derive(Clone, Copy)]
pub struct KeyTranslation {
    pub keycode: u16,
    /// Modifier bits (`MOD_SHIFT`, `MOD_OPTION`) of the state translated.
    pub modifiers: u8,
    /// The UTF-16 unit produced, when the translation succeeded with exactly
    /// one unit.
    pub output: Option<u16>,
}

/// The character a translation contributes to a map: a non-control
/// character given by a single, non-surrogate UTF-16 unit.
pub open spec fn translated_char(t: KeyTranslation) -> Option<char> {
    match t.output {
        Some(u) => if 0xd800 <= u <= 0xdfff {
            None
        } else if is_control_spec(((u as u32) as char)) {
            None
        } else {
            Some((u as u32) as char)
        },
        None => None,
    }
}

/// The reverse map built from translations in order: each character maps
/// to the first (keycode, modifiers) that produces it.
pub open spec fn reverse_map(ts: Seq<KeyTranslation>) -> Map<u32, (u16, u8)>
    decreases ts.len(),
{
    if ts.len() == 0 {
        Map::empty()
    } else {
        let m = reverse_map(ts.drop_last());
        let t = ts.last();
        match translated_char(t) {
            Some(c) => if m.contains_key(c as u32) {
                m
            } else {
                m.insert(c as u32, (t.keycode, t.modifiers))
            },
            None => m,
        }
    }
}

/// What a map gives for a character.
pub open spec fn lookup(m: Map<u32, (u16, u8)>, c: char) -> Option<(u16, u8)> {
    if m.contains_key(c as u32) {
        Some(m[c as u32])
    } else {
        None
    }
}

/// Reverse map of one keyboard layout, keyed by code point.
pub struct KeyMap {
    map: HashMap<u32, (u16, u8)>,
}

impl View for KeyMap {
    type V = Map<u32, (u16, u8)>;

    closed spec fn view(&self) -> Map<u32, (u16, u8)> {
        self.map@
    }
}

impl KeyMap {
    /// The (keycode, modifiers) that type `c`, if any.
    pub fn get(&self, c: char) -> (r: Option<(u16, u8)>)
        ensures
            r == lookup(self@, c),
    {
        match self.map.get(&(c as u32)) {
            Some(v) => Some(*v),
            None => None,
        }
    }

    pub fn is_empty(&self) -> (r: bool)
        ensures
            r == self@.is_empty(),
    {
        self.map.is_empty()
    }
}

/// The modifier states a layout is scanned under, in order: as pairs of the
/// translation modifier state and the modifier bits it stands for.
pub fn translation_modifier_states() -> (r: Vec<(u32, u8)>)
    ensures
        r@ == seq![(0u32, 0u8), (2u32, MOD_SHIFT), (8u32, MOD_OPTION), (10u32, 3u8)],
{
    vec![(0u32, 0u8), (2u32, MOD_SHIFT), (8u32, MOD_OPTION), (10u32, 3u8)]
}

/// The printable character of a translation, if it yields one.
fn translation_char(t: KeyTranslation) -> (r: Option<char>)
    ensures
        r == translated_char(t),
{
    match t.output {
        Some(u) => {
            if 0xd800 <= u && u <= 0xdfff {
                return None;
            }
            let c = char_from_u32(u as u32).unwrap();
            proof {
                vstd::utf8::char_u32_cast(c, u as u32);
            }
            if is_control(c) {
                None
            } else {
                Some(c)
            }
        },
        None => None,
    }
}

/// Builds the reverse map of a layout from its translations, listed keycode
/// by keycode and, for each, modifier state by modifier state; the first
/// translation that yields a character wins.
pub fn build_map(translations: &Vec<KeyTranslation>) -> (r: KeyMap)
    ensures
        r@ == reverse_map(translations@),
{
    let mut map: HashMap<u32, (u16, u8)> = HashMap::new();
    let mut i: usize = 0;
    while i < translations.len()
        invariant
            i <= translations.len(),
            map@ == reverse_map(translations@.take(i as int)),
        decreases translations.len() - i,
    {
        let t = translations[i];
        assert(translations@.take(i + 1).drop_last() == translations@.take(i as int));
        match translation_char(t) {
            Some(c) => {
                if !map.contains_key(&(c as u32)) {
                    map.insert(c as u32, (t.keycode, t.modifiers));
                }
            },
            None => {},
        }
        i = i + 1;
    }
    assert(translations@.take(translations.len() as int) == translations@);
    KeyMap { map }
}


/// Where a layout of a `RemoteTyper` comes from.
#[derive(Debug, Clone, Copy, PartialEq, Eq, Structural)]
pub enum LayoutSource {
    /// The private punctuation layout.
    HandyPunct,
    /// The enabled input source at this position of the list given to `new`.
    Enabled(usize),
}

/// An enabled input source offered to `RemoteTyper::new`.
pub struct EnabledLayout {
    /// Its input-source id, when it could be read.
    pub source_id: Option<String>,
    /// Its reverse map, when it is a keyboard layout with layout data.
    pub keymap: Option<KeyMap>,
}

/// How to type one character.
#[derive(Debug, Clone, Copy, PartialEq, Eq, Structural)]
pub struct KeyChoice {
    pub keycode: u16,
    pub modifiers: u8,
    /// The layout to select first, when it is not the one selected now.
    pub switch_to: Option<LayoutSource>,
}

pub open spec fn is_handypunct_id(id: Option<Seq<char>>) -> bool {
    id == Some(HANDYPUNCT_ID@)
}

/// The layouts taken from the enabled input sources, in order: those with a
/// non-empty map, other than the punctuation layout.
pub open spec fn enabled_layouts(e: Seq<(Option<Seq<char>>, Option<Map<u32, (u16, u8)>>)>) -> Seq<
    (Map<u32, (u16, u8)>, LayoutSource),
>
    decreases e.len(),
{
    if e.len() == 0 {
        seq![]
    } else {
        let prev = enabled_layouts(e.drop_last());
        let (id, m) = e.last();
        if is_handypunct_id(id) {
            prev
        } else {
            match m {
                Some(m) => if m.is_empty() {
                    prev
                } else {
                    prev.push((m, LayoutSource::Enabled((e.len() - 1) as usize)))
                },
                None => prev,
            }
        }
    }
}

/// All layouts of a typer: the punctuation layout first (when its map is
/// not empty), then the enabled ones.
pub open spec fn typer_layouts(
    handypunct: Option<Map<u32, (u16, u8)>>,
    e: Seq<(Option<Seq<char>>, Option<Map<u32, (u16, u8)>>)>,
) -> Seq<(Map<u32, (u16, u8)>, LayoutSource)> {
    let head = match handypunct {
        Some(m) => if m.is_empty() {
            seq![]
        } else {
            seq![(m, LayoutSource::HandyPunct)]
        },
        None => seq![],
    };
    head + enabled_layouts(e)
}

pub open spec fn keymap_view(m: Option<KeyMap>) -> Option<Map<u32, (u16, u8)>> {
    match m {
        Some(m) => Some(m@),
        None => None,
    }
}

pub open spec fn enabled_view(e: Seq<EnabledLayout>) -> Seq<(Option<Seq<char>>, Option<Map<u32, (u16, u8)>>)> {
    e.map_values(
        |x: EnabledLayout|
            (
                match x.source_id {
                    Some(s) => Some(s@),
                    None => None,
                },
                keymap_view(x.keymap),
            ),
    )
}

/// Layout `i` types `c`; with `base_only`, without modifiers.
pub open spec fn offers(ls: Seq<Map<u32, (u16, u8)>>, i: int, c: char, base_only: bool) -> bool {
    &&& ls[i].contains_key(c as u32)
    &&& (base_only ==> ls[i][c as u32].1 == 0)
}

/// The first layout that offers `c`.
pub open spec fn first_offering(ls: Seq<Map<u32, (u16, u8)>>, c: char, base_only: bool) -> Option<
    int,
> {
    if exists|i: int|
        0 <= i < ls.len() && offers(ls, i, c, base_only) && forall|j: int|
            0 <= j < i ==> !offers(ls, j, c, base_only) {
        Some(
            choose|i: int|
                0 <= i < ls.len() && offers(ls, i, c, base_only) && forall|j: int|
                    0 <= j < i ==> !offers(ls, j, c, base_only),
        )
    } else {
        None
    }
}

/// The layout used for `c`: the selected one if `c` is a base key there,
/// else the first where `c` is a base key; when no layout has `c` as a base
/// key, the selected one if it offers `c` with modifiers, else the first that
/// offers it.
pub open spec fn layout_for(ls: Seq<Map<u32, (u16, u8)>>, selected: Option<usize>, c: char) -> Option<
    int,
> {
    match selected {
        Some(s) if s < ls.len() && offers(ls, s as int, c, true) => Some(s as int),
        _ => match first_offering(ls, c, true) {
            Some(i) => Some(i),
            None => match selected {
                Some(s) if s < ls.len() && offers(ls, s as int, c, false) => Some(s as int),
                _ => first_offering(ls, c, false),
            },
        },
    }
}

/// The choice for `c` and the selected layout afterwards.
pub open spec fn typer_step(
    ls: Seq<Map<u32, (u16, u8)>>,
    sources: Seq<LayoutSource>,
    selected: Option<usize>,
    c: char,
) -> (Option<KeyChoice>, Option<usize>) {
    match layout_for(ls, selected, c) {
        None => (None, selected),
        Some(i) => (
            Some(
                KeyChoice {
                    keycode: ls[i][c as u32].0,
                    modifiers: ls[i][c as u32].1,
                    switch_to: if selected == Some(i as usize) {
                        None
                    } else {
                        Some(sources[i])
                    },
                },
            ),
            Some(i as usize),
        ),
    }
}

/// Reverse maps of all usable keyboard layouts, and which of them is
/// selected as the active input source.
pub struct RemoteTyper {
    layouts: Vec<KeyMap>,
    sources: Vec<LayoutSource>,
    selected: Option<usize>,
}

impl RemoteTyper {
    #[verifier::type_invariant]
    closed spec fn wf(self) -> bool {
        &&& self.layouts.len() == self.sources.len()
        &&& self.layouts.len() > 0
        &&& self.selected matches Some(s) ==> s < self.layouts.len()
    }

    /// The reverse maps, in order of preference.
    pub closed spec fn maps(self) -> Seq<Map<u32, (u16, u8)>> {
        self.layouts@.map_values(|m: KeyMap| m@)
    }

    /// Where each layout comes from.
    pub closed spec fn sources(self) -> Seq<LayoutSource> {
        self.sources@
    }

    /// The layout selected by this typer so far, if any.
    pub closed spec fn selected(self) -> Option<usize> {
        self.selected
    }

    /// A typer over the punctuation layout (if any) and the enabled input
    /// sources; `None` exactly when no layout has a non-empty map, so a typer
    /// always has a layout. Nothing is selected yet.
    pub fn new(handypunct: Option<KeyMap>, enabled: Vec<EnabledLayout>) -> (r: Option<RemoteTyper>)
        ensures
            ({
                let ls = typer_layouts(keymap_view(handypunct), enabled_view(enabled@));
                &&& (r is None <==> ls.len() == 0)
                &&& match r {
                    None => ls.len() == 0,
                    Some(t) => {
                        &&& t.maps() == ls.map_values(
                            |p: (Map<u32, (u16, u8)>, LayoutSource)| p.0,
                        )
                        &&& t.sources() == ls.map_values(
                            |p: (Map<u32, (u16, u8)>, LayoutSource)| p.1,
                        )
                        &&& t.selected() is None
                        &&& typer_wf(t.maps(), t.sources(), t.selected())
                    },
                }
            }),
    {
        let ghost hv = keymap_view(handypunct);
        let ghost orig = enabled@;
        let ghost ev = enabled_view(enabled@);
        let mut layouts: Vec<KeyMap> = Vec::new();
        let mut sources: Vec<LayoutSource> = Vec::new();
        match handypunct {
            Some(m) => {
                if !m.is_empty() {
                    layouts.push(m);
                    sources.push(LayoutSource::HandyPunct);
                }
            },
            None => {},
        }
        assert(ev.take(0) == Seq::<(Option<Seq<char>>, Option<Map<u32, (u16, u8)>>)>::empty());
        let hp = chars_of(HANDYPUNCT_ID);
        let mut rest = enabled;
        let n = rest.len();
        let mut i: usize = 0;
        while i < n
            invariant
                i <= n,
                n == orig.len(),
                ev == enabled_view(orig),
                rest@ == orig.skip(i as int),
                hp@ == HANDYPUNCT_ID@,
                layouts@.map_values(|m: KeyMap| m@) == typer_layouts(hv, ev.take(i as int)).map_values(
                    |p: (Map<u32, (u16, u8)>, LayoutSource)| p.0,
                ),
                sources@ == typer_layouts(hv, ev.take(i as int)).map_values(
                    |p: (Map<u32, (u16, u8)>, LayoutSource)| p.1,
                ),
            decreases n - i,
        {
            let ghost lb = layouts@;
            let ghost sb = sources@;
            let ghost t = typer_layouts(hv, ev.take(i as int));
            let e = rest.remove(0);
            assert(e == orig[i as int]);
            assert(rest@ == orig.skip(i + 1));
            assert(ev.take(i + 1).drop_last() == ev.take(i as int));
            assert(ev.take(i + 1).last() == ev[i as int]);
            let is_hp = match &e.source_id {
                Some(id) => chars_eq(&chars_of(id.as_str()), &hp),
                None => false,
            };
            assert(is_hp == is_handypunct_id(ev[i as int].0));
            if !is_hp {
                match e.keymap {
                    Some(m) => {
                        if !m.is_empty() {
                            let ghost mv = m@;
                            layouts.push(m);
                            sources.push(LayoutSource::Enabled(i));
                            assert(typer_layouts(hv, ev.take(i + 1)) == t.push(
                                (mv, LayoutSource::Enabled(i)),
                            ));
                            assert(layouts@.map_values(|m: KeyMap| m@) == lb.map_values(
                                |m: KeyMap| m@,
                            ).push(mv));
                        } else {
                            assert(typer_layouts(hv, ev.take(i + 1)) == t);
                        }
                    },
                    None => {
                        assert(typer_layouts(hv, ev.take(i + 1)) == t);
                    },
                }
            } else {
                assert(typer_layouts(hv, ev.take(i + 1)) == t);
            }
            i = i + 1;
        }
        assert(ev.take(n as int) == ev);
        if layouts.len() == 0 {
            return None;
        }
        Some(RemoteTyper { layouts, sources, selected: None })
    }

    /// The first layout offering `c` (as a base key with `base_only`).
    fn first_offering_index(&self, c: char, base_only: bool) -> (r: Option<usize>)
        ensures
            match r {
                Some(i) => first_offering(self.maps(), c, base_only) == Some(i as int) && i
                    < self.maps().len(),
                None => first_offering(self.maps(), c, base_only) is None,
            },
    {
        let ghost ls = self.maps();
        let mut i: usize = 0;
        while i < self.layouts.len()
            invariant
                i <= self.layouts.len(),
                ls == self.maps(),
                ls.len() == self.layouts.len(),
                forall|j: int| 0 <= j < i ==> !offers(ls, j, c, base_only),
            decreases self.layouts.len() - i,
        {
            assert(ls[i as int] == self.layouts@[i as int]@);
            let hit = match self.layouts[i].get(c) {
                Some((_, m)) => !base_only || m == 0,
                None => false,
            };
            if hit {
                proof {
                    lemma_first_offering_is(ls, c, base_only, i as int);
                }
                return Some(i);
            }
            i = i + 1;
        }
        None
    }

    /// How to type `c`: a layout where `c` needs no modifier is preferred
    /// (the selected one if it is such, else the first such), because the
    /// remote side drops Shift-typed punctuation; only when no layout has `c`
    /// as a base key is a shifted mapping used, from the selected layout if it
    /// has one, else from the first layout that offers `c`. That layout becomes
    /// the selected one; the result says when it must be switched to first.
    pub fn get(&mut self, c: char) -> (r: Option<KeyChoice>)
        ensures
            final(self).maps() == old(self).maps(),
            final(self).sources() == old(self).sources(),
            typer_wf(final(self).maps(), final(self).sources(), final(self).selected()),
            (r, final(self).selected()) == typer_step(
                old(self).maps(),
                old(self).sources(),
                old(self).selected(),
                c,
            ),
    {
        proof {
            use_type_invariant(&*self);
        }
        let ghost ls = self.maps();
        let mut idx: Option<usize> = None;
        match self.selected {
            Some(s) => {
                assert(ls[s as int] == self.layouts@[s as int]@);
                if let Some((_, m)) = self.layouts[s].get(c) {
                    if m == 0 {
                        idx = Some(s);
                    }
                }
            },
            None => {},
        }
        if idx.is_none() {
            idx = self.first_offering_index(c, true);
        }
        if idx.is_none() {
            match self.selected {
                Some(s) => {
                    if self.layouts[s].get(c).is_some() {
                        idx = Some(s);
                    }
                },
                None => {},
            }
        }
        if idx.is_none() {
            idx = self.first_offering_index(c, false);
        }
        let r = match idx {
            None => None,
            Some(i) => {
                assert(layout_for(ls, self.selected, c) == Some(i as int));
                let switch_to = match self.selected {
                    Some(s) => if s == i {
                        None
                    } else {
                        Some(self.sources[i])
                    },
                    None => Some(self.sources[i]),
                };
                assert(ls[i as int] == self.layouts@[i as int]@);
                let (keycode, modifiers) = self.layouts[i].get(c).unwrap();
                self.selected = Some(i);
                Some(KeyChoice { keycode, modifiers, switch_to })
            },
        };
        proof {
            use_type_invariant(&*self);
        }
        r
    }
}

/// A layout that offers `c`, with none before it offering `c`, is the first.
proof fn lemma_first_offering_is(ls: Seq<Map<u32, (u16, u8)>>, c: char, base_only: bool, i: int)
    requires
        0 <= i < ls.len(),
        offers(ls, i, c, base_only),
        forall|j: int| 0 <= j < i ==> !offers(ls, j, c, base_only),
    ensures
        first_offering(ls, c, base_only) == Some(i),
{
    let k = choose|k: int|
        0 <= k < ls.len() && offers(ls, k, c, base_only) && forall|j: int|
            0 <= j < k ==> !offers(ls, j, c, base_only);
    assert(k == i);
}

/// A reverse map types exactly the characters that some translation yields,
/// and each with the first translation that yields it.
pub proof fn law_first_translation_wins(ts: Seq<KeyTranslation>, c: char)
    ensures
        reverse_map(ts).contains_key(c as u32) <==> exists|i: int|
            0 <= i < ts.len() && translated_char(#[trigger] ts[i]) == Some(c),
        forall|i: int|
            0 <= i < ts.len() && translated_char(#[trigger] ts[i]) == Some(c) && (forall|j: int|
                0 <= j < i ==> translated_char(#[trigger] ts[j]) != Some(c)) ==> reverse_map(ts)[c
                as u32] == (ts[i].keycode, ts[i].modifiers),
    decreases ts.len(),
{
    if ts.len() > 0 {
        let pre = ts.drop_last();
        law_first_translation_wins(pre, c);
        let t = ts.last();
        let n = ts.len() - 1;
        assert(ts[n] == t);
        assert forall|i: int| 0 <= i < n implies #[trigger] ts[i] == pre[i] by {}
        match translated_char(t) {
            Some(d) => {
                if d as u32 == c as u32 {
                    lemma_char_code_injective(d, c);
                }
            },
            None => {},
        }
        if exists|i: int| 0 <= i < ts.len() && translated_char(#[trigger] ts[i]) == Some(c) {
            let i = choose|i: int| 0 <= i < ts.len() && translated_char(#[trigger] ts[i]) == Some(c);
            if i < n {
                assert(translated_char(pre[i]) == Some(c));
            }
        }
        assert forall|i: int|
            0 <= i < ts.len() && translated_char(#[trigger] ts[i]) == Some(c) && (forall|j: int|
                0 <= j < i ==> translated_char(#[trigger] ts[j]) != Some(c)) implies reverse_map(
            ts,
        )[c as u32] == (ts[i].keycode, ts[i].modifiers) by {
            if i < n {
                assert(forall|j: int| 0 <= j < i ==> translated_char(#[trigger] pre[j]) != Some(c)) by {
                    assert forall|j: int| 0 <= j < i implies translated_char(#[trigger] pre[j])
                        != Some(c) by {
                        assert(ts[j] == pre[j]);
                    }
                }
                assert(translated_char(pre[i]) == Some(c));
            } else {
                assert(forall|j: int| 0 <= j < n ==> translated_char(#[trigger] pre[j]) != Some(c)) by {
                    assert forall|j: int| 0 <= j < n implies translated_char(#[trigger] pre[j])
                        != Some(c) by {
                        assert(ts[j] == pre[j]);
                    }
                }
            }
        }
    }
}

/// The layouts, sources and selection of a well-formed typer.
pub open spec fn typer_wf(ls: Seq<Map<u32, (u16, u8)>>, sources: Seq<LayoutSource>, selected: Option<usize>) -> bool {
    &&& ls.len() == sources.len()
    &&& 0 < ls.len() <= usize::MAX
    &&& selected matches Some(s) ==> s < ls.len()
}

proof fn lemma_first_offering_offers(ls: Seq<Map<u32, (u16, u8)>>, c: char, base_only: bool)
    ensures
        first_offering(ls, c, base_only) matches Some(i) ==> 0 <= i < ls.len() && offers(
            ls,
            i,
            c,
            base_only,
        ) && forall|j: int| 0 <= j < i ==> !offers(ls, j, c, base_only),
{
}

/// Typing the same character again uses the same key and needs no layout
/// switch: the layout chosen the first time stays selected.
pub proof fn law_repeated_char_needs_no_switch(
    ls: Seq<Map<u32, (u16, u8)>>,
    sources: Seq<LayoutSource>,
    selected: Option<usize>,
    c: char,
)
    requires
        typer_wf(ls, sources, selected),
    ensures
        ({
            let (first, sel1) = typer_step(ls, sources, selected, c);
            let (second, sel2) = typer_step(ls, sources, sel1, c);
            first matches Some(k) ==> {
                &&& second == Some(KeyChoice { switch_to: None, ..k })
                &&& sel2 == sel1
            }
        }),
{
    lemma_first_offering_offers(ls, c, true);
    lemma_first_offering_offers(ls, c, false);
    if let Some(i) = layout_for(ls, selected, c) {
        assert(0 <= i < ls.len());
        assert(offers(ls, i, c, false));
        assert((i as usize) as int == i);
        assert(layout_for(ls, Some(i as usize), c) == Some(i));
    }
}

/// The selected layout is kept when the character is a base key there, and
/// also when it types the character only with modifiers but no layout has the
/// character as a base key.
pub proof fn law_selected_layout_kept(
    ls: Seq<Map<u32, (u16, u8)>>,
    sources: Seq<LayoutSource>,
    s: usize,
    c: char,
)
    requires
        typer_wf(ls, sources, Some(s)),
        ls[s as int].contains_key(c as u32),
        ls[s as int][c as u32].1 == 0 || forall|j: int| 0 <= j < ls.len() ==> !offers(ls, j, c, true),
    ensures
        typer_step(ls, sources, Some(s), c).0 == Some(
            KeyChoice {
                keycode: ls[s as int][c as u32].0,
                modifiers: ls[s as int][c as u32].1,
                switch_to: None,
            },
        ),
        typer_step(ls, sources, Some(s), c).1 == Some(s),
{
    lemma_first_offering_offers(ls, c, true);
}

/// Whenever some layout has the character as a base key, the character is
/// typed without modifiers, whatever layout is selected: from the selected
/// layout if it is such a layout, else from the first such layout.
pub proof fn law_base_key_preferred(
    ls: Seq<Map<u32, (u16, u8)>>,
    sources: Seq<LayoutSource>,
    selected: Option<usize>,
    c: char,
    b: int,
)
    requires
        typer_wf(ls, sources, selected),
        0 <= b < ls.len(),
        ls[b].contains_key(c as u32),
        ls[b][c as u32].1 == 0,
    ensures
        typer_step(ls, sources, selected, c).0 matches Some(k) && k.modifiers == 0,
        typer_step(ls, sources, selected, c).1 == (match selected {
            Some(s) if offers(ls, s as int, c, true) => Some(s),
            _ => match first_offering(ls, c, true) {
                Some(i) => Some(i as usize),
                None => None,
            },
        }),
        first_offering(ls, c, true) is Some,
{
    lemma_first_offering_offers(ls, c, true);
    assert(offers(ls, b, c, true));
    lemma_exists_first_offering(ls, c, true, b);
}

/// Some layout offers `c`, so a first one exists.
proof fn lemma_exists_first_offering(ls: Seq<Map<u32, (u16, u8)>>, c: char, base_only: bool, b: int)
    requires
        0 <= b < ls.len(),
        offers(ls, b, c, base_only),
    ensures
        first_offering(ls, c, base_only) is Some,
    decreases b,
{
    if forall|j: int| 0 <= j < b ==> !offers(ls, j, c, base_only) {
        lemma_first_offering_is(ls, c, base_only, b);
    } else {
        let j = choose|j: int| 0 <= j < b && offers(ls, j, c, base_only);
        lemma_exists_first_offering(ls, c, base_only, j);
    }
}

/// The first keycode (below `KEYCODE_COUNT`) whose translation with Command
/// held is the single character `v`; `outputs[k]` is what keycode `k` gave.
pub fn find_keycode(outputs: &Vec<Option<u16>>) -> (r: Option<u16>)
    ensures
        match r {
            Some(k) => k < KEYCODE_COUNT && k < outputs.len() && outputs[k as int] == Some(0x76u16)
                && forall|j: int| 0 <= j < k ==> outputs[j] != Some(0x76u16),
            None => forall|j: int|
                0 <= j < outputs.len() && j < KEYCODE_COUNT ==> outputs[j] != Some(0x76u16),
        },
{
    let mut k: u16 = 0;
    while k < KEYCODE_COUNT && (k as usize) < outputs.len()
        invariant
            k <= KEYCODE_COUNT,
            forall|j: int| 0 <= j < k ==> outputs[j] != Some(0x76u16),
        decreases KEYCODE_COUNT - k,
    {
        if outputs[k as usize] == Some(0x76u16) {
            return Some(k);
        }
        k = k + 1;
    }
    None
}

/// The keycode sent for Cmd+V: the one resolved for the active layout, or
/// the ANSI `V` key when it could not be resolved.
pub fn command_v_keycode(resolved: Option<u16>) -> (r: u32)
    ensures
        r == match resolved {
            Some(k) => k as u32,
            None => ANSI_V_KEYCODE as u32,
        },
{
    match resolved {
        Some(k) => k as u32,
        None => ANSI_V_KEYCODE as u32,
    }
}


/// A translation yields a character exactly when its output is one UTF-16
/// unit that is neither a surrogate nor a control character (U+0000 to
/// U+001F, U+007F to U+009F); the character is that unit. A space bar, say,
/// yields `' '`.
pub proof fn law_printable_translation_yields_its_char(t: KeyTranslation)
    ensures
        translated_char(t) is Some <==> (t.output matches Some(u) && !(0xd800 <= u <= 0xdfff) && 0x20
            <= u && !(0x7f <= u <= 0x9f)),
        translated_char(t) matches Some(c) ==> t.output == Some((c as u32) as u16),
{
    if let Some(u) = t.output {
        if !(0xd800 <= u <= 0xdfff) {
            let c = (u as u32) as char;
            assert((c as u32) == (u as u32));
        }
    }
}

/// Every translation whose output is a printable unit puts its character in
/// the reverse map.
pub proof fn law_printable_output_is_mapped(ts: Seq<KeyTranslation>, i: int, u: u16)
    requires
        0 <= i < ts.len(),
        ts[i].output == Some(u),
        !(0xd800 <= u <= 0xdfff),
        0x20 <= u,
        !(0x7f <= u <= 0x9f),
    ensures
        reverse_map(ts).contains_key(u as u32),
{
    law_printable_translation_yields_its_char(ts[i]);
    let c = translated_char(ts[i])->0;
    law_first_translation_wins(ts, c);
    assert(c as u32 == u as u32);
}

} // verus!
