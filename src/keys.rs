//! Keyboard shortcuts for the debugging tools: how they are written, what they do,
//! and why one could not be read.
//!
//! A shortcut is written as modifiers and a key joined by dashes, such as
//! `C-p` or `A-S-Esc`: `A` is Alt, `C` is Command, `S` is Shift, and a single
//! upper-case letter as the key implies Shift.
use vstd::prelude::*;

verus! {

#[verifier::external_type_specification]
#[verifier::external_body]
pub struct ExKey(egui::Key);

/// The key that egui knows by the given name, if any.
pub uninterp spec fn key_named(name: Seq<char>) -> Option<egui::Key>;

/// Relies on egui's `Key::from_name`: which key, if any, a name stands for
/// depends on the name alone.
pub assume_specification[ egui::Key::from_name ](key: &str) -> (r: Option<egui::Key>)
    ensures
        r == key_named(key@),
;

/// Relies on the equality that egui derives for `Key`, an enum without
/// fields: two keys compare equal exactly when they are the same key.
#[verifier::external_body]
fn same_key(a: egui::Key, b: egui::Key) -> (r: bool)
    ensures
        r == (a == b),
{
    a == b
}

/// Which modifier keys are held, flag for flag as egui counts them.
#[derive(Clone, Copy, Debug, PartialEq, Eq, Structural)]
pub struct KeyModifiers {
    pub alt: bool,
    pub ctrl: bool,
    pub shift: bool,
    pub mac_cmd: bool,
    pub command: bool,
}

pub open spec fn modifiers_of(alt: bool, shift: bool, command: bool) -> KeyModifiers {
    KeyModifiers { alt, ctrl: false, shift, mac_cmd: false, command }
}

impl KeyModifiers {
    pub fn none() -> (r: KeyModifiers)
        ensures
            r == modifiers_of(false, false, false),
    {
        KeyModifiers { alt: false, ctrl: false, shift: false, mac_cmd: false, command: false }
    }

    pub fn alt() -> (r: KeyModifiers)
        ensures
            r == modifiers_of(true, false, false),
    {
        KeyModifiers { alt: true, ctrl: false, shift: false, mac_cmd: false, command: false }
    }

    pub fn shift() -> (r: KeyModifiers)
        ensures
            r == modifiers_of(false, true, false),
    {
        KeyModifiers { alt: false, ctrl: false, shift: true, mac_cmd: false, command: false }
    }

    /// Command on a Mac, Ctrl elsewhere.
    pub fn command() -> (r: KeyModifiers)
        ensures
            r == modifiers_of(false, false, true),
    {
        KeyModifiers { alt: false, ctrl: false, shift: false, mac_cmd: false, command: true }
    }
}

/// Whether `held` already holds the single modifier `query` (Alt, Shift or
/// Command); Command counts as held when any of Ctrl, Command or Mac Cmd is.
pub open spec fn holds_modifier(held: KeyModifiers, query: KeyModifiers) -> bool {
    if query == modifiers_of(true, false, false) {
        held.alt
    } else if query == modifiers_of(false, true, false) {
        held.shift
    } else {
        held.ctrl || held.command || held.mac_cmd
    }
}

/// Each flag set where it is set in either.
pub open spec fn union_of(a: KeyModifiers, b: KeyModifiers) -> KeyModifiers {
    KeyModifiers {
        alt: a.alt || b.alt,
        ctrl: a.ctrl || b.ctrl,
        shift: a.shift || b.shift,
        mac_cmd: a.mac_cmd || b.mac_cmd,
        command: a.command || b.command,
    }
}

/// Relies on egui's `Modifiers::contains`, asked about one of Alt, Shift or
/// Command: Alt and Shift are contained when their flag is set, Command when
/// any of Ctrl, Command or Mac Cmd is.
#[verifier::external_body]
fn modifiers_contain(held: KeyModifiers, query: KeyModifiers) -> (r: bool)
    requires
        query == modifiers_of(true, false, false) || query == modifiers_of(false, true, false)
            || query == modifiers_of(false, false, true),
    ensures
        r == holds_modifier(held, query),
{
    let h = egui::Modifiers { alt: held.alt, ctrl: held.ctrl, shift: held.shift, mac_cmd: held.mac_cmd, command: held.command };
    let q = egui::Modifiers { alt: query.alt, ctrl: query.ctrl, shift: query.shift, mac_cmd: query.mac_cmd, command: query.command };
    h.contains(q)
}

/// Relies on egui's `Modifiers::plus`: each flag is set where it is set in either.
#[verifier::external_body]
fn plus_modifiers(a: KeyModifiers, b: KeyModifiers) -> (r: KeyModifiers)
    ensures
        r == union_of(a, b),
{
    let x = egui::Modifiers { alt: a.alt, ctrl: a.ctrl, shift: a.shift, mac_cmd: a.mac_cmd, command: a.command };
    let y = egui::Modifiers { alt: b.alt, ctrl: b.ctrl, shift: b.shift, mac_cmd: b.mac_cmd, command: b.command };
    let m = x.plus(y);
    KeyModifiers { alt: m.alt, ctrl: m.ctrl, shift: m.shift, mac_cmd: m.mac_cmd, command: m.command }
}

/// The pieces of `s` between dashes, in order; a string without dashes is one piece.
pub open spec fn dash_parts(s: Seq<char>) -> Seq<Seq<char>>
    decreases s.len(),
{
    if s.len() == 0 {
        seq![Seq::empty()]
    } else {
        let parts = dash_parts(s.drop_last());
        if s.last() == '-' {
            parts.push(Seq::empty())
        } else {
            parts.update(parts.len() - 1, parts.last().push(s.last()))
        }
    }
}

/// Relies on `str::split` with a `char` pattern: the pieces of the string
/// between the dashes, in order.
#[verifier::external_body]
fn split_on_dash(s: &str) -> (r: Vec<String>)
    ensures
        r@.map_values(|p: String| p@) == dash_parts(s@),
{
    s.split('-').map(String::from).collect()
}

/// Why a shortcut could not be read; each holds the offending text.
#[derive(Clone, Debug, PartialEq)]
pub enum Error {
    DuplicateModifier(String),
    InvalidModifier(String),
    InvalidKey(String),
    UnsupportedKeybind(String),
}

/// What a shortcut does.
#[derive(Clone, Copy, Debug, PartialEq, Eq, Structural)]
pub enum KeybindAction {
    CloseTab,
    DuplicateTab,
    FocusAbove,
    FocusAddress,
    FocusBelow,
    FocusLeft,
    FocusPanel,
    FocusRight,
    NoOp,
    OpenSplit,
    OpenTab,
    Reconnect,
    CloseAll,
}

/// A type whose values can be listed.
pub trait EnumIter {
    fn iter() -> Vec<Self>
        where
            Self: Sized,
    ;
}

impl EnumIter for KeybindAction {
    fn iter() -> Vec<KeybindAction> {
        vec![
            KeybindAction::CloseTab,
            KeybindAction::DuplicateTab,
            KeybindAction::FocusAbove,
            KeybindAction::FocusAddress,
            KeybindAction::FocusBelow,
            KeybindAction::FocusLeft,
            KeybindAction::FocusPanel,
            KeybindAction::FocusRight,
            KeybindAction::NoOp,
            KeybindAction::OpenSplit,
            KeybindAction::OpenTab,
            KeybindAction::Reconnect,
            KeybindAction::CloseAll,
        ]
    }
}


/// Why a shortcut could not be read, with the offending text as characters.
pub enum ShortcutFailure {
    DuplicateModifier(Seq<char>),
    InvalidModifier(Seq<char>),
    InvalidKey(Seq<char>),
    UnsupportedKeybind(Seq<char>),
}

impl View for Error {
    type V = ShortcutFailure;

    open spec fn view(&self) -> ShortcutFailure {
        match self {
            Error::DuplicateModifier(t) => ShortcutFailure::DuplicateModifier(t@),
            Error::InvalidModifier(t) => ShortcutFailure::InvalidModifier(t@),
            Error::InvalidKey(t) => ShortcutFailure::InvalidKey(t@),
            Error::UnsupportedKeybind(t) => ShortcutFailure::UnsupportedKeybind(t@),
        }
    }
}

/// A key together with the modifiers held with it.
#[derive(Clone, Copy, Debug, PartialEq)]
pub struct KeyboardShortcut {
    pub logical_key: egui::Key,
    pub modifiers: KeyModifiers,
}

/// The modifier that a name stands for: `A` Alt, `C` Command, `S` Shift.
pub open spec fn modifier_named(name: Seq<char>) -> Option<KeyModifiers> {
    if name == seq!['A'] {
        Some(modifiers_of(true, false, false))
    } else if name == seq!['C'] {
        Some(modifiers_of(false, false, true))
    } else if name == seq!['S'] {
        Some(modifiers_of(false, true, false))
    } else {
        None
    }
}

/// The text is one upper-case ASCII letter.
pub open spec fn is_single_uppercase_letter(text: Seq<char>) -> bool {
    text.len() == 1 && 'A' <= text[0] <= 'Z'
}

/// Adds the named modifiers to `start`, in order, failing at the first name that
/// is no modifier or names one already held.
pub open spec fn collect_modifiers(start: KeyModifiers, names: Seq<Seq<char>>) -> Result<KeyModifiers, ShortcutFailure>
    decreases names.len(),
{
    if names.len() == 0 {
        Ok(start)
    } else {
        match collect_modifiers(start, names.drop_last()) {
            Err(f) => Err(f),
            Ok(held) => {
                let name = names.last();
                match modifier_named(name) {
                    None => Err(ShortcutFailure::InvalidModifier(name)),
                    Some(m) => if holds_modifier(held, m) {
                        Err(ShortcutFailure::DuplicateModifier(name))
                    } else {
                        Ok(union_of(held, m))
                    },
                }
            },
        }
    }
}

/// Command with C, V or X alone, which the tools leave to copy and paste.
pub open spec fn is_clipboard_shortcut(key: egui::Key, modifiers: KeyModifiers) -> bool {
    modifiers == modifiers_of(false, false, true) && (key_named(seq!['C']) == Some(key)
        || key_named(seq!['V']) == Some(key) || key_named(seq!['X']) == Some(key))
}

/// What reading the shortcut `raw` gives: its last dash-separated piece names
/// the key, the pieces before it name modifiers.
pub open spec fn shortcut_of(raw: Seq<char>) -> Result<KeyboardShortcut, ShortcutFailure> {
    let parts = dash_parts(raw);
    let raw_key = parts.last();
    match key_named(raw_key) {
        None => Err(ShortcutFailure::InvalidKey(raw)),
        Some(key) => {
            let start = modifiers_of(false, is_single_uppercase_letter(raw_key), false);
            match collect_modifiers(start, parts.drop_last()) {
                Err(f) => Err(f),
                Ok(modifiers) => if is_clipboard_shortcut(key, modifiers) {
                    Err(ShortcutFailure::UnsupportedKeybind(raw))
                } else {
                    Ok(KeyboardShortcut { logical_key: key, modifiers })
                },
            }
        },
    }
}

fn same_text(a: &str, b: &str) -> (r: bool)
    ensures
        r == (a@ == b@),
{
    a.to_owned() == b.to_owned()
}

/// The modifier named by `value`: `A` Alt, `C` Command, `S` Shift.
pub fn parse_modifier(value: &str) -> (r: Result<KeyModifiers, Error>)
    ensures
        match modifier_named(value@) {
            Some(m) => r == Ok::<KeyModifiers, Error>(m),
            None => r matches Err(e) && e@ == ShortcutFailure::InvalidModifier(value@),
        },
{
    proof {
        reveal_strlit("A");
        reveal_strlit("C");
        reveal_strlit("S");
        assert("A"@ =~= seq!['A']);
        assert("C"@ =~= seq!['C']);
        assert("S"@ =~= seq!['S']);
    }
    if same_text(value, "A") {
        Ok(KeyModifiers::alt())
    } else if same_text(value, "C") {
        Ok(KeyModifiers::command())
    } else if same_text(value, "S") {
        Ok(KeyModifiers::shift())
    } else {
        assert(value@ != seq!['A'] && value@ != seq!['C'] && value@ != seq!['S']);
        Err(Error::InvalidModifier(value.to_owned()))
    }
}

fn is_single_ascii_uppercase_letter(text: &str) -> (r: bool)
    ensures
        r == is_single_uppercase_letter(text@),
{
    broadcast use vstd::string::axiom_spec_iter, vstd::string::next_postcondition;

    let mut chars = text.chars();
    match chars.next() {
        Some(letter) => {
            if 'A' <= letter && letter <= 'Z' {
                chars.next().is_none()
            } else {
                false
            }
        },
        None => false,
    }
}

/// Whether the shortcut may be bound: Command with C, V or X alone may not.
pub fn is_supported_keybind(shortcut: &KeyboardShortcut) -> (r: bool)
    ensures
        r == !is_clipboard_shortcut(shortcut.logical_key, shortcut.modifiers),
{
    proof {
        reveal_strlit("C");
        reveal_strlit("V");
        reveal_strlit("X");
        assert("C"@ =~= seq!['C']);
        assert("V"@ =~= seq!['V']);
        assert("X"@ =~= seq!['X']);
    }
    if shortcut.modifiers == KeyModifiers::command() {
        if let Some(key) = egui::Key::from_name("C") {
            if same_key(key, shortcut.logical_key) {
                return false;
            }
        }
        if let Some(key) = egui::Key::from_name("V") {
            if same_key(key, shortcut.logical_key) {
                return false;
            }
        }
        if let Some(key) = egui::Key::from_name("X") {
            if same_key(key, shortcut.logical_key) {
                return false;
            }
        }
    }
    true
}


proof fn lemma_dash_parts_nonempty(s: Seq<char>)
    ensures
        dash_parts(s).len() >= 1,
    decreases s.len(),
{
    if s.len() > 0 {
        lemma_dash_parts_nonempty(s.drop_last());
    }
}

proof fn lemma_collect_failure_stays(start: KeyModifiers, names: Seq<Seq<char>>, k: int)
    requires
        0 <= k <= names.len(),
        collect_modifiers(start, names.subrange(0, k)) is Err,
    ensures
        collect_modifiers(start, names) == collect_modifiers(start, names.subrange(0, k)),
    decreases names.len(),
{
    if k == names.len() {
        assert(names.subrange(0, k) =~= names);
    } else {
        assert(names.drop_last().subrange(0, k) =~= names.subrange(0, k));
        lemma_collect_failure_stays(start, names.drop_last(), k);
    }
}

/// Reads a shortcut such as `C-p` or `A-S-Esc`: the last dash-separated piece
/// names the key, the pieces before it name modifiers, and a single upper-case
/// letter as the key implies Shift.
pub fn parse_shortcut(raw_shortcut: &str) -> (r: Result<KeyboardShortcut, Error>)
    ensures
        match shortcut_of(raw_shortcut@) {
            Ok(s) => r == Ok::<KeyboardShortcut, Error>(s),
            Err(f) => r matches Err(e) && e@ == f,
        },
{
    let parts = split_on_dash(raw_shortcut);
    let ghost names = parts@.map_values(|p: String| p@);
    proof {
        lemma_dash_parts_nonempty(raw_shortcut@);
    }
    let n = parts.len();
    let raw_key = parts[n - 1].as_str();
    assert(raw_key@ == names.last());
    let shift = is_single_ascii_uppercase_letter(raw_key);
    let logical_key = match egui::Key::from_name(raw_key) {
        Some(key) => key,
        None => return Err(Error::InvalidKey(raw_shortcut.to_owned())),
    };
    let mut modifiers = KeyModifiers { alt: false, ctrl: false, shift, mac_cmd: false, command: false };
    let ghost start = modifiers;
    let ghost raw_modifiers = names.drop_last();
    let mut i: usize = 0;
    assert(raw_modifiers.subrange(0, 0) =~= Seq::<Seq<char>>::empty());
    while i < n - 1
        invariant
            n == parts.len(),
            n >= 1,
            names == parts@.map_values(|p: String| p@),
            raw_modifiers == names.drop_last(),
            names == dash_parts(raw_shortcut@),
            start == modifiers_of(false, is_single_uppercase_letter(names.last()), false),
            key_named(names.last()) == Some(logical_key),
            i <= n - 1,
            collect_modifiers(start, raw_modifiers.subrange(0, i as int)) == Ok::<
                KeyModifiers,
                ShortcutFailure,
            >(modifiers),
        decreases n - 1 - i,
    {
        let raw_modifier = &parts[i];
        let ghost prefix = raw_modifiers.subrange(0, i + 1);
        assert(prefix.drop_last() =~= raw_modifiers.subrange(0, i as int));
        assert(prefix.last() == raw_modifier@);
        let modifier = match parse_modifier(raw_modifier.as_str()) {
            Ok(m) => m,
            Err(e) => {
                proof {
                    assert(collect_modifiers(start, prefix) == Err::<KeyModifiers, ShortcutFailure>(
                        ShortcutFailure::InvalidModifier(raw_modifier@),
                    ));
                    lemma_collect_failure_stays(start, raw_modifiers, i + 1);
                    assert(start == modifiers_of(false, is_single_uppercase_letter(names.last()), false));
                    assert(dash_parts(raw_shortcut@) == names);
                }
                return Err(e);
            },
        };
        if modifiers_contain(modifiers, modifier) {
            proof {
                assert(collect_modifiers(start, prefix) == Err::<KeyModifiers, ShortcutFailure>(
                    ShortcutFailure::DuplicateModifier(raw_modifier@),
                ));
                lemma_collect_failure_stays(start, raw_modifiers, i + 1);
                assert(start == modifiers_of(false, is_single_uppercase_letter(names.last()), false));
                assert(dash_parts(raw_shortcut@) == names);
            }
            return Err(Error::DuplicateModifier(raw_modifier.clone()));
        }
        modifiers = plus_modifiers(modifiers, modifier);
        i += 1;
    }
    assert(raw_modifiers.subrange(0, i as int) =~= raw_modifiers);
    let shortcut = KeyboardShortcut { logical_key, modifiers };
    if is_supported_keybind(&shortcut) {
        Ok(shortcut)
    } else {
        Err(Error::UnsupportedKeybind(raw_shortcut.to_owned()))
    }
}

} // verus!
