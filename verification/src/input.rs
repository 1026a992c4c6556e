//! Keymap matching: a key press and the user's bindings give an `Action`.
//!
//! A binding is written like `q`, `space`, `right`, `ctrl+c` or `shift+tab`;
//! case and surrounding white space do not matter.

use crate::config::KeyMap;
use crate::paths::{lowercase, spec_lowercase};
use crate::text::{
    ascii_lower, ascii_lower_exec, char_views, chars_are, chars_of, split_chars, split_on,
    string_from_chars, trim, trim_chars,
};
use vstd::prelude::*;

verus! {

#[derive(Debug, Clone, Copy, PartialEq, Eq, Structural)]
pub enum Action {
    Quit,
    PlayPause,
    Stop,
    Next,
    Prev,
    SeekForward,
    SeekBack,
    VolumeUp,
    VolumeDown,
    ResetGain,
    FocusBrowser,
    CycleFocus,
    CycleTheme,
    CycleProgressBarStyle,
    ToggleInfo,
    CyclePatternStack,
    TogglePatternCompact,
    Help,
    ToggleSongMessage,
    AddToPlaylist,
    Up,
    Down,
    PageUp,
    PageDown,
    Enter,
    Esc,
}

/// The key of a key press, as far as bindings can name it.
#[derive(Debug, Clone, Copy, PartialEq, Eq, Structural)]
pub enum KeyCode {
    Char(char),
    Up,
    Down,
    Left,
    Right,
    PageUp,
    PageDown,
    Home,
    End,
    Enter,
    Esc,
    Tab,
    BackTab,
    /// Any key no binding can name (function keys, media keys, ...).
    Other,
}

/// The modifier keys held during a key press.
#[derive(Debug, Clone, Copy, PartialEq, Eq, Structural)]
pub struct Modifiers {
    pub shift: bool,
    pub control: bool,
    pub alt: bool,
    pub logo: bool,
    pub hyper: bool,
    pub meta: bool,
}

impl Modifiers {
    /// No modifier held.
    pub fn none() -> (r: Modifiers)
        ensures
            !r.shift && !r.control && !r.alt && !r.logo && !r.hyper && !r.meta,
    {
        Modifiers { shift: false, control: false, alt: false, logo: false, hyper: false, meta: false }
    }

    /// Shift alone.
    pub fn shift_only() -> (r: Modifiers)
        ensures
            r.shift && !r.control && !r.alt && !r.logo && !r.hyper && !r.meta,
    {
        Modifiers { shift: true, control: false, alt: false, logo: false, hyper: false, meta: false }
    }
}

/// Shift and nothing else.
pub open spec fn is_shift_only(m: Modifiers) -> bool {
    m.shift && !m.control && !m.alt && !m.logo && !m.hyper && !m.meta
}

#[derive(Debug, Clone, Copy, PartialEq, Eq, Structural)]
pub struct KeyEvent {
    pub code: KeyCode,
    pub modifiers: Modifiers,
}

/// The control and alt flags that the modifier words of a binding ask for, or
/// `None` when one of them is not `ctrl`, `shift` or `alt`.
pub open spec fn modifier_flags(words: Seq<Seq<char>>) -> Option<(bool, bool)>
    decreases words.len(),
{
    if words.len() == 0 {
        Some((false, false))
    } else {
        match modifier_flags(words.drop_last()) {
            None => None,
            Some((ctrl, alt)) => {
                let w = words.last();
                if w == "ctrl"@ {
                    Some((true, alt))
                } else if w == "shift"@ {
                    Some((ctrl, alt))
                } else if w == "alt"@ {
                    Some((ctrl, true))
                } else {
                    None
                }
            },
        }
    }
}

/// Whether the key part of a binding names `code`. A single character names
/// that character in either ASCII case.
pub open spec fn code_matches(code: KeyCode, key: Seq<char>) -> bool {
    match code {
        KeyCode::Char(c) => if key.len() == 1 {
            ascii_lower(c) == key[0]
        } else {
            c == ' ' && key == "space"@
        },
        KeyCode::Tab => key == "tab"@,
        KeyCode::BackTab => key == "shift+tab"@,
        KeyCode::Left => key == "left"@,
        KeyCode::Right => key == "right"@,
        KeyCode::Up => key == "up"@,
        KeyCode::Down => key == "down"@,
        KeyCode::Enter => key == "enter"@,
        KeyCode::Esc => key == "esc"@,
        KeyCode::Home => key == "home"@,
        KeyCode::End => key == "end"@,
        KeyCode::PageUp => key == "pageup"@,
        KeyCode::PageDown => key == "pagedown"@,
        KeyCode::Other => false,
    }
}

/// Whether `binding` matches the key press. `shift+tab` matches back-tab, or
/// tab with shift alone. Otherwise the words before the last `+` must all be
/// modifiers, the press must hold exactly the control and alt they ask for
/// (shift and the remaining modifiers are not compared, as terminals report
/// them inconsistently), and the last word must name the key.
pub open spec fn binding_matches(binding: Seq<char>, ev: KeyEvent) -> bool {
    let s = spec_lowercase(trim(binding));
    if s == "shift+tab"@ {
        ev.code == KeyCode::BackTab || (ev.code == KeyCode::Tab && is_shift_only(ev.modifiers))
    } else {
        let parts = split_on(s, '+');
        let flags = if parts.len() > 1 {
            modifier_flags(parts.drop_last())
        } else {
            Some((false, false))
        };
        let key = if parts.len() > 1 {
            parts.last()
        } else {
            s
        };
        match flags {
            None => false,
            Some((ctrl, alt)) => ev.modifiers.control == ctrl && ev.modifiers.alt == alt
                && code_matches(ev.code, key),
        }
    }
}

/// Whether any binding of the list matches the key press.
pub open spec fn any_binding_matches(binds: Seq<String>, ev: KeyEvent) -> bool {
    exists|i: int| 0 <= i < binds.len() && binding_matches(#[trigger] binds[i]@, ev)
}

/// The action of the first binding list, in the keymap's fixed order, that
/// holds a binding matching the key press.
pub open spec fn bound_action(km: KeyMap, ev: KeyEvent) -> Option<Action> {
    if any_binding_matches(km.quit@, ev) {
        Some(Action::Quit)
    } else if any_binding_matches(km.play_pause@, ev) {
        Some(Action::PlayPause)
    } else if any_binding_matches(km.stop@, ev) {
        Some(Action::Stop)
    } else if any_binding_matches(km.next@, ev) {
        Some(Action::Next)
    } else if any_binding_matches(km.prev@, ev) {
        Some(Action::Prev)
    } else if any_binding_matches(km.seek_forward@, ev) {
        Some(Action::SeekForward)
    } else if any_binding_matches(km.seek_back@, ev) {
        Some(Action::SeekBack)
    } else if any_binding_matches(km.volume_up@, ev) {
        Some(Action::VolumeUp)
    } else if any_binding_matches(km.volume_down@, ev) {
        Some(Action::VolumeDown)
    } else if any_binding_matches(km.reset_gain@, ev) {
        Some(Action::ResetGain)
    } else if any_binding_matches(km.focus_browser@, ev) {
        Some(Action::FocusBrowser)
    } else if any_binding_matches(km.cycle_focus@, ev) {
        Some(Action::CycleFocus)
    } else if any_binding_matches(km.cycle_theme@, ev) {
        Some(Action::CycleTheme)
    } else if any_binding_matches(km.cycle_progress_bar_style@, ev) {
        Some(Action::CycleProgressBarStyle)
    } else if any_binding_matches(km.toggle_info@, ev) {
        Some(Action::ToggleInfo)
    } else if any_binding_matches(km.cycle_pattern_stack@, ev) {
        Some(Action::CyclePatternStack)
    } else if any_binding_matches(km.toggle_pattern_compact@, ev) {
        Some(Action::TogglePatternCompact)
    } else if any_binding_matches(km.help@, ev) {
        Some(Action::Help)
    } else if any_binding_matches(km.toggle_song_message@, ev) {
        Some(Action::ToggleSongMessage)
    } else if any_binding_matches(km.add_to_playlist@, ev) {
        Some(Action::AddToPlaylist)
    } else {
        None
    }
}

/// The action for a key press: the navigation keys always give their own
/// action, whatever the keymap says; every other key goes by the bindings.
pub open spec fn action_for(km: KeyMap, ev: KeyEvent) -> Option<Action> {
    match ev.code {
        KeyCode::Up => Some(Action::Up),
        KeyCode::Down => Some(Action::Down),
        KeyCode::PageUp => Some(Action::PageUp),
        KeyCode::PageDown => Some(Action::PageDown),
        KeyCode::Enter => Some(Action::Enter),
        KeyCode::Esc => Some(Action::Esc),
        _ => bound_action(km, ev),
    }
}

/// The action the key press `ev` triggers under `keymap`, if any.
pub fn match_key(keymap: &KeyMap, ev: &KeyEvent) -> (r: Option<Action>)
    ensures
        r == action_for(*keymap, *ev),
{
    match ev.code {
        KeyCode::Up => return Some(Action::Up),
        KeyCode::Down => return Some(Action::Down),
        KeyCode::PageUp => return Some(Action::PageUp),
        KeyCode::PageDown => return Some(Action::PageDown),
        KeyCode::Enter => return Some(Action::Enter),
        KeyCode::Esc => return Some(Action::Esc),
        _ => {},
    }
    if any_matches(&keymap.quit, ev) {
        Some(Action::Quit)
    } else if any_matches(&keymap.play_pause, ev) {
        Some(Action::PlayPause)
    } else if any_matches(&keymap.stop, ev) {
        Some(Action::Stop)
    } else if any_matches(&keymap.next, ev) {
        Some(Action::Next)
    } else if any_matches(&keymap.prev, ev) {
        Some(Action::Prev)
    } else if any_matches(&keymap.seek_forward, ev) {
        Some(Action::SeekForward)
    } else if any_matches(&keymap.seek_back, ev) {
        Some(Action::SeekBack)
    } else if any_matches(&keymap.volume_up, ev) {
        Some(Action::VolumeUp)
    } else if any_matches(&keymap.volume_down, ev) {
        Some(Action::VolumeDown)
    } else if any_matches(&keymap.reset_gain, ev) {
        Some(Action::ResetGain)
    } else if any_matches(&keymap.focus_browser, ev) {
        Some(Action::FocusBrowser)
    } else if any_matches(&keymap.cycle_focus, ev) {
        Some(Action::CycleFocus)
    } else if any_matches(&keymap.cycle_theme, ev) {
        Some(Action::CycleTheme)
    } else if any_matches(&keymap.cycle_progress_bar_style, ev) {
        Some(Action::CycleProgressBarStyle)
    } else if any_matches(&keymap.toggle_info, ev) {
        Some(Action::ToggleInfo)
    } else if any_matches(&keymap.cycle_pattern_stack, ev) {
        Some(Action::CyclePatternStack)
    } else if any_matches(&keymap.toggle_pattern_compact, ev) {
        Some(Action::TogglePatternCompact)
    } else if any_matches(&keymap.help, ev) {
        Some(Action::Help)
    } else if any_matches(&keymap.toggle_song_message, ev) {
        Some(Action::ToggleSongMessage)
    } else if any_matches(&keymap.add_to_playlist, ev) {
        Some(Action::AddToPlaylist)
    } else {
        None
    }
}

/// Whether one of `binds` matches the key press.
fn any_matches(binds: &Vec<String>, ev: &KeyEvent) -> (r: bool)
    ensures
        r == any_binding_matches(binds@, *ev),
{
    let mut i: usize = 0;
    while i < binds.len()
        invariant
            i <= binds@.len(),
            forall|k: int| 0 <= k < i ==> !binding_matches(#[trigger] binds@[k]@, *ev),
        decreases binds@.len() - i,
    {
        if matches_binding(binds[i].as_str(), ev) {
            return true;
        }
        i = i + 1;
    }
    false
}

/// Whether the key part of a binding names `code`.
fn code_matches_exec(code: KeyCode, key: &[char]) -> (r: bool)
    ensures
        r == code_matches(code, key@),
{
    match code {
        KeyCode::Char(c) => {
            if key.len() == 1 {
                ascii_lower_exec(c) == key[0]
            } else {
                c == ' ' && chars_are(key, "space")
            }
        },
        KeyCode::Tab => chars_are(key, "tab"),
        KeyCode::BackTab => chars_are(key, "shift+tab"),
        KeyCode::Left => chars_are(key, "left"),
        KeyCode::Right => chars_are(key, "right"),
        KeyCode::Up => chars_are(key, "up"),
        KeyCode::Down => chars_are(key, "down"),
        KeyCode::Enter => chars_are(key, "enter"),
        KeyCode::Esc => chars_are(key, "esc"),
        KeyCode::Home => chars_are(key, "home"),
        KeyCode::End => chars_are(key, "end"),
        KeyCode::PageUp => chars_are(key, "pageup"),
        KeyCode::PageDown => chars_are(key, "pagedown"),
        KeyCode::Other => false,
    }
}

/// Once a modifier word is unknown, no longer list of words is accepted.
proof fn lemma_unknown_modifier_sticks(words: Seq<Seq<char>>, j: int, k: int)
    requires
        0 <= j <= k <= words.len(),
        modifier_flags(words.subrange(0, j)) is None,
    ensures
        modifier_flags(words.subrange(0, k)) is None,
    decreases k - j,
{
    if j < k {
        assert(words.subrange(0, j + 1).drop_last() =~= words.subrange(0, j));
        lemma_unknown_modifier_sticks(words, j + 1, k);
    }
}

/// Whether a single binding (`"ctrl+c"`, `"shift+tab"`, `"space"`, `"q"`, ...)
/// matches the key press.
pub fn matches_binding(binding: &str, ev: &KeyEvent) -> (r: bool)
    ensures
        r == binding_matches(binding@, *ev),
{
    let raw = chars_of(binding);
    let trimmed = trim_chars(raw.as_slice());
    let trimmed_str = string_from_chars(trimmed.as_slice());
    let lowered = lowercase(trimmed_str.as_str());
    let s = chars_of(lowered.as_str());
    if chars_are(s.as_slice(), "shift+tab") {
        return ev.code == KeyCode::BackTab || (ev.code == KeyCode::Tab && ev.modifiers
            == Modifiers::shift_only());
    }
    let parts = split_chars(s.as_slice(), '+');
    let ghost words = char_views(parts@);
    let mut ctrl = false;
    let mut alt = false;
    if parts.len() > 1 {
        let last = parts.len() - 1;
        let mut i: usize = 0;
        while i < last
            invariant
                last == parts@.len() - 1,
                words == char_views(parts@),
                words == split_on(s@, '+'),
                s@ == spec_lowercase(trim(binding@)),
                s@ != "shift+tab"@,
                i <= last,
                modifier_flags(words.subrange(0, i as int)) == Some((ctrl, alt)),
            decreases last - i,
        {
            let w = parts[i].as_slice();
            proof {
                assert(words.subrange(0, i + 1).drop_last() =~= words.subrange(0, i as int));
                assert(words.subrange(0, i + 1).last() == w@);
            }
            if chars_are(w, "ctrl") {
                ctrl = true;
            } else if chars_are(w, "shift") {
            } else if chars_are(w, "alt") {
                alt = true;
            } else {
                proof {
                    lemma_unknown_modifier_sticks(words, i as int + 1, last as int);
                    assert(words.subrange(0, last as int) =~= words.drop_last());
                }
                return false;
            }
            i = i + 1;
        }
        assert(words.subrange(0, last as int) =~= words.drop_last());
    }
    if ev.modifiers.control != ctrl || ev.modifiers.alt != alt {
        return false;
    }
    if parts.len() > 1 {
        code_matches_exec(ev.code, parts[parts.len() - 1].as_slice())
    } else {
        code_matches_exec(ev.code, s.as_slice())
    }
}

/// The navigation keys (arrows up and down, page up and down, enter, escape)
/// give their own action under every keymap, whatever it binds.
pub proof fn navigation_keys_ignore_keymap(km: KeyMap, other: KeyMap, ev: KeyEvent)
    requires
        ev.code is Up || ev.code is Down || ev.code is PageUp || ev.code is PageDown
            || ev.code is Enter || ev.code is Esc,
    ensures
        action_for(km, ev) == action_for(other, ev),
        action_for(km, ev) is Some,
{
}

/// Apart from the `shift+tab` binding, a binding matches a key press exactly
/// when it matches the same press with shift, logo, hyper and meta changed in
/// any way: only control and alt are compared.
pub proof fn only_control_and_alt_are_compared(binding: Seq<char>, ev: KeyEvent, m: Modifiers)
    requires
        spec_lowercase(trim(binding)) != "shift+tab"@,
        m.control == ev.modifiers.control,
        m.alt == ev.modifiers.alt,
    ensures
        binding_matches(binding, ev) == binding_matches(binding, (KeyEvent { code: ev.code, modifiers: m })),
{
}

proof fn lemma_split_without_separator(t: Seq<char>, sep: char)
    requires
        forall|i: int| 0 <= i < t.len() ==> t[i] != sep,
    ensures
        split_on(t, sep) == seq![t],
    decreases t.len(),
{
    if t.len() > 0 {
        lemma_split_without_separator(t.drop_last(), sep);
        assert(t.drop_last().push(t.last()) =~= t);
    } else {
        assert(t =~= Seq::<char>::empty());
    }
}

/// A binding that is one word without `+` (other than `shift+tab`) asks for
/// no control or alt, and its word must name the key.
proof fn lemma_plain_word_binding(binding: Seq<char>, ev: KeyEvent)
    requires
        spec_lowercase(trim(binding)) != "shift+tab"@,
        forall|i: int|
            0 <= i < spec_lowercase(trim(binding)).len() ==> spec_lowercase(trim(binding))[i]
                != '+',
    ensures
        binding_matches(binding, ev) == (!ev.modifiers.control && !ev.modifiers.alt
            && code_matches(ev.code, spec_lowercase(trim(binding)))),
{
    lemma_split_without_separator(spec_lowercase(trim(binding)), '+');
}

/// A binding that names a key (in any case, with blanks around it) matches
/// exactly the presses of that key held without control and alt, whatever
/// shift and the other modifiers do: `tab` the tab key, `space` the space
/// bar, the arrow, `enter`, `esc`, `home`, `end`, `pageup` and `pagedown`
/// names their keys; and a single character other than `+` matches that
/// character typed in either ASCII case.
pub proof fn key_names_bind_their_keys(binding: Seq<char>, ev: KeyEvent)
    ensures
        ({
            let s = spec_lowercase(trim(binding));
            let plain = !ev.modifiers.control && !ev.modifiers.alt;
            &&& s == "tab"@ ==> (binding_matches(binding, ev) <==> plain && ev.code == KeyCode::Tab)
            &&& s == "space"@ ==> (binding_matches(binding, ev) <==> plain && ev.code
                == KeyCode::Char(' '))
            &&& s == "left"@ ==> (binding_matches(binding, ev) <==> plain && ev.code
                == KeyCode::Left)
            &&& s == "right"@ ==> (binding_matches(binding, ev) <==> plain && ev.code
                == KeyCode::Right)
            &&& s == "up"@ ==> (binding_matches(binding, ev) <==> plain && ev.code == KeyCode::Up)
            &&& s == "down"@ ==> (binding_matches(binding, ev) <==> plain && ev.code
                == KeyCode::Down)
            &&& s == "enter"@ ==> (binding_matches(binding, ev) <==> plain && ev.code
                == KeyCode::Enter)
            &&& s == "esc"@ ==> (binding_matches(binding, ev) <==> plain && ev.code == KeyCode::Esc)
            &&& s == "home"@ ==> (binding_matches(binding, ev) <==> plain && ev.code
                == KeyCode::Home)
            &&& s == "end"@ ==> (binding_matches(binding, ev) <==> plain && ev.code == KeyCode::End)
            &&& s == "pageup"@ ==> (binding_matches(binding, ev) <==> plain && ev.code
                == KeyCode::PageUp)
            &&& s == "pagedown"@ ==> (binding_matches(binding, ev) <==> plain && ev.code
                == KeyCode::PageDown)
            &&& (s.len() == 1 && s[0] != '+') ==> (binding_matches(binding, ev) <==> plain && (
            ev.code matches KeyCode::Char(c) && ascii_lower(c) == s[0]))
        }),
{
    let s = spec_lowercase(trim(binding));
    reveal_strlit("shift+tab");
    reveal_strlit("tab");
    reveal_strlit("space");
    reveal_strlit("left");
    reveal_strlit("right");
    reveal_strlit("up");
    reveal_strlit("down");
    reveal_strlit("enter");
    reveal_strlit("esc");
    reveal_strlit("home");
    reveal_strlit("end");
    reveal_strlit("pageup");
    reveal_strlit("pagedown");
    let named = s == "tab"@ || s == "space"@ || s == "left"@ || s == "right"@ || s == "up"@ || s
        == "down"@ || s == "enter"@ || s == "esc"@ || s == "home"@ || s == "end"@ || s
        == "pageup"@ || s == "pagedown"@;
    if named || (s.len() == 1 && s[0] != '+') {
        assert(s != "shift+tab"@) by {
            if s == "shift+tab"@ {
                assert(s.len() == 9);
            }
        }
        assert forall|i: int| 0 <= i < s.len() implies s[i] != '+' by {}
        lemma_plain_word_binding(binding, ev);
    }
}

proof fn lemma_split_at_one_separator(a: Seq<char>, b: Seq<char>, sep: char)
    requires
        forall|i: int| 0 <= i < a.len() ==> a[i] != sep,
        forall|i: int| 0 <= i < b.len() ==> b[i] != sep,
    ensures
        split_on(a.push(sep) + b, sep) == seq![a, b],
    decreases b.len(),
{
    let t = a.push(sep) + b;
    if b.len() == 0 {
        lemma_split_without_separator(a, sep);
        assert(b =~= Seq::<char>::empty());
        assert(t =~= a.push(sep));
        assert(t.drop_last() =~= a);
        assert(split_on(t, sep) =~= seq![a, b]);
    } else {
        lemma_split_at_one_separator(a, b.drop_last(), sep);
        assert(t.drop_last() =~= a.push(sep) + b.drop_last());
        assert(b.drop_last().push(b.last()) =~= b);
        assert(t.last() == b.last());
        assert(split_on(t, sep) =~= seq![a, b]);
    }
}

/// A binding `ctrl+<key>` matches exactly the presses of that key with
/// control held and alt not held, and `alt+<key>` those with alt held and
/// control not held (here for a key written as one character other than
/// `+`, which matches that character typed in either ASCII case).
pub proof fn modifier_words_require_their_modifiers(binding: Seq<char>, ev: KeyEvent, k: char)
    requires
        k != '+',
    ensures
        spec_lowercase(trim(binding)) == "ctrl+"@.push(k) ==> (binding_matches(binding, ev) <==> (
        ev.modifiers.control && !ev.modifiers.alt && (ev.code matches KeyCode::Char(c)
            && ascii_lower(c) == k))),
        spec_lowercase(trim(binding)) == "alt+"@.push(k) ==> (binding_matches(binding, ev) <==> (
        !ev.modifiers.control && ev.modifiers.alt && (ev.code matches KeyCode::Char(c)
            && ascii_lower(c) == k))),
{
    let s = spec_lowercase(trim(binding));
    reveal_with_fuel(modifier_flags, 2);
    reveal_strlit("tab");
    reveal_strlit("space");
    reveal_strlit("left");
    reveal_strlit("right");
    reveal_strlit("up");
    reveal_strlit("down");
    reveal_strlit("enter");
    reveal_strlit("esc");
    reveal_strlit("home");
    reveal_strlit("end");
    reveal_strlit("pageup");
    reveal_strlit("pagedown");
    reveal_strlit("ctrl+");
    reveal_strlit("alt+");
    reveal_strlit("ctrl");
    reveal_strlit("alt");
    reveal_strlit("shift");
    reveal_strlit("shift+tab");
    if s == "ctrl+"@.push(k) {
        assert(s =~= "ctrl"@.push('+') + seq![k]);
        lemma_split_at_one_separator("ctrl"@, seq![k], '+');
        assert(s != "shift+tab"@) by {
            if s == "shift+tab"@ {
                assert(s.len() == 9);
            }
        }
        let words = split_on(s, '+').drop_last();
        assert(words =~= seq!["ctrl"@]);
        assert(words.drop_last() =~= Seq::<Seq<char>>::empty());
        assert(modifier_flags(words) == Some((true, false)));
    }
    if s == "alt+"@.push(k) {
        assert(s =~= "alt"@.push('+') + seq![k]);
        lemma_split_at_one_separator("alt"@, seq![k], '+');
        assert(s != "shift+tab"@) by {
            if s == "shift+tab"@ {
                assert(s.len() == 9);
            }
        }
        let words = split_on(s, '+').drop_last();
        assert(words =~= seq!["alt"@]);
        assert(words.drop_last() =~= Seq::<Seq<char>>::empty());
        assert(modifier_flags(words) == Some((false, true)));
    }
}

} // verus!
