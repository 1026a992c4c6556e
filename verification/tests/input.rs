use rtrax::config::KeyMap;
use rtrax::input::{match_key, matches_binding, Action, KeyCode, KeyEvent, Modifiers};

fn key(code: KeyCode, modifiers: Modifiers) -> KeyEvent {
    KeyEvent { code, modifiers }
}

fn ctrl() -> Modifiers {
    Modifiers { control: true, ..Modifiers::none() }
}

#[test]
fn matches_default_bindings() {
    let keymap = KeyMap::default();
    assert_eq!(match_key(&keymap, &key(KeyCode::Char('q'), Modifiers::none())), Some(Action::Quit));
    assert_eq!(
        match_key(&keymap, &key(KeyCode::Char(' '), Modifiers::none())),
        Some(Action::PlayPause)
    );
    assert_eq!(
        match_key(&keymap, &key(KeyCode::Right, Modifiers::none())),
        Some(Action::SeekForward)
    );
}

#[test]
fn plain_character_bindings_ignore_shift() {
    let keymap = KeyMap::default();
    assert_eq!(
        match_key(&keymap, &key(KeyCode::Char('Q'), Modifiers::shift_only())),
        Some(Action::Quit)
    );
}

#[test]
fn shift_tab_does_not_match_plain_tab() {
    let keymap = KeyMap { cycle_focus: vec!["shift+tab".to_string()], ..KeyMap::default() };
    assert_eq!(match_key(&keymap, &key(KeyCode::Tab, Modifiers::none())), None);
    assert_eq!(
        match_key(&keymap, &key(KeyCode::BackTab, Modifiers::shift_only())),
        Some(Action::CycleFocus)
    );
}

#[test]
fn add_to_playlist_binding_is_wired() {
    let keymap = KeyMap::default();
    assert_eq!(
        match_key(&keymap, &key(KeyCode::Char('a'), Modifiers::none())),
        Some(Action::AddToPlaylist)
    );
}

#[test]
fn cycle_progress_bar_style_binding_is_wired() {
    let keymap = KeyMap::default();
    assert_eq!(
        match_key(&keymap, &key(KeyCode::Char('b'), Modifiers::none())),
        Some(Action::CycleProgressBarStyle)
    );
}

#[test]
fn reset_gain_binding_is_wired() {
    let keymap = KeyMap::default();
    assert_eq!(
        match_key(&keymap, &key(KeyCode::Char('\\'), Modifiers::none())),
        Some(Action::ResetGain)
    );
}

#[test]
fn toggle_song_message_binding_is_wired() {
    let keymap = KeyMap::default();
    assert_eq!(
        match_key(&keymap, &key(KeyCode::Char('m'), Modifiers::none())),
        Some(Action::ToggleSongMessage)
    );
}

#[test]
fn navigation_keys_are_always_available() {
    let keymap = KeyMap { seek_forward: Vec::new(), ..KeyMap::default() };
    assert_eq!(match_key(&keymap, &key(KeyCode::Up, Modifiers::none())), Some(Action::Up));
    assert_eq!(match_key(&keymap, &key(KeyCode::Right, Modifiers::none())), None);
}

#[test]
fn ctrl_c_needs_control() {
    let keymap = KeyMap::default();
    assert_eq!(match_key(&keymap, &key(KeyCode::Char('c'), ctrl())), Some(Action::Quit));
    // Plain `c` toggles compact cells instead.
    assert_eq!(
        match_key(&keymap, &key(KeyCode::Char('c'), Modifiers::none())),
        Some(Action::TogglePatternCompact)
    );
    // Control with a binding that asks for none does not match.
    assert_eq!(match_key(&keymap, &key(KeyCode::Char('n'), ctrl())), None);
}

#[test]
fn bindings_are_trimmed_and_case_insensitive() {
    assert!(matches_binding("  Ctrl+X ", &key(KeyCode::Char('x'), ctrl())));
    assert!(matches_binding("SPACE", &key(KeyCode::Char(' '), Modifiers::none())));
    assert!(matches_binding("PageDown", &key(KeyCode::PageDown, Modifiers::none())));
    assert!(!matches_binding("hyper+x", &key(KeyCode::Char('x'), Modifiers::none())));
    assert!(!matches_binding("ctrl+", &key(KeyCode::Char('x'), ctrl())));
    assert!(!matches_binding("f1", &key(KeyCode::Other, Modifiers::none())));
}

#[test]
fn alt_must_match_exactly() {
    let alt = Modifiers { alt: true, ..Modifiers::none() };
    assert!(matches_binding("alt+left", &key(KeyCode::Left, alt)));
    assert!(!matches_binding("left", &key(KeyCode::Left, alt)));
    assert!(!matches_binding("alt+left", &key(KeyCode::Left, Modifiers::none())));
}
