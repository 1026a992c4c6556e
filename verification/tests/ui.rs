use rtrax::browser::Browser;
use rtrax::config::{BuiltInTheme, ProgressBarStyle, ThemeChoice};
use rtrax::files::Listed;
use rtrax::input::Action;
use rtrax::playlist::Playlist;
use rtrax::ui::{
    browse_root_for, format_gain, gain_notice, line_count, max_scroll, AudioRequest, Effect, Focus,
    UiState,
};

fn file(path: &str) -> Listed {
    Listed { path: path.to_string(), is_dir: false, is_file: true }
}

fn state(playlist: Option<Playlist>, current: Option<&str>) -> UiState {
    let browser = Browser::new(
        "/".to_string(),
        Some(vec![file("/a.xm"), file("/b.xm"), file("/c.xm")]),
    );
    let choices = vec![
        ThemeChoice::BuiltIn(BuiltInTheme::Default),
        ThemeChoice::BuiltIn(BuiltInTheme::Mono),
    ];
    UiState::new(
        browser,
        ThemeChoice::BuiltIn(BuiltInTheme::Default),
        choices,
        ProgressBarStyle::Blocks,
        current.map(|s| s.to_string()),
        playlist,
    )
}

#[test]
fn format_gain_renders_signed_db() {
    assert_eq!(format_gain(0), "0 dB");
    assert_eq!(format_gain(200), "+2 dB");
    assert_eq!(format_gain(1200), "+12 dB");
    assert_eq!(format_gain(-600), "-6 dB");
    assert_eq!(format_gain(-4000), "-40 dB");
}

#[test]
fn format_gain_rounds_toward_zero() {
    assert_eq!(format_gain(99), "0 dB");
    assert_eq!(format_gain(-150), "-1 dB");
    assert_eq!(gain_notice(0), "gain 0 dB (unity)");
    assert_eq!(gain_notice(-200), "gain -2 dB");
}

#[test]
fn max_scroll_empty_is_zero() {
    assert_eq!(max_scroll(0), 0);
}

#[test]
fn max_scroll_single_line_is_zero() {
    assert_eq!(max_scroll(1), 0);
}

#[test]
fn max_scroll_n_lines_is_n_minus_one() {
    assert_eq!(max_scroll(10), 9);
    assert_eq!(max_scroll(100), 99);
}

#[test]
fn max_scroll_saturates_at_u16_max() {
    assert_eq!(max_scroll(usize::MAX), u16::MAX);
}

#[test]
fn line_count_matches_str_lines() {
    for t in ["", "a", "a\n", "a\nb", "a\n\nb\n", "\n", "x\r\ny"] {
        assert_eq!(line_count(t), t.lines().count(), "text {t:?}");
    }
}

#[test]
fn volume_is_clamped_to_its_range() {
    let mut ui = state(None, None);
    for _ in 0..10 {
        ui.handle_action(Action::VolumeUp, false, 0);
    }
    assert_eq!(ui.volume_millibel, 1200);
    for _ in 0..40 {
        ui.handle_action(Action::VolumeDown, false, 0);
    }
    assert_eq!(ui.volume_millibel, -4000);
    let r = ui.handle_action(Action::ResetGain, false, 0);
    assert_eq!(ui.volume_millibel, 0);
    assert!(matches!(r.effect, Effect::Audio(AudioRequest::Gain(0))));
    assert_eq!(r.notice.as_deref(), Some("gain 0 dB (unity)"));
}

#[test]
fn escape_closes_overlays_before_leaving_the_browser() {
    let mut ui = state(None, None);
    ui.handle_action(Action::FocusBrowser, false, 0);
    ui.handle_action(Action::Help, false, 0);
    assert!(ui.show_help);
    ui.handle_action(Action::ToggleSongMessage, false, 0);
    assert!(ui.show_message && !ui.show_help);
    ui.handle_action(Action::Esc, false, 0);
    assert!(!ui.show_message);
    assert_eq!(ui.focus, Focus::Browser);
    ui.handle_action(Action::Esc, false, 0);
    assert_eq!(ui.focus, Focus::Pattern);
}

#[test]
fn movement_scrolls_the_message_or_moves_the_browser() {
    let mut ui = state(None, None);
    ui.handle_action(Action::ToggleSongMessage, false, 0);
    ui.handle_action(Action::PageDown, false, 5);
    assert_eq!(ui.message_scroll, 4);
    ui.handle_action(Action::Up, false, 5);
    assert_eq!(ui.message_scroll, 3);
    ui.handle_action(Action::PageUp, false, 5);
    assert_eq!(ui.message_scroll, 0);
    ui.handle_action(Action::Esc, false, 5);
    ui.handle_action(Action::FocusBrowser, false, 0);
    ui.handle_action(Action::Down, false, 0);
    assert_eq!(ui.browser.selected_index(), Some(1));
    ui.handle_action(Action::Up, false, 0);
    ui.handle_action(Action::Up, false, 0);
    assert_eq!(ui.browser.selected_index(), Some(2));
}

#[test]
fn enter_plays_the_selected_module_and_returns_focus() {
    let mut ui = state(None, None);
    ui.handle_action(Action::CycleFocus, false, 0);
    assert_eq!(ui.focus, Focus::Browser);
    let r = ui.handle_action(Action::Enter, false, 0);
    match r.effect {
        Effect::Load(p) => assert_eq!(p, "/a.xm"),
        _ => panic!("expected a load"),
    }
    assert_eq!(ui.focus, Focus::Pattern);
}

#[test]
fn next_prefers_the_playlist_then_the_folder() {
    let pl = Playlist::from_files(vec!["/x.xm".to_string(), "/y.xm".to_string()], None);
    let mut ui = state(Some(pl), Some("/x.xm"));
    match ui.handle_action(Action::Next, false, 0).effect {
        Effect::Load(p) => assert_eq!(p, "/y.xm"),
        _ => panic!("expected the playlist's next track"),
    }
    ui.loaded("/b.xm".to_string());
    match ui.handle_action(Action::Next, false, 0).effect {
        Effect::Load(p) => assert_eq!(p, "/c.xm"),
        _ => panic!("expected the folder's next module"),
    }
    let mut idle = state(None, None);
    assert!(matches!(idle.handle_action(Action::Next, false, 0).effect, Effect::Nothing));
}

#[test]
fn play_pause_depends_on_playback() {
    let mut ui = state(None, None);
    assert!(matches!(
        ui.handle_action(Action::PlayPause, true, 0).effect,
        Effect::Audio(AudioRequest::Pause)
    ));
    assert!(matches!(
        ui.handle_action(Action::PlayPause, false, 0).effect,
        Effect::Audio(AudioRequest::Play)
    ));
}

#[test]
fn cycling_theme_and_style_flash_notices() {
    let mut ui = state(None, None);
    let r = ui.handle_action(Action::CycleTheme, false, 0);
    assert!(matches!(r.effect, Effect::ThemeChanged));
    assert_eq!(r.notice.as_deref(), Some("theme: mono"));
    let r = ui.handle_action(Action::CycleTheme, false, 0);
    assert_eq!(r.notice.as_deref(), Some("theme: default"));
    let r = ui.handle_action(Action::CycleProgressBarStyle, false, 0);
    assert_eq!(ui.progress_bar_style, ProgressBarStyle::Line);
    assert_eq!(r.notice.as_deref(), Some("progress bar: line"));
}

#[test]
fn configured_custom_theme_joins_the_choices() {
    let browser = Browser::new("/".to_string(), None);
    let ui = UiState::new(
        browser,
        ThemeChoice::Custom("mine".to_string()),
        vec![ThemeChoice::BuiltIn(BuiltInTheme::Default)],
        ProgressBarStyle::Line,
        None,
        None,
    );
    assert_eq!(ui.theme_choices.len(), 2);
    assert_eq!(ui.theme_choices[1], ThemeChoice::Custom("mine".to_string()));
}

#[test]
fn adding_to_the_playlist() {
    let pl = Playlist::from_m3u("/x.xm\n", "/lists/mine.m3u");
    let mut ui = state(Some(pl), Some("/b.xm"));
    match ui.handle_action(Action::AddToPlaylist, false, 0).effect {
        Effect::AddToPlaylist { entry, target } => {
            assert_eq!(entry, "/b.xm");
            assert_eq!(target.as_deref(), Some("/lists/mine.m3u"));
        }
        _ => panic!("expected an append"),
    }
    assert_eq!(ui.added("/b.xm".to_string(), "/lists/mine.m3u"), "added to mine.m3u");
    assert_eq!(ui.playlist.as_ref().map(|p| p.len()), Some(2));
}

#[test]
fn auto_layout_follows_channel_count_changes() {
    let mut ui = state(None, None);
    ui.maybe_auto_layout(true, 24);
    assert_eq!(ui.pattern_view.stack, 4);
    ui.handle_action(Action::CyclePatternStack, false, 0);
    assert_eq!(ui.pattern_view.stack, 1);
    ui.maybe_auto_layout(true, 24);
    assert_eq!(ui.pattern_view.stack, 1);
    ui.maybe_auto_layout(true, 4);
    assert_eq!(ui.pattern_view.stack, 1);
    assert!(!ui.pattern_view.compact);
    ui.maybe_auto_layout(false, 64);
    assert_eq!(ui.last_layout_channels, 4);
}

#[test]
fn browser_root_falls_back_in_order() {
    assert_eq!(browse_root_for(Some("/m/a.xm"), Some("/d"), Some("/w")), "/m");
    assert_eq!(browse_root_for(None, Some("/d"), Some("/w")), "/d");
    assert_eq!(browse_root_for(None, None, Some("/w")), "/w");
    assert_eq!(browse_root_for(None, None, None), ".");
}

#[test]
fn quit_sets_the_flag() {
    let mut ui = state(None, None);
    let r = ui.handle_action(Action::Quit, false, 0);
    assert!(ui.should_quit);
    assert!(matches!(r.effect, Effect::Quit));
}

#[test]
fn overlay_keys_leave_gain_focus_and_track_alone() {
    let mut ui = state(None, Some("/a.xm"));
    ui.handle_action(Action::VolumeUp, false, 0);
    for action in [Action::Help, Action::ToggleInfo, Action::ToggleSongMessage, Action::Esc] {
        let r = ui.handle_action(action, false, 0);
        assert!(matches!(r.effect, Effect::Nothing));
        assert!(r.notice.is_none());
    }
    assert_eq!(ui.volume_millibel, 200);
    assert_eq!(ui.focus, Focus::Pattern);
    assert_eq!(ui.current_path.as_deref(), Some("/a.xm"));
    assert!(ui.show_info);
}

#[test]
fn previous_from_the_first_module_wraps_to_the_last() {
    let mut ui = state(None, Some("/a.xm"));
    match ui.handle_action(Action::Prev, false, 0).effect {
        Effect::Load(p) => assert_eq!(p, "/c.xm"),
        _ => panic!("expected the folder's last module"),
    }
    assert_eq!(ui.browser.selected_index(), Some(2));
}
