use rtrax::config::{BuiltInTheme, Config, KeyMap, ProgressBarStyle, ThemeChoice};

#[test]
fn from_name_recognises_all_builtin_names() {
    let cases = [
        ("default", BuiltInTheme::Default),
        ("high-contrast", BuiltInTheme::HighContrast),
        ("sixteen", BuiltInTheme::Sixteen),
        ("neon-blue", BuiltInTheme::NeonBlue),
        ("neon-green", BuiltInTheme::NeonGreen),
        ("neon-orange", BuiltInTheme::NeonOrange),
        ("c64", BuiltInTheme::C64),
        ("mono", BuiltInTheme::Mono),
    ];
    for (name, expected) in cases {
        assert_eq!(
            ThemeChoice::from_name(name),
            ThemeChoice::BuiltIn(expected),
            "failed for {name}"
        );
    }
}

#[test]
fn from_name_recognises_aliases() {
    assert_eq!(ThemeChoice::from_name("16"), ThemeChoice::BuiltIn(BuiltInTheme::Sixteen));
    assert_eq!(ThemeChoice::from_name("commodore-64"), ThemeChoice::BuiltIn(BuiltInTheme::C64));
    assert_eq!(ThemeChoice::from_name("commodore64"), ThemeChoice::BuiltIn(BuiltInTheme::C64));
    assert_eq!(ThemeChoice::from_name("monochrome"), ThemeChoice::BuiltIn(BuiltInTheme::Mono));
    assert_eq!(
        ThemeChoice::from_name("highcontrast"),
        ThemeChoice::BuiltIn(BuiltInTheme::HighContrast)
    );
}

#[test]
fn from_name_is_case_insensitive() {
    assert_eq!(ThemeChoice::from_name("DEFAULT"), ThemeChoice::BuiltIn(BuiltInTheme::Default));
    assert_eq!(ThemeChoice::from_name("Mono"), ThemeChoice::BuiltIn(BuiltInTheme::Mono));
    assert_eq!(ThemeChoice::from_name("NEON-BLUE"), ThemeChoice::BuiltIn(BuiltInTheme::NeonBlue));
}

#[test]
fn from_name_normalises_underscores_and_spaces() {
    assert_eq!(ThemeChoice::from_name("neon_blue"), ThemeChoice::BuiltIn(BuiltInTheme::NeonBlue));
    assert_eq!(ThemeChoice::from_name("neon blue"), ThemeChoice::BuiltIn(BuiltInTheme::NeonBlue));
    assert_eq!(
        ThemeChoice::from_name("high_contrast"),
        ThemeChoice::BuiltIn(BuiltInTheme::HighContrast)
    );
}

#[test]
fn from_name_unknown_becomes_custom() {
    let choice = ThemeChoice::from_name("my-custom-theme");
    assert!(matches!(choice, ThemeChoice::Custom(_)));
    assert_eq!(choice.name(), "my-custom-theme");
}

#[test]
fn theme_choice_name_roundtrips_for_all_builtins() {
    for builtin in BuiltInTheme::ALL {
        let choice = ThemeChoice::BuiltIn(builtin);
        let roundtripped = ThemeChoice::from_name(choice.name());
        assert_eq!(roundtripped, choice, "roundtrip failed for {:?}", builtin);
    }
}

#[test]
fn config_default_has_default_theme() {
    let cfg = Config::default();
    assert_eq!(cfg.theme, ThemeChoice::BuiltIn(BuiltInTheme::Default));
}

#[test]
fn keymap_default_contains_expected_bindings() {
    let km = KeyMap::default();
    assert!(km.quit.contains(&"q".to_string()));
    assert!(km.quit.contains(&"ctrl+c".to_string()));
    assert!(km.play_pause.contains(&"space".to_string()));
    assert!(km.add_to_playlist.contains(&"a".to_string()));
    assert!(km.help.contains(&"?".to_string()));
    assert!(km.toggle_song_message.contains(&"m".to_string()));
    assert!(km.cycle_progress_bar_style.contains(&"b".to_string()));
}

#[test]
fn progress_bar_style_default_is_blocks() {
    assert_eq!(ProgressBarStyle::default(), ProgressBarStyle::Blocks);
}

#[test]
fn progress_bar_style_from_name_recognises_canonical_names() {
    for style in ProgressBarStyle::ALL {
        assert_eq!(
            ProgressBarStyle::from_name(style.name()),
            Some(style),
            "roundtrip failed for {:?}",
            style
        );
    }
}

#[test]
fn progress_bar_style_from_name_accepts_aliases() {
    assert_eq!(ProgressBarStyle::from_name("BLOCK"), Some(ProgressBarStyle::Blocks));
    assert_eq!(ProgressBarStyle::from_name("tri"), Some(ProgressBarStyle::Triangle));
    assert_eq!(ProgressBarStyle::from_name("segmented"), Some(ProgressBarStyle::Segments));
}

#[test]
fn progress_bar_style_deserializes_from_string_and_falls_back_on_unknown() {
    // A configuration value is read through `from_config_value`.
    assert_eq!(ProgressBarStyle::from_config_value("line"), ProgressBarStyle::Line);
    assert_eq!(ProgressBarStyle::from_config_value("made-up"), ProgressBarStyle::Blocks);
}

#[test]
fn progress_bar_style_cycles_through_all_four() {
    let mut s = ProgressBarStyle::Triangle;
    let mut seen = Vec::new();
    for _ in 0..4 {
        seen.push(s);
        s = s.next();
    }
    assert_eq!(s, ProgressBarStyle::Triangle);
    assert_eq!(
        seen,
        vec![
            ProgressBarStyle::Triangle,
            ProgressBarStyle::Blocks,
            ProgressBarStyle::Line,
            ProgressBarStyle::Segments
        ]
    );
}

#[test]
fn config_dir_prefers_xdg_then_home_then_platform() {
    assert_eq!(
        Config::config_dir(Some("/x"), Some("/home/u"), Some("/p")),
        Some("/x/rtrax".to_string())
    );
    assert_eq!(
        Config::config_dir(Some(""), Some("/home/u"), Some("/p")),
        Some("/home/u/.config/rtrax".to_string())
    );
    assert_eq!(Config::config_dir(None, None, Some("/p")), Some("/p/rtrax".to_string()));
    assert_eq!(Config::config_dir(None, None, None), None);
    assert_eq!(
        Config::theme_dir(Some("/x/rtrax")),
        Some("/x/rtrax/themes".to_string())
    );
}

#[test]
fn load_falls_back_to_defaults() {
    let cfg = Config::load(None);
    assert_eq!(cfg.progress_bar_style, ProgressBarStyle::Blocks);
    assert!(cfg.auto_layout);
    let mut custom = Config::default();
    custom.auto_layout = false;
    let cfg = Config::load(Some(custom));
    assert!(!cfg.auto_layout);
}

#[test]
fn normalize_name_trims_lowercases_and_dashes() {
    assert_eq!(rtrax::config::normalize_name("  Neon_Blue "), "neon-blue");
    assert_eq!(rtrax::config::normalize_name("High Contrast"), "high-contrast");
}

#[test]
fn normalizing_twice_changes_nothing_more() {
    for name in ["  Neon_Blue ", "High Contrast", "\t_Mono_ ", "ÄB c", ""] {
        let once = rtrax::config::normalize_name(name);
        assert_eq!(rtrax::config::normalize_name(&once), once);
    }
}
