use rtrax::config::{BuiltInTheme, ThemeChoice};
use rtrax::files::Listed;
use rtrax::theme::{
    available_choices, custom_theme_path, parse_color, Color, ColorError, Theme, ThemeError,
    ThemeField, ThemeFile, ThemeResolver, ThemeStep,
};

fn empty_file() -> ThemeFile {
    ThemeFile {
        extends: None,
        bg: None,
        fg: None,
        fg_dim: None,
        border: None,
        border_focus: None,
        accent: None,
        note: None,
        instrument: None,
        volume: None,
        effect: None,
        meter_low: None,
        meter_mid: None,
        meter_high: None,
        current_row_bg: None,
    }
}

#[test]
fn parse_color_accepts_names_and_hex() {
    assert_eq!(parse_color("reset"), Ok(Color::Reset));
    assert_eq!(parse_color(" Dark_Grey "), Ok(Color::DarkGray));
    assert_eq!(parse_color("light magenta"), Ok(Color::LightMagenta));
    assert_eq!(parse_color("#FF8000"), Ok(Color::Rgb(0xff, 0x80, 0x00)));
    assert_eq!(parse_color("#+f+f+f"), Ok(Color::Rgb(15, 15, 15)));
    assert_eq!(parse_color("#12345g"), Err(ColorError::BadHex));
    assert_eq!(parse_color("#éé12"), Err(ColorError::BadHex));
    assert_eq!(parse_color("#12345"), Err(ColorError::NotAColor));
    assert_eq!(parse_color("purple"), Err(ColorError::NotAColor));
}

#[test]
fn built_in_palettes() {
    let d = Theme::built_in(BuiltInTheme::Default);
    assert_eq!(d.fg, Color::Rgb(0xc8, 0xd0, 0xc4));
    let h = Theme::built_in(BuiltInTheme::HighContrast);
    assert_eq!(h.fg, Color::White);
    assert_eq!(h.note, d.note);
    assert_eq!(Theme::built_in(BuiltInTheme::Mono).bg, Color::Black);
    assert_eq!(Theme::built_in(BuiltInTheme::C64).bg, Color::Rgb(0x35, 0x28, 0x79));
}

#[test]
fn theme_file_overrides_fields_and_reports_the_first_bad_one() {
    let mut f = empty_file();
    f.accent = Some("red".to_string());
    let t = f.apply(Theme::sixteen()).unwrap();
    assert_eq!(t.accent, Color::Red);
    assert_eq!(t.fg, Color::Gray);
    f.fg = Some("nope".to_string());
    f.note = Some("also-nope".to_string());
    assert_eq!(f.apply(Theme::sixteen()), Err(ThemeError::InvalidColor(ThemeField::Fg)));
}

#[test]
fn resolver_follows_extends_and_applies_innermost_first() {
    let (mut r, first) = ThemeResolver::start("child");
    assert_eq!(first, "child");
    let mut child = empty_file();
    child.extends = Some(ThemeChoice::Custom("parent".to_string()));
    child.fg = Some("white".to_string());
    match r.feed(child).unwrap() {
        ThemeStep::NeedFile(n) => assert_eq!(n, "parent"),
        _ => panic!("expected the parent to be asked for"),
    }
    let mut parent = empty_file();
    parent.extends = Some(ThemeChoice::BuiltIn(BuiltInTheme::Mono));
    parent.fg = Some("red".to_string());
    parent.accent = Some("blue".to_string());
    match r.feed(parent).unwrap() {
        ThemeStep::Done(t) => {
            assert_eq!(t.fg, Color::White);
            assert_eq!(t.accent, Color::Blue);
            assert_eq!(t.bg, Color::Black);
        }
        _ => panic!("expected a theme"),
    }
}

#[test]
fn extends_cycle_is_an_error() {
    let (mut r, _) = ThemeResolver::start("a");
    let mut a = empty_file();
    a.extends = Some(ThemeChoice::Custom("b".to_string()));
    assert!(matches!(r.feed(a), Ok(ThemeStep::NeedFile(_))));
    let mut b = empty_file();
    b.extends = Some(ThemeChoice::Custom("a".to_string()));
    assert_eq!(r.feed(b).err(), Some(ThemeError::Cycle("a".to_string())));
}

#[test]
fn custom_theme_paths() {
    assert_eq!(custom_theme_path(Some("/cfg/themes"), "x"), Ok("/cfg/themes/x.toml".to_string()));
    assert_eq!(custom_theme_path(Some("/cfg/themes"), "x.toml"), Ok("/cfg/themes/x.toml".to_string()));
    assert_eq!(custom_theme_path(None, "x"), Err(ThemeError::NoThemeDirectory));
}

#[test]
fn available_choices_skip_shadowing_and_sort() {
    let l = |p: &str| Listed { path: p.to_string(), is_dir: false, is_file: true };
    let choices = available_choices(Some(vec![
        l("/t/zeta.toml"),
        l("/t/mono.toml"),
        l("/t/alpha.toml"),
        l("/t/readme.md"),
    ]));
    assert_eq!(choices.len(), 10);
    assert_eq!(choices[0], ThemeChoice::BuiltIn(BuiltInTheme::Default));
    assert_eq!(choices[7], ThemeChoice::BuiltIn(BuiltInTheme::Mono));
    assert_eq!(choices[8], ThemeChoice::Custom("alpha".to_string()));
    assert_eq!(choices[9], ThemeChoice::Custom("zeta".to_string()));
    assert_eq!(available_choices(None).len(), 8);
}

#[test]
fn theme_names_split_at_the_last_dot() {
    let l = |p: &str| Listed { path: p.to_string(), is_dir: false, is_file: true };
    let choices = available_choices(Some(vec![
        l("/t/amber.dark.toml"),
        l("/t/.toml"),
        l("/t/plain"),
        l("/t/x.TOML"),
    ]));
    assert_eq!(choices.len(), 9);
    assert_eq!(choices[8], ThemeChoice::Custom("amber.dark".to_string()));
}
