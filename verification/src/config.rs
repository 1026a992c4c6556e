//! Configuration: key bindings, theme selection, progress-bar style and the
//! default browse path, plus the name parsers that read them from text.
//!
//! Reading `config.toml` from disk happens in the program; this module holds
//! the typed configuration and the rules that turn user-written names into
//! choices.

use crate::text::{
    ascii_lower_exec, ascii_lower_seq, chars_are, chars_eq, chars_of, normalize_chars, normalized,
    string_from_chars, trim, trim_chars, views,
};
use crate::paths::{join, join_path};
use vstd::prelude::*;

verus! {

/// Visual style for the song progress bar in the header.
#[derive(Debug, Clone, Copy, PartialEq, Eq, Structural)]
pub enum ProgressBarStyle {
    /// `[━━━━▲────]` — single marker over an empty track.
    Triangle,
    /// `████▌    ` — solid fill with smooth eighth-block trailing edge.
    Blocks,
    /// `━━━━╸────` — line that swaps from heavy to light at the play head.
    Line,
    /// `▰▰▰▰▱▱▱▱` — discrete pip segments.
    Segments,
}

/// The canonical configuration name of a progress-bar style.
pub open spec fn style_name(s: ProgressBarStyle) -> Seq<char> {
    match s {
        ProgressBarStyle::Triangle => "triangle"@,
        ProgressBarStyle::Blocks => "blocks"@,
        ProgressBarStyle::Line => "line"@,
        ProgressBarStyle::Segments => "segments"@,
    }
}

/// The style a user-written name selects: the name is trimmed and ASCII
/// lower-cased, then matched against the canonical names and their aliases.
pub open spec fn style_from_name(s: Seq<char>) -> Option<ProgressBarStyle> {
    let n = ascii_lower_seq(trim(s));
    if n == "triangle"@ || n == "tri"@ {
        Some(ProgressBarStyle::Triangle)
    } else if n == "blocks"@ || n == "block"@ {
        Some(ProgressBarStyle::Blocks)
    } else if n == "line"@ {
        Some(ProgressBarStyle::Line)
    } else if n == "segments"@ || n == "segment"@ || n == "segmented"@ {
        Some(ProgressBarStyle::Segments)
    } else {
        None
    }
}

/// The style after `s` in cycle order (triangle, blocks, line, segments).
pub open spec fn style_after(s: ProgressBarStyle) -> ProgressBarStyle {
    match s {
        ProgressBarStyle::Triangle => ProgressBarStyle::Blocks,
        ProgressBarStyle::Blocks => ProgressBarStyle::Line,
        ProgressBarStyle::Line => ProgressBarStyle::Segments,
        ProgressBarStyle::Segments => ProgressBarStyle::Triangle,
    }
}

/// Lower-cases the ASCII letters of a character vector.
pub fn ascii_lower_chars(s: &[char]) -> (r: Vec<char>)
    ensures
        r@ == ascii_lower_seq(s@),
{
    let mut out: Vec<char> = Vec::new();
    let mut i: usize = 0;
    while i < s.len()
        invariant
            i <= s@.len(),
            out@ == ascii_lower_seq(s@).subrange(0, i as int),
        decreases s@.len() - i,
    {
        out.push(ascii_lower_exec(s[i]));
        proof {
            assert(out@ == ascii_lower_seq(s@).subrange(0, i + 1));
        }
        i = i + 1;
    }
    assert(out@ == ascii_lower_seq(s@));
    out
}

impl ProgressBarStyle {
    /// Every variant in cycle order — used by the `b` keybinding.
    pub const ALL: [ProgressBarStyle; 4] = [
        ProgressBarStyle::Triangle,
        ProgressBarStyle::Blocks,
        ProgressBarStyle::Line,
        ProgressBarStyle::Segments,
    ];

    pub fn name(self) -> (r: &'static str)
        ensures
            r@ == style_name(self),
    {
        match self {
            ProgressBarStyle::Triangle => "triangle",
            ProgressBarStyle::Blocks => "blocks",
            ProgressBarStyle::Line => "line",
            ProgressBarStyle::Segments => "segments",
        }
    }

    pub fn from_name(s: &str) -> (r: Option<ProgressBarStyle>)
        ensures
            r == style_from_name(s@),
    {
        let raw = chars_of(s);
        let t = trim_chars(raw.as_slice());
        let n = ascii_lower_chars(t.as_slice());
        let n = n.as_slice();
        if chars_are(n, "triangle") || chars_are(n, "tri") {
            Some(ProgressBarStyle::Triangle)
        } else if chars_are(n, "blocks") || chars_are(n, "block") {
            Some(ProgressBarStyle::Blocks)
        } else if chars_are(n, "line") {
            Some(ProgressBarStyle::Line)
        } else if chars_are(n, "segments") || chars_are(n, "segment") || chars_are(
            n,
            "segmented",
        ) {
            Some(ProgressBarStyle::Segments)
        } else {
            None
        }
    }

    /// The style a configuration value selects; unknown names fall back to
    /// the default style rather than failing the whole config.
    pub fn from_config_value(s: &str) -> (r: ProgressBarStyle)
        ensures
            r == (match style_from_name(s@) {
                Some(style) => style,
                None => ProgressBarStyle::Blocks,
            }),
    {
        match Self::from_name(s) {
            Some(style) => style,
            None => ProgressBarStyle::default(),
        }
    }

    /// The next style in cycle order.
    pub fn next(self) -> (r: ProgressBarStyle)
        ensures
            r == style_after(self),
    {
        match self {
            ProgressBarStyle::Triangle => ProgressBarStyle::Blocks,
            ProgressBarStyle::Blocks => ProgressBarStyle::Line,
            ProgressBarStyle::Line => ProgressBarStyle::Segments,
            ProgressBarStyle::Segments => ProgressBarStyle::Triangle,
        }
    }
}

impl Default for ProgressBarStyle {
    fn default() -> (r: ProgressBarStyle)
        ensures
            r == ProgressBarStyle::Blocks,
    {
        ProgressBarStyle::Blocks
    }
}

#[derive(Debug, Clone, Copy, PartialEq, Eq, Structural)]
pub enum BuiltInTheme {
    Default,
    HighContrast,
    Sixteen,
    NeonBlue,
    NeonGreen,
    NeonOrange,
    C64,
    Mono,
}

/// The configuration name of a built-in theme.
pub open spec fn theme_config_name(t: BuiltInTheme) -> Seq<char> {
    match t {
        BuiltInTheme::Default => "default"@,
        BuiltInTheme::HighContrast => "high-contrast"@,
        BuiltInTheme::Sixteen => "sixteen"@,
        BuiltInTheme::NeonBlue => "neon-blue"@,
        BuiltInTheme::NeonGreen => "neon-green"@,
        BuiltInTheme::NeonOrange => "neon-orange"@,
        BuiltInTheme::C64 => "c64"@,
        BuiltInTheme::Mono => "mono"@,
    }
}

/// The built-in theme a normalized name denotes, aliases included.
pub open spec fn builtin_for_normalized(n: Seq<char>) -> Option<BuiltInTheme> {
    if n == "default"@ {
        Some(BuiltInTheme::Default)
    } else if n == "highcontrast"@ || n == "high-contrast"@ {
        Some(BuiltInTheme::HighContrast)
    } else if n == "sixteen"@ || n == "16"@ {
        Some(BuiltInTheme::Sixteen)
    } else if n == "neon-blue"@ {
        Some(BuiltInTheme::NeonBlue)
    } else if n == "neon-green"@ {
        Some(BuiltInTheme::NeonGreen)
    } else if n == "neon-orange"@ {
        Some(BuiltInTheme::NeonOrange)
    } else if n == "c64"@ || n == "commodore-64"@ || n == "commodore64"@ {
        Some(BuiltInTheme::C64)
    } else if n == "mono"@ || n == "monochrome"@ {
        Some(BuiltInTheme::Mono)
    } else {
        None
    }
}

impl BuiltInTheme {
    /// Every built-in, in cycle order.
    pub const ALL: [BuiltInTheme; 8] = [
        BuiltInTheme::Default,
        BuiltInTheme::HighContrast,
        BuiltInTheme::Sixteen,
        BuiltInTheme::NeonBlue,
        BuiltInTheme::NeonGreen,
        BuiltInTheme::NeonOrange,
        BuiltInTheme::C64,
        BuiltInTheme::Mono,
    ];

    pub fn config_name(self) -> (r: &'static str)
        ensures
            r@ == theme_config_name(self),
    {
        match self {
            BuiltInTheme::Default => "default",
            BuiltInTheme::HighContrast => "high-contrast",
            BuiltInTheme::Sixteen => "sixteen",
            BuiltInTheme::NeonBlue => "neon-blue",
            BuiltInTheme::NeonGreen => "neon-green",
            BuiltInTheme::NeonOrange => "neon-orange",
            BuiltInTheme::C64 => "c64",
            BuiltInTheme::Mono => "mono",
        }
    }
}

#[derive(Debug, Clone, PartialEq, Eq)]
pub enum ThemeChoice {
    BuiltIn(BuiltInTheme),
    Custom(String),
}

/// The name a theme choice is written as in the configuration.
pub open spec fn choice_name(c: ThemeChoice) -> Seq<char> {
    match c {
        ThemeChoice::BuiltIn(t) => theme_config_name(t),
        ThemeChoice::Custom(name) => name@,
    }
}

/// What a user-written theme name selects: a built-in when its normalized
/// form is a built-in name or alias, otherwise a custom theme under the name
/// exactly as written.
pub open spec fn choice_from_name(s: Seq<char>) -> (ThemeChoiceModel) {
    match builtin_for_normalized(normalized(s)) {
        Some(t) => ThemeChoiceModel::BuiltIn(t),
        None => ThemeChoiceModel::Custom(s),
    }
}

/// A theme choice with its custom name as a character sequence.
pub enum ThemeChoiceModel {
    BuiltIn(BuiltInTheme),
    Custom(Seq<char>),
}

impl ThemeChoice {
    pub open spec fn model(self) -> ThemeChoiceModel {
        match self {
            ThemeChoice::BuiltIn(t) => ThemeChoiceModel::BuiltIn(t),
            ThemeChoice::Custom(name) => ThemeChoiceModel::Custom(name@),
        }
    }

    pub fn name(&self) -> (r: &str)
        ensures
            r@ == choice_name(*self),
    {
        match self {
            ThemeChoice::BuiltIn(theme) => theme.config_name(),
            ThemeChoice::Custom(name) => name.as_str(),
        }
    }

    pub fn from_name(s: &str) -> (r: ThemeChoice)
        ensures
            r.model() == choice_from_name(s@),
    {
        let raw = chars_of(s);
        let n = normalize_chars(raw.as_slice());
        match builtin_for_normalized_exec(n.as_slice()) {
            Some(t) => ThemeChoice::BuiltIn(t),
            None => ThemeChoice::Custom(s.to_owned()),
        }
    }

    /// Whether two choices select the same theme.
    pub fn same_as(&self, other: &ThemeChoice) -> (r: bool)
        ensures
            r == (self.model() == other.model()),
    {
        match (self, other) {
            (ThemeChoice::BuiltIn(a), ThemeChoice::BuiltIn(b)) => *a == *b,
            (ThemeChoice::Custom(a), ThemeChoice::Custom(b)) => {
                let x = chars_of(a.as_str());
                let y = chars_of(b.as_str());
                chars_eq(x.as_slice(), y.as_slice())
            },
            _ => false,
        }
    }

    /// A copy of this choice.
    pub fn duplicate(&self) -> (r: ThemeChoice)
        ensures
            r.model() == self.model(),
    {
        match self {
            ThemeChoice::BuiltIn(t) => ThemeChoice::BuiltIn(*t),
            ThemeChoice::Custom(name) => ThemeChoice::Custom(name.as_str().to_owned()),
        }
    }
}

impl Default for ThemeChoice {
    fn default() -> (r: ThemeChoice)
        ensures
            r == ThemeChoice::BuiltIn(BuiltInTheme::Default),
    {
        ThemeChoice::BuiltIn(BuiltInTheme::Default)
    }
}

/// The built-in theme a normalized name denotes.
pub fn builtin_for_normalized_exec(n: &[char]) -> (r: Option<BuiltInTheme>)
    ensures
        r == builtin_for_normalized(n@),
{
    if chars_are(n, "default") {
        Some(BuiltInTheme::Default)
    } else if chars_are(n, "highcontrast") || chars_are(n, "high-contrast") {
        Some(BuiltInTheme::HighContrast)
    } else if chars_are(n, "sixteen") || chars_are(n, "16") {
        Some(BuiltInTheme::Sixteen)
    } else if chars_are(n, "neon-blue") {
        Some(BuiltInTheme::NeonBlue)
    } else if chars_are(n, "neon-green") {
        Some(BuiltInTheme::NeonGreen)
    } else if chars_are(n, "neon-orange") {
        Some(BuiltInTheme::NeonOrange)
    } else if chars_are(n, "c64") || chars_are(n, "commodore-64") || chars_are(n, "commodore64") {
        Some(BuiltInTheme::C64)
    } else if chars_are(n, "mono") || chars_are(n, "monochrome") {
        Some(BuiltInTheme::Mono)
    } else {
        None
    }
}

/// Normalizes a theme name: trimmed, ASCII lower-cased, `_` and ` ` turned
/// into `-`. Used to compare names regardless of how they were written.
pub fn normalize_name(name: &str) -> (r: String)
    ensures
        r@ == normalized(name@),
{
    let raw = chars_of(name);
    let n = normalize_chars(raw.as_slice());
    string_from_chars(n.as_slice())
}

} // verus!

verus! {

proof fn lemma_plain_name_normal_form(s: Seq<char>)
    requires
        s.len() > 0,
        forall|i: int|
            0 <= i < s.len() ==> ('a' <= #[trigger] s[i] <= 'z' || '0' <= s[i] <= '9' || s[i]
                == '-'),
    ensures
        trim(s) == s,
        ascii_lower_seq(s) == s,
        normalized(s) == s,
{
    assert(!crate::text::is_white_space(s[0]));
    assert(crate::text::trim_start(s) == s);
    assert(!crate::text::is_white_space(s.last()));
    assert(crate::text::trim_end(s) == s);
    assert(ascii_lower_seq(s) =~= s);
    assert(crate::text::dash_seq(s) =~= s);
}

proof fn lemma_trim_start_edge(s: Seq<char>)
    ensures
        crate::text::trim_start(s).len() > 0 ==> !crate::text::is_white_space(
            crate::text::trim_start(s)[0],
        ),
    decreases s.len(),
{
    if s.len() > 0 && crate::text::is_white_space(s[0]) {
        lemma_trim_start_edge(s.drop_first());
    }
}

proof fn lemma_trim_end_edges(u: Seq<char>)
    ensures
        crate::text::trim_end(u).len() <= u.len(),
        crate::text::trim_end(u) == u.subrange(0, crate::text::trim_end(u).len() as int),
        crate::text::trim_end(u).len() > 0 ==> !crate::text::is_white_space(
            crate::text::trim_end(u).last(),
        ),
    decreases u.len(),
{
    if u.len() > 0 && crate::text::is_white_space(u.last()) {
        lemma_trim_end_edges(u.drop_last());
        let r = crate::text::trim_end(u.drop_last());
        assert(u.drop_last().subrange(0, r.len() as int) =~= u.subrange(0, r.len() as int));
    } else {
        assert(u.subrange(0, u.len() as int) =~= u);
    }
}

/// Normalizing a theme name twice gives what normalizing it once gives: a
/// normalized name is trimmed, lower-case and has no `_` or ` `.
pub proof fn normalize_is_idempotent(s: Seq<char>)
    ensures
        normalized(normalized(s)) == normalized(s),
{
    let t = trim(s);
    let m = normalized(s);
    lemma_trim_start_edge(s);
    lemma_trim_end_edges(crate::text::trim_start(s));
    assert(m.len() == t.len());
    assert forall|i: int| 0 <= i < m.len() implies m[i] == crate::text::dash(
        crate::text::ascii_lower(#[trigger] t[i]),
    ) by {}
    if m.len() > 0 {
        assert(t[0] == crate::text::trim_start(s)[0]);
        assert(!crate::text::is_white_space(m[0]));
        assert(!crate::text::is_white_space(m.last()));
        assert(crate::text::trim_start(m) == m);
        assert(crate::text::trim_end(m) == m);
    } else {
        assert(crate::text::trim_start(m) == m);
        assert(crate::text::trim_end(m) == m);
    }
    assert(trim(m) == m);
    assert(ascii_lower_seq(m) =~= m);
    assert(crate::text::dash_seq(m) =~= m);
}

/// Progress-bar style names and their aliases select their style however
/// they are written (blanks around them, any ASCII case): `triangle`/`tri`,
/// `blocks`/`block`, `line`, and `segments`/`segment`/`segmented`.
pub proof fn style_aliases_select_their_style(s: Seq<char>)
    ensures
        ({
            let n = ascii_lower_seq(trim(s));
            &&& (n == "triangle"@ || n == "tri"@) ==> style_from_name(s) == Some(
                ProgressBarStyle::Triangle,
            )
            &&& (n == "blocks"@ || n == "block"@) ==> style_from_name(s) == Some(
                ProgressBarStyle::Blocks,
            )
            &&& n == "line"@ ==> style_from_name(s) == Some(ProgressBarStyle::Line)
            &&& (n == "segments"@ || n == "segment"@ || n == "segmented"@) ==> style_from_name(s)
                == Some(ProgressBarStyle::Segments)
        }),
{
    reveal_strlit("triangle");
    reveal_strlit("tri");
    reveal_strlit("blocks");
    reveal_strlit("block");
    reveal_strlit("line");
    reveal_strlit("segments");
    reveal_strlit("segment");
    reveal_strlit("segmented");
    assert("triangle"@.len() == 8 && "triangle"@[0] == 't');
    assert("tri"@.len() == 3 && "tri"@[0] == 't');
    assert("blocks"@.len() == 6 && "blocks"@[0] == 'b');
    assert("block"@.len() == 5 && "block"@[0] == 'b');
    assert("line"@.len() == 4 && "line"@[0] == 'l');
    assert("segments"@.len() == 8 && "segments"@[0] == 's');
    assert("segment"@.len() == 7 && "segment"@[0] == 's');
    assert("segmented"@.len() == 9 && "segmented"@[0] == 's');
}

/// Built-in theme names and their aliases select their built-in theme
/// however they are written (blanks around them, any ASCII case, `_` or ` `
/// for `-`): `default`; `high-contrast`/`highcontrast`; `sixteen`/`16`;
/// `neon-blue`; `neon-green`; `neon-orange`; `c64`/`commodore-64`/
/// `commodore64`; `mono`/`monochrome`.
pub proof fn theme_aliases_select_their_builtin(s: Seq<char>)
    ensures
        ({
            let n = normalized(s);
            &&& n == "default"@ ==> choice_from_name(s) == ThemeChoiceModel::BuiltIn(
                BuiltInTheme::Default,
            )
            &&& (n == "high-contrast"@ || n == "highcontrast"@) ==> choice_from_name(s)
                == ThemeChoiceModel::BuiltIn(BuiltInTheme::HighContrast)
            &&& (n == "sixteen"@ || n == "16"@) ==> choice_from_name(s) == ThemeChoiceModel::BuiltIn(
                BuiltInTheme::Sixteen,
            )
            &&& n == "neon-blue"@ ==> choice_from_name(s) == ThemeChoiceModel::BuiltIn(
                BuiltInTheme::NeonBlue,
            )
            &&& n == "neon-green"@ ==> choice_from_name(s) == ThemeChoiceModel::BuiltIn(
                BuiltInTheme::NeonGreen,
            )
            &&& n == "neon-orange"@ ==> choice_from_name(s) == ThemeChoiceModel::BuiltIn(
                BuiltInTheme::NeonOrange,
            )
            &&& (n == "c64"@ || n == "commodore-64"@ || n == "commodore64"@) ==> choice_from_name(s)
                == ThemeChoiceModel::BuiltIn(BuiltInTheme::C64)
            &&& (n == "mono"@ || n == "monochrome"@) ==> choice_from_name(s)
                == ThemeChoiceModel::BuiltIn(BuiltInTheme::Mono)
        }),
{
    reveal_strlit("default");
    reveal_strlit("high-contrast");
    reveal_strlit("highcontrast");
    reveal_strlit("sixteen");
    reveal_strlit("16");
    reveal_strlit("neon-blue");
    reveal_strlit("neon-green");
    reveal_strlit("neon-orange");
    reveal_strlit("c64");
    reveal_strlit("commodore-64");
    reveal_strlit("commodore64");
    reveal_strlit("mono");
    reveal_strlit("monochrome");
    assert("default"@.len() == 7 && "default"@[0] == 'd');
    assert("high-contrast"@.len() == 13 && "high-contrast"@[0] == 'h');
    assert("highcontrast"@.len() == 12 && "highcontrast"@[0] == 'h');
    assert("sixteen"@.len() == 7 && "sixteen"@[0] == 's');
    assert("16"@.len() == 2 && "16"@[0] == '1');
    assert("neon-blue"@.len() == 9 && "neon-blue"@[0] == 'n');
    assert("neon-green"@.len() == 10 && "neon-green"@[0] == 'n');
    assert("neon-orange"@.len() == 11 && "neon-orange"@[0] == 'n');
    assert("c64"@.len() == 3 && "c64"@[0] == 'c');
    assert("commodore-64"@.len() == 12 && "commodore-64"@[0] == 'c');
    assert("commodore64"@.len() == 11 && "commodore64"@[0] == 'c');
    assert("mono"@.len() == 4 && "mono"@[0] == 'm');
    assert("monochrome"@.len() == 10 && "monochrome"@[0] == 'm');
}

/// Every progress-bar style's canonical name parses back to that style.
pub proof fn style_name_round_trip(s: ProgressBarStyle)
    ensures
        style_from_name(style_name(s)) == Some(s),
{
    reveal_strlit("triangle");
    reveal_strlit("tri");
    reveal_strlit("blocks");
    reveal_strlit("block");
    reveal_strlit("line");
    reveal_strlit("segments");
    reveal_strlit("segment");
    reveal_strlit("segmented");
    lemma_plain_name_normal_form(style_name(s));
}

/// Every built-in theme's configuration name selects that built-in again.
pub proof fn theme_name_round_trip(t: BuiltInTheme)
    ensures
        choice_from_name(choice_name(ThemeChoice::BuiltIn(t))) == ThemeChoiceModel::BuiltIn(t),
{
    reveal_strlit("default");
    reveal_strlit("highcontrast");
    reveal_strlit("high-contrast");
    reveal_strlit("sixteen");
    reveal_strlit("16");
    reveal_strlit("neon-blue");
    reveal_strlit("neon-green");
    reveal_strlit("neon-orange");
    reveal_strlit("c64");
    reveal_strlit("commodore-64");
    reveal_strlit("commodore64");
    reveal_strlit("mono");
    reveal_strlit("monochrome");
    lemma_plain_name_normal_form(theme_config_name(t));
}

/// Cycling the progress-bar style visits all four styles and returns to the
/// start after four steps.
pub proof fn style_cycle_has_period_four(s: ProgressBarStyle)
    ensures
        style_after(style_after(style_after(style_after(s)))) == s,
        style_after(s) != s,
{
}

} // verus!

verus! {


/// Key bindings, one list per action so users can add aliases.
#[derive(Debug, Clone)]
pub struct KeyMap {
    pub quit: Vec<String>,
    pub play_pause: Vec<String>,
    pub stop: Vec<String>,
    pub next: Vec<String>,
    pub prev: Vec<String>,
    pub seek_forward: Vec<String>,
    pub seek_back: Vec<String>,
    pub volume_up: Vec<String>,
    pub volume_down: Vec<String>,
    pub reset_gain: Vec<String>,
    pub focus_browser: Vec<String>,
    pub cycle_focus: Vec<String>,
    pub cycle_theme: Vec<String>,
    pub toggle_info: Vec<String>,
    pub cycle_pattern_stack: Vec<String>,
    pub toggle_pattern_compact: Vec<String>,
    pub help: Vec<String>,
    pub toggle_song_message: Vec<String>,
    pub add_to_playlist: Vec<String>,
    pub cycle_progress_bar_style: Vec<String>,
}

fn one(a: &str) -> (r: Vec<String>)
    ensures
        views(r@) == seq![a@],
{
    let mut v: Vec<String> = Vec::new();
    v.push(a.to_owned());
    assert(views(v@) =~= seq![a@]);
    v
}

impl KeyMap {
    /// Whether every binding list holds exactly the shipped defaults.
    pub open spec fn is_default(&self) -> bool {
        &&& views(self.quit@) == seq!["q"@, "ctrl+c"@]
        &&& views(self.play_pause@) == seq!["space"@]
        &&& views(self.stop@) == seq!["s"@]
        &&& views(self.next@) == seq!["n"@]
        &&& views(self.prev@) == seq!["p"@]
        &&& views(self.seek_forward@) == seq!["right"@]
        &&& views(self.seek_back@) == seq!["left"@]
        &&& views(self.volume_up@) == seq!["]"@]
        &&& views(self.volume_down@) == seq!["["@]
        &&& views(self.reset_gain@) == seq!["\\"@]
        &&& views(self.focus_browser@) == seq!["/"@]
        &&& views(self.cycle_focus@) == seq!["tab"@]
        &&& views(self.cycle_theme@) == seq!["t"@]
        &&& views(self.toggle_info@) == seq!["i"@]
        &&& views(self.cycle_pattern_stack@) == seq!["w"@]
        &&& views(self.toggle_pattern_compact@) == seq!["c"@]
        &&& views(self.help@) == seq!["?"@]
        &&& views(self.toggle_song_message@) == seq!["m"@]
        &&& views(self.add_to_playlist@) == seq!["a"@]
        &&& views(self.cycle_progress_bar_style@) == seq!["b"@]
    }
}

impl Default for KeyMap {
    fn default() -> (r: KeyMap)
        ensures
            r.is_default(),
    {
        let mut quit: Vec<String> = Vec::new();
        quit.push("q".to_owned());
        quit.push("ctrl+c".to_owned());
        assert(views(quit@) =~= seq!["q"@, "ctrl+c"@]);
        KeyMap {
            quit,
            play_pause: one("space"),
            stop: one("s"),
            next: one("n"),
            prev: one("p"),
            seek_forward: one("right"),
            seek_back: one("left"),
            volume_up: one("]"),
            volume_down: one("["),
            reset_gain: one("\\"),
            focus_browser: one("/"),
            cycle_focus: one("tab"),
            cycle_theme: one("t"),
            toggle_info: one("i"),
            cycle_pattern_stack: one("w"),
            toggle_pattern_compact: one("c"),
            help: one("?"),
            toggle_song_message: one("m"),
            add_to_playlist: one("a"),
            cycle_progress_bar_style: one("b"),
        }
    }
}

#[derive(Debug, Clone)]
pub struct Config {
    pub theme: ThemeChoice,
    pub default_browse_path: Option<String>,
    pub progress_bar_style: ProgressBarStyle,
    /// When true, the pattern view auto-picks its lane count + compact mode from
    /// the channel count each time a new module loads. Manual `w`/`c` overrides
    /// last until the next load. Defaults to on.
    pub auto_layout: bool,
    pub keymap: KeyMap,
}

impl Default for Config {
    fn default() -> (r: Config)
        ensures
            r.theme == ThemeChoice::BuiltIn(BuiltInTheme::Default),
            r.default_browse_path is None,
            r.progress_bar_style == ProgressBarStyle::Blocks,
            r.auto_layout,
            r.keymap.is_default(),
    {
        Config {
            theme: ThemeChoice::default(),
            default_browse_path: None,
            progress_bar_style: ProgressBarStyle::default(),
            auto_layout: true,
            keymap: KeyMap::default(),
        }
    }
}


/// The configuration directory: `$XDG_CONFIG_HOME` when set and not empty,
/// else `.config` in the home directory, else the platform's configuration
/// directory — with `rtrax` appended; none when all three are unknown.
pub open spec fn config_dir_of(
    xdg: Option<Seq<char>>,
    home: Option<Seq<char>>,
    platform: Option<Seq<char>>,
) -> Option<Seq<char>> {
    let base = match xdg {
        Some(x) if x.len() > 0 => Some(x),
        _ => match home {
            Some(h) => Some(join(h, ".config"@)),
            None => platform,
        },
    };
    match base {
        Some(b) => Some(join(b, "rtrax"@)),
        None => None,
    }
}

/// An optional text, by value.
pub open spec fn opt_str(s: Option<&str>) -> Option<Seq<char>> {
    match s {
        Some(x) => Some(x@),
        None => None,
    }
}

impl Config {
    /// Where the configuration lives, from the `XDG_CONFIG_HOME` variable, the
    /// home directory and the platform's configuration directory.
    pub fn config_dir(xdg: Option<&str>, home: Option<&str>, platform: Option<&str>) -> (r: Option<
        String,
    >)
        ensures
            crate::launch::opt_view(r) == config_dir_of(opt_str(xdg), opt_str(home), opt_str(platform)),
    {
        let base: Option<String> = match xdg {
            Some(x) if x.unicode_len() > 0 => Some(x.to_owned()),
            _ => match home {
                Some(h) => Some(join_path(h, ".config")),
                None => match platform {
                    Some(p) => Some(p.to_owned()),
                    None => None,
                },
            },
        };
        match base {
            Some(b) => Some(join_path(b.as_str(), "rtrax")),
            None => None,
        }
    }

    /// The custom theme directory inside the configuration directory.
    pub fn theme_dir(config_dir: Option<&str>) -> (r: Option<String>)
        ensures
            crate::launch::opt_view(r) == match config_dir {
                Some(d) => Some(join(d@, "themes"@)),
                None => None,
            },
    {
        crate::paths::theme_dir(config_dir)
    }

    /// The configuration to run with: the one read from the configuration
    /// file, or the defaults when there is none (or it could not be read).
    pub fn load(loaded: Option<Config>) -> (r: Config)
        ensures
            match loaded {
                Some(c) => r == c,
                None => r.theme == ThemeChoice::BuiltIn(BuiltInTheme::Default)
                    && r.default_browse_path is None && r.progress_bar_style
                    == ProgressBarStyle::Blocks && r.auto_layout && r.keymap.is_default(),
            },
    {
        match loaded {
            Some(c) => c,
            None => Config::default(),
        }
    }
}

} // verus!
