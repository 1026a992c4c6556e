//! The player's interactive state and how each key action changes it.
//!
//! The terminal front end runs the loop: it reads a key, maps it to an
//! `Action`, hands it to `UiState::handle_action`, and then performs what the
//! returned `Reaction` asks for (talk to the audio thread, load a module, list
//! a directory, append to a playlist file) and shows its notice for a moment.

use crate::browser::{Activation, Browser};
use crate::config::{choice_name, style_after, style_name, ProgressBarStyle, ThemeChoice, ThemeChoiceModel};
use crate::input::Action;
use crate::paths::{file_name, spec_file_name};
use crate::pattern::{auto_view, next_stack, PatternView};
use crate::playlist::{first_match, lists_path, Playlist};
use crate::text::{chars_of, decimal, decimal_chars, push_all, push_str, split_on, string_from_chars};
use vstd::prelude::*;

verus! {

/// Which pane has the keyboard.
#[derive(Debug, Clone, Copy, PartialEq, Eq, Structural)]
pub enum Focus {
    Pattern,
    Browser,
}

/// What the audio thread is asked to do.
#[derive(Debug, Clone, Copy, PartialEq, Eq, Structural)]
pub enum AudioRequest {
    Play,
    Pause,
    Stop,
    /// Seek five seconds ahead.
    SeekForward,
    /// Seek five seconds back.
    SeekBack,
    /// Set the master gain, in millibels.
    Gain(i32),
}

/// What the front end must do after an action.
pub enum Effect {
    Nothing,
    /// Leave the main loop.
    Quit,
    Audio(AudioRequest),
    /// Load and play this module; report success with `UiState::loaded`.
    Load(String),
    /// List this directory and open it with `UiState::browser.open_dir`.
    OpenDir(String),
    /// Append the playing track to a playlist file: the active playlist's
    /// file, or the default playlist file when `target` is `None`. Every
    /// press appends one entry: write `playlist::append_text` to the end of
    /// the file, then report with `UiState::added`.
    AddToPlaylist { entry: String, target: Option<String> },
    /// The theme choice changed: resolve and apply `UiState::theme_choice`.
    ThemeChanged,
}

/// An action's outcome: what to do, and a notice to flash on the status line.
pub struct Reaction {
    pub effect: Effect,
    pub notice: Option<String>,
}

/// Lowest master gain, in millibels.
pub const MIN_GAIN: i32 = -4000;

/// Highest master gain, in millibels.
pub const MAX_GAIN: i32 = 1200;

/// One press of the volume keys, in millibels.
pub const GAIN_STEP: i32 = 200;

pub struct UiState {
    pub focus: Focus,
    pub show_help: bool,
    pub show_info: bool,
    pub show_message: bool,
    pub message_scroll: u16,
    pub pattern_view: PatternView,
    /// Channel count the auto-layout was last applied for; `-1` until the
    /// first module reports its channels.
    pub last_layout_channels: i32,
    pub should_quit: bool,
    pub volume_millibel: i32,
    pub progress_bar_style: ProgressBarStyle,
    pub theme_choice: ThemeChoice,
    pub theme_choices: Vec<ThemeChoice>,
    /// Most recent path that was loaded.
    pub current_path: Option<String>,
    /// Active playlist for next/previous. `None` falls back to the browser.
    pub playlist: Option<Playlist>,
    pub browser: Browser,
}

/// The number of lines `str::lines` yields: none for the empty text, and a
/// final line break does not start another line.
pub open spec fn line_count_of(t: Seq<char>) -> nat {
    if t.len() == 0 {
        0
    } else if t.last() == '\n' {
        (split_on(t, '\n').len() - 1) as nat
    } else {
        split_on(t, '\n').len()
    }
}

/// How many lines the text has, as `str::lines` counts them.
pub fn line_count(text: &str) -> (r: usize)
    ensures
        r == line_count_of(text@),
{
    let t = chars_of(text);
    if t.len() == 0 {
        return 0;
    }
    let mut n: usize = 0;
    let mut i: usize = 0;
    while i < t.len()
        invariant
            i <= t@.len(),
            n + (if i > 0 && t@[i - 1] != '\n' {
                1int
            } else {
                0int
            }) <= i,
            n == split_on(t@.subrange(0, i as int), '\n').len() - 1,
        decreases t@.len() - i,
    {
        proof {
            lemma_split_len(t@.subrange(0, i + 1));
            assert(t@.subrange(0, i + 1).drop_last() =~= t@.subrange(0, i as int));
        }
        if t[i] == '\n' {
            n = n + 1;
        }
        i = i + 1;
    }
    assert(t@.subrange(0, t@.len() as int) =~= t@);
    if t[t.len() - 1] == '\n' {
        n
    } else {
        n + 1
    }
}

proof fn lemma_split_len(t: Seq<char>)
    ensures
        split_on(t, '\n').len() >= 1,
    decreases t.len(),
{
    if t.len() > 0 {
        lemma_split_len(t.drop_last());
    }
}

/// The largest useful scroll offset for a message of `line_count` lines: one
/// less than the line count, at least 0, at most `u16::MAX`.
pub open spec fn max_scroll_of(line_count: nat) -> nat {
    if line_count == 0 {
        0
    } else if line_count - 1 > u16::MAX {
        u16::MAX as nat
    } else {
        (line_count - 1) as nat
    }
}

/// Maximum useful scroll for a message of `line_count` raw lines. Visual
/// wrapping is not accounted for, so this is a soft cap.
pub fn max_scroll(line_count: usize) -> (r: u16)
    ensures
        r == max_scroll_of(line_count as nat),
{
    if line_count == 0 {
        0
    } else if line_count - 1 > 65535 {
        65535
    } else {
        (line_count - 1) as u16
    }
}

/// Whole decibels of a millibel gain (100 mB = 1 dB), rounded toward zero.
pub open spec fn whole_db(millibel: int) -> int {
    if millibel >= 0 {
        millibel / 100
    } else {
        -((-millibel) / 100)
    }
}

/// A gain as a signed dB text: `0 dB`, `+2 dB`, `-6 dB`.
pub open spec fn gain_text(millibel: int) -> Seq<char> {
    let db = whole_db(millibel);
    if db == 0 {
        "0 dB"@
    } else if db > 0 {
        "+"@ + decimal(db as nat) + " dB"@
    } else {
        "-"@ + decimal((-db) as nat) + " dB"@
    }
}

/// Format a master-gain value (millibels) as a signed dB string. Steps are
/// whole dB so no decimals are shown.
pub fn format_gain(millibel: i32) -> (r: String)
    ensures
        r@ == gain_text(millibel as int),
{
    let m: i64 = millibel as i64;
    let db: i64 = if m >= 0 {
        m / 100
    } else {
        -((-m) / 100)
    };
    if db == 0 {
        return "0 dB".to_owned();
    }
    let mut s: Vec<char> = Vec::new();
    if db > 0 {
        push_str(&mut s, "+");
        let d = decimal_chars(db as u64);
        push_all(&mut s, d.as_slice());
    } else {
        push_str(&mut s, "-");
        let d = decimal_chars((-db) as u64);
        push_all(&mut s, d.as_slice());
    }
    push_str(&mut s, " dB");
    string_from_chars(s.as_slice())
}

/// The status-line notice after a gain change; unity gain is called out.
pub open spec fn gain_notice_text(millibel: int) -> Seq<char> {
    if millibel == 0 {
        "gain "@ + gain_text(millibel) + " (unity)"@
    } else {
        "gain "@ + gain_text(millibel)
    }
}

pub fn gain_notice(millibel: i32) -> (r: String)
    ensures
        r@ == gain_notice_text(millibel as int),
{
    let label = format_gain(millibel);
    let mut s: Vec<char> = Vec::new();
    push_str(&mut s, "gain ");
    push_str(&mut s, label.as_str());
    if millibel == 0 {
        push_str(&mut s, " (unity)");
    }
    string_from_chars(s.as_slice())
}

/// Text joined from pieces.
fn concat2(a: &str, b: &str) -> (r: String)
    ensures
        r@ == a@ + b@,
{
    let mut s: Vec<char> = Vec::new();
    push_str(&mut s, a);
    push_str(&mut s, b);
    string_from_chars(s.as_slice())
}

/// Where the browser starts: the folder of the initial track, else the
/// configured default, else the working directory, else `.`.
pub open spec fn browse_root_of(
    initial_parent: Option<Seq<char>>,
    default_browse: Option<Seq<char>>,
    cwd: Option<Seq<char>>,
) -> Seq<char> {
    match initial_parent {
        Some(p) => p,
        None => match default_browse {
            Some(d) => d,
            None => match cwd {
                Some(c) => c,
                None => "."@,
            },
        },
    }
}

pub fn browse_root_for(initial: Option<&str>, default_browse: Option<&str>, cwd: Option<&str>) -> (r:
    String)
    ensures
        r@ == browse_root_of(
            match initial {
                Some(p) => crate::paths::spec_parent(p@),
                None => None,
            },
            match default_browse {
                Some(d) => Some(d@),
                None => None,
            },
            match cwd {
                Some(c) => Some(c@),
                None => None,
            },
        ),
{
    let from_initial = match initial {
        Some(p) => crate::paths::parent(p),
        None => None,
    };
    match from_initial {
        Some(p) => p,
        None => match default_browse {
            Some(d) => d.to_owned(),
            None => match cwd {
                Some(c) => c.to_owned(),
                None => ".".to_owned(),
            },
        },
    }
}

/// Whether `choices` holds `c` (by name for custom themes).
pub open spec fn holds_choice(choices: Seq<ThemeChoice>, c: ThemeChoice) -> bool {
    exists|i: int| 0 <= i < choices.len() && (#[trigger] choices[i]).model() == c.model()
}

/// Where `c` first stands among `choices`.
pub open spec fn choice_position(choices: Seq<ThemeChoice>, c: ThemeChoiceModel) -> Option<int>
    decreases choices.len(),
{
    if choices.len() == 0 {
        None
    } else {
        match choice_position(choices.drop_last(), c) {
            Some(k) => Some(k),
            None => if choices.last().model() == c {
                Some(choices.len() - 1)
            } else {
                None
            },
        }
    }
}

fn find_choice(choices: &Vec<ThemeChoice>, c: &ThemeChoice) -> (r: Option<usize>)
    ensures
        r matches Some(k) ==> (k as int) < choices@.len() && choice_position(choices@, c.model())
            == Some(k as int),
        r is None ==> choice_position(choices@, c.model()) is None,
{
    let mut i: usize = 0;
    while i < choices.len()
        invariant
            i <= choices@.len(),
            choice_position(choices@.subrange(0, i as int), c.model()) is None,
        decreases choices@.len() - i,
    {
        proof {
            assert(choices@.subrange(0, i + 1).drop_last() =~= choices@.subrange(0, i as int));
        }
        if choices[i].same_as(c) {
            proof {
                lemma_choice_position_prefix(choices@, c.model(), i + 1);
            }
            return Some(i);
        }
        i = i + 1;
    }
    assert(choices@.subrange(0, choices@.len() as int) =~= choices@);
    None
}

proof fn lemma_choice_position_prefix(s: Seq<ThemeChoice>, c: ThemeChoiceModel, n: int)
    requires
        0 <= n <= s.len(),
        choice_position(s.subrange(0, n), c) is Some,
    ensures
        choice_position(s, c) == choice_position(s.subrange(0, n), c),
    decreases s.len() - n,
{
    if n < s.len() {
        assert(s.subrange(0, n + 1).drop_last() =~= s.subrange(0, n));
        lemma_choice_position_prefix(s, c, n + 1);
    } else {
        assert(s.subrange(0, n) =~= s);
    }
}

/// The theme the cycle key moves to: the one after the current theme's first
/// position in the list (wrapping), or the second when the current one is not
/// listed.
pub open spec fn next_choice_index(choices: Seq<ThemeChoice>, current: ThemeChoiceModel) -> int {
    let pos = match choice_position(choices, current) {
        Some(k) => k,
        None => 0,
    };
    (pos + 1) % (choices.len() as int)
}

/// The scroll offset after moving by `delta` lines, kept within
/// `0..=max`.
pub open spec fn scrolled(scroll: int, delta: int, max: int) -> int {
    let t = scroll + delta;
    if t < 0 {
        0
    } else if t > max {
        max
    } else {
        t
    }
}

impl UiState {
    /// The state is consistent: the browser and the playlist keep their
    /// invariants, and the gain lies in its range.
    pub open spec fn wf(&self) -> bool {
        &&& self.browser.wf()
        &&& self.playlist matches Some(pl) ==> pl.wf()
        &&& MIN_GAIN <= self.volume_millibel <= MAX_GAIN
        &&& self.browser.listing().len() + 10 <= i32::MAX
    }

    /// The state at startup: pattern pane focused, no overlay, unity gain,
    /// the configured theme (added to the choices if missing) and
    /// progress-bar style.
    pub fn new(
        browser: Browser,
        theme: ThemeChoice,
        theme_choices: Vec<ThemeChoice>,
        progress_bar_style: ProgressBarStyle,
        initial_path: Option<String>,
        playlist: Option<Playlist>,
    ) -> (r: UiState)
        ensures
            r.focus == Focus::Pattern,
            !r.show_help && !r.show_info && !r.show_message && !r.should_quit,
            r.message_scroll == 0,
            r.volume_millibel == 0,
            r.last_layout_channels == -1,
            r.pattern_view == (PatternView { stack: 1, compact: false }),
            r.progress_bar_style == progress_bar_style,
            r.theme_choice.model() == theme.model(),
            holds_choice(theme_choices@, theme) ==> r.theme_choices@ == theme_choices@,
            !holds_choice(theme_choices@, theme) ==> r.theme_choices@.len() == theme_choices@.len()
                + 1 && r.theme_choices@.drop_last() == theme_choices@
                && r.theme_choices@.last().model() == theme.model(),
            r.current_path == initial_path,
            r.browser == browser,
            r.playlist == playlist,
    {
        let mut theme_choices = theme_choices;
        let ghost before = theme_choices@;
        match find_choice(&theme_choices, &theme) {
            Some(_) => {
                proof {
                    lemma_position_holds(before, theme);
                }
            },
            None => {
                proof {
                    lemma_no_position(before, theme);
                }
                theme_choices.push(theme.duplicate());
                assert(theme_choices@.drop_last() =~= before);
            },
        }
        UiState {
            focus: Focus::Pattern,
            show_help: false,
            show_info: false,
            show_message: false,
            message_scroll: 0,
            pattern_view: PatternView { stack: 1, compact: false },
            last_layout_channels: -1,
            should_quit: false,
            volume_millibel: 0,
            progress_bar_style,
            theme_choice: theme,
            theme_choices,
            current_path: initial_path,
            playlist,
            browser,
        }
    }

    /// A module was loaded and is now playing.
    pub fn loaded(&mut self, path: String)
        ensures
            *final(self) == (UiState { current_path: Some(path), ..*old(self) }),
    {
        self.current_path = Some(path);
    }

    /// When auto-layout is on, re-pick the pattern layout whenever a newly
    /// loaded module reports a different (positive) channel count. Manual
    /// tweaks survive until the next channel-count change.
    pub fn maybe_auto_layout(&mut self, auto_layout: bool, channels: i32)
        ensures
            final(self).last_layout_channels == (if auto_layout && channels > 0 && channels
                != old(self).last_layout_channels {
                channels
            } else {
                old(self).last_layout_channels
            }),
            final(self).pattern_view == (if auto_layout && channels > 0 && channels != old(
                self,
            ).last_layout_channels {
                auto_view(channels as nat)
            } else {
                old(self).pattern_view
            }),
            *final(self) == (UiState {
                last_layout_channels: final(self).last_layout_channels,
                pattern_view: final(self).pattern_view,
                ..*old(self)
            }),
    {
        if !auto_layout {
            return;
        }
        if channels > 0 && channels != self.last_layout_channels {
            self.last_layout_channels = channels;
            self.pattern_view = PatternView::auto_for_channels(channels as usize);
        }
    }

    /// The track after (or before) the playing one: the playlist's neighbour
    /// when there is a playlist that has one, otherwise the browser's
    /// neighbouring module (which the browser then selects).
    fn neighbour(&mut self, forward: bool) -> (r: Option<String>)
        requires
            old(self).wf(),
        ensures
            final(self).wf(),
            final(self).playlist == old(self).playlist,
            final(self).volume_millibel == old(self).volume_millibel,
            *final(self) == (UiState { browser: final(self).browser, ..*old(self) }),
            crate::launch::opt_view(r) == neighbour_of(*old(self), forward),
            stepped_browser(*old(self), final(self).browser, forward),
    {
        let cur = match &self.current_path {
            Some(p) => p.clone(),
            None => return None,
        };
        let from_playlist = match &self.playlist {
            Some(pl) => if forward {
                pl.next_after(cur.as_str())
            } else {
                pl.prev_before(cur.as_str())
            },
            None => None,
        };
        match from_playlist {
            Some(n) => Some(n),
            None => if forward {
                self.browser.next_module(Some(cur.as_str()))
            } else {
                self.browser.prev_module(Some(cur.as_str()))
            },
        }
    }

    /// The song ended: move on to the next track, if there is one.
    pub fn auto_advance(&mut self) -> (r: Effect)
        requires
            old(self).wf(),
        ensures
            final(self).wf(),
            final(self).playlist == old(self).playlist,
            *final(self) == (UiState { browser: final(self).browser, ..*old(self) }),
            step_effect(*old(self), true, r),
            stepped_browser(*old(self), final(self).browser, true),
    {
        match self.neighbour(true) {
            Some(n) => Effect::Load(n),
            None => Effect::Nothing,
        }
    }

    fn scroll_message(&mut self, delta: i32, line_count: usize)
        requires
            -10 <= delta <= 10,
        ensures
            final(self).message_scroll == scrolled(
                old(self).message_scroll as int,
                delta as int,
                max_scroll_of(line_count as nat) as int,
            ),
            *final(self) == (UiState { message_scroll: final(self).message_scroll, ..*old(self) }),
    {
        let max = max_scroll(line_count) as i32;
        let t: i32 = self.message_scroll as i32 + delta;
        let next: i32 = if t < 0 {
            0
        } else if t > max {
            max
        } else {
            t
        };
        self.message_scroll = next as u16;
    }

    /// React to one key action. `playing` says whether the audio thread is
    /// playing; `message_lines` is the line count of the song message.
    pub fn handle_action(&mut self, action: Action, playing: bool, message_lines: usize) -> (r:
        Reaction)
        requires
            old(self).wf(),
        ensures
            final(self).wf(),
            final(self).playlist == old(self).playlist,
            reacts(*old(self), *final(self), action, playing, message_lines, r),
    {
        match action {
            Action::Quit => {
                self.should_quit = true;
                Reaction { effect: Effect::Quit, notice: None }
            },
            Action::Esc => {
                if self.show_help {
                    self.show_help = false;
                } else if self.show_message {
                    self.show_message = false;
                } else if self.focus == Focus::Browser {
                    self.focus = Focus::Pattern;
                }
                Reaction { effect: Effect::Nothing, notice: None }
            },
            Action::Help => {
                self.show_help = !self.show_help;
                if self.show_help {
                    self.show_message = false;
                }
                Reaction { effect: Effect::Nothing, notice: None }
            },
            Action::ToggleSongMessage => {
                self.show_message = !self.show_message;
                if self.show_message {
                    self.message_scroll = 0;
                    self.show_help = false;
                }
                Reaction { effect: Effect::Nothing, notice: None }
            },
            Action::ToggleInfo => {
                self.show_info = !self.show_info;
                Reaction { effect: Effect::Nothing, notice: None }
            },
            Action::PlayPause => {
                let req = if playing {
                    AudioRequest::Pause
                } else {
                    AudioRequest::Play
                };
                Reaction { effect: Effect::Audio(req), notice: None }
            },
            Action::Stop => Reaction { effect: Effect::Audio(AudioRequest::Stop), notice: None },
            Action::Next => {
                let effect = match self.neighbour(true) {
                    Some(n) => Effect::Load(n),
                    None => Effect::Nothing,
                };
                Reaction { effect, notice: None }
            },
            Action::Prev => {
                let effect = match self.neighbour(false) {
                    Some(n) => Effect::Load(n),
                    None => Effect::Nothing,
                };
                Reaction { effect, notice: None }
            },
            Action::AddToPlaylist => {
                let effect = match &self.current_path {
                    None => Effect::Nothing,
                    Some(cur) => {
                        let target = match &self.playlist {
                            Some(pl) => pl.backing_path(),
                            None => None,
                        };
                        Effect::AddToPlaylist { entry: cur.clone(), target }
                    },
                };
                Reaction { effect, notice: None }
            },
            Action::SeekForward => Reaction {
                effect: Effect::Audio(AudioRequest::SeekForward),
                notice: None,
            },
            Action::SeekBack => Reaction {
                effect: Effect::Audio(AudioRequest::SeekBack),
                notice: None,
            },
            Action::VolumeUp => {
                let v = self.volume_millibel + GAIN_STEP;
                self.volume_millibel = if v < MAX_GAIN {
                    v
                } else {
                    MAX_GAIN
                };
                self.gain_reaction()
            },
            Action::VolumeDown => {
                let v = self.volume_millibel - GAIN_STEP;
                self.volume_millibel = if v > MIN_GAIN {
                    v
                } else {
                    MIN_GAIN
                };
                self.gain_reaction()
            },
            Action::ResetGain => {
                self.volume_millibel = 0;
                self.gain_reaction()
            },
            Action::FocusBrowser => {
                self.focus = Focus::Browser;
                Reaction { effect: Effect::Nothing, notice: None }
            },
            Action::CycleFocus => {
                self.focus = match self.focus {
                    Focus::Pattern => Focus::Browser,
                    Focus::Browser => Focus::Pattern,
                };
                Reaction { effect: Effect::Nothing, notice: None }
            },
            Action::CycleTheme => self.cycle_theme(),
            Action::CycleProgressBarStyle => {
                self.progress_bar_style = self.progress_bar_style.next();
                let notice = concat2("progress bar: ", self.progress_bar_style.name());
                Reaction { effect: Effect::Nothing, notice: Some(notice) }
            },
            Action::CyclePatternStack => {
                self.pattern_view.cycle_stack();
                Reaction { effect: Effect::Nothing, notice: None }
            },
            Action::TogglePatternCompact => {
                self.pattern_view.toggle_compact();
                Reaction { effect: Effect::Nothing, notice: None }
            },
            Action::Up => self.move_by(-1, message_lines),
            Action::Down => self.move_by(1, message_lines),
            Action::PageUp => self.move_by(-10, message_lines),
            Action::PageDown => self.move_by(10, message_lines),
            Action::Enter => {
                if self.focus == Focus::Browser {
                    match self.browser.activate() {
                        Activation::Play(p) => {
                            self.focus = Focus::Pattern;
                            Reaction { effect: Effect::Load(p), notice: None }
                        },
                        Activation::EnterDir(d) => Reaction {
                            effect: Effect::OpenDir(d),
                            notice: None,
                        },
                        Activation::Nothing => Reaction { effect: Effect::Nothing, notice: None },
                    }
                } else {
                    Reaction { effect: Effect::Nothing, notice: None }
                }
            },
        }
    }

    fn gain_reaction(&self) -> (r: Reaction)
        ensures
            r.effect == Effect::Audio(AudioRequest::Gain(self.volume_millibel)),
            r.notice matches Some(n) && n@ == gain_notice_text(self.volume_millibel as int),
    {
        Reaction {
            effect: Effect::Audio(AudioRequest::Gain(self.volume_millibel)),
            notice: Some(gain_notice(self.volume_millibel)),
        }
    }

    /// Scroll the song message when it is shown, else move the browser
    /// selection when the browser has focus.
    fn move_by(&mut self, delta: i32, message_lines: usize) -> (r: Reaction)
        requires
            old(self).wf(),
            delta == -1 || delta == 1 || delta == -10 || delta == 10,
        ensures
            final(self).wf(),
            final(self).playlist == old(self).playlist,
            moved(*old(self), *final(self), delta as int, message_lines),
            *final(self) == (UiState {
                message_scroll: final(self).message_scroll,
                browser: final(self).browser,
                ..*old(self)
            }),
            r.effect is Nothing && r.notice is None,
    {
        if self.show_message {
            self.scroll_message(delta, message_lines);
        } else if self.focus == Focus::Browser {
            proof {
                self.browser.lemma_selection_in_listing();
            }
            self.browser.select_delta(delta);
        }
        Reaction { effect: Effect::Nothing, notice: None }
    }

    fn cycle_theme(&mut self) -> (r: Reaction)
        requires
            old(self).wf(),
        ensures
            final(self).wf(),
            final(self).playlist == old(self).playlist,
            final(self).browser == old(self).browser,
            final(self).volume_millibel == old(self).volume_millibel,
            *final(self) == (UiState { theme_choice: final(self).theme_choice, ..*old(self) }),
            old(self).theme_choices@.len() == 0 ==> final(self).theme_choice == old(
                self,
            ).theme_choice && r.effect is Nothing && r.notice is None,
            old(self).theme_choices@.len() > 0 ==> {
                let k = next_choice_index(old(self).theme_choices@, old(self).theme_choice.model());
                &&& final(self).theme_choice.model() == old(self).theme_choices@[k].model()
                &&& r.effect is ThemeChanged
                &&& r.notice matches Some(n) && n@ == "theme: "@ + choice_name(
                    final(self).theme_choice,
                )
            },
    {
        let n = self.theme_choices.len();
        if n == 0 {
            return Reaction { effect: Effect::Nothing, notice: None };
        }
        let current = match find_choice(&self.theme_choices, &self.theme_choice) {
            Some(k) => k,
            None => 0,
        };
        let next = (current + 1) % n;
        self.theme_choice = self.theme_choices[next].duplicate();
        let notice = concat2("theme: ", self.theme_choice.name());
        Reaction { effect: Effect::ThemeChanged, notice: Some(notice) }
    }

    /// The track was appended to the playlist file `target`: the active
    /// playlist gains it too (unless it already holds it), and the notice
    /// names the file.
    pub fn added(&mut self, entry: String, target: &str) -> (r: String)
        requires
            old(self).wf(),
        ensures
            final(self).wf(),
            *final(self) == (UiState { playlist: final(self).playlist, ..*old(self) }),
            match old(self).playlist {
                None => final(self).playlist is None,
                Some(pl) => final(self).playlist matches Some(q) && q.backing() == pl.backing() && (
                lists_path(pl.tracks(), entry@) ==> q.tracks() == pl.tracks()) && (!lists_path(
                    pl.tracks(),
                    entry@,
                ) ==> q.tracks() == pl.tracks().push(entry@)),
            },
            r@ == "added to "@ + match spec_file_name(target@) {
                Some(n) => n,
                None => target@,
            },
    {
        let mut pl = self.playlist.take();
        match &mut pl {
            Some(p) => p.push_entry(entry),
            None => {},
        }
        self.playlist = pl;
        let display = match file_name(target) {
            Some(n) => n,
            None => target.to_owned(),
        };
        concat2("added to ", display.as_str())
    }
}

proof fn lemma_position_holds(choices: Seq<ThemeChoice>, c: ThemeChoice)
    requires
        choice_position(choices, c.model()) is Some,
    ensures
        holds_choice(choices, c),
    decreases choices.len(),
{
    if choice_position(choices.drop_last(), c.model()) is Some {
        lemma_position_holds(choices.drop_last(), c);
        let i = choose|i: int|
            0 <= i < choices.drop_last().len() && (#[trigger] choices.drop_last()[i]).model()
                == c.model();
        assert(choices[i] == choices.drop_last()[i]);
    } else {
        assert(choices[choices.len() - 1].model() == c.model());
    }
}

proof fn lemma_no_position(choices: Seq<ThemeChoice>, c: ThemeChoice)
    requires
        choice_position(choices, c.model()) is None,
    ensures
        !holds_choice(choices, c),
    decreases choices.len(),
{
    if choices.len() > 0 {
        lemma_no_position(choices.drop_last(), c);
        assert forall|i: int| 0 <= i < choices.len() implies (#[trigger] choices[i]).model()
            != c.model() by {
            if i < choices.len() - 1 {
                assert(choices.drop_last()[i] == choices[i]);
            }
        }
    }
}

/// The neighbour of `cur` in a play order: the entry after (or before) its
/// first occurrence, if there is one.
pub open spec fn order_neighbour(order: Seq<Seq<char>>, cur: Seq<char>, forward: bool) -> Option<
    Seq<char>,
> {
    match first_match(order, cur) {
        Some(k) => if forward {
            if k + 1 < order.len() {
                Some(order[k + 1])
            } else {
                None
            }
        } else {
            if k >= 1 {
                Some(order[k - 1])
            } else {
                None
            }
        },
        None => None,
    }
}

/// The playlist's neighbour of the playing track, when there is a playlist
/// and a playing track.
pub open spec fn playlist_neighbour(s: UiState, forward: bool) -> Option<Seq<char>> {
    match (s.current_path, s.playlist) {
        (Some(cur), Some(pl)) => order_neighbour(pl.play_order(), cur@, forward),
        _ => None,
    }
}

/// The browser entry one step from the module `cur` in the browser's play
/// order, wrapping around the folder.
pub open spec fn browser_target(b: Browser, cur: Seq<char>, forward: bool) -> usize {
    b.order_view()[crate::browser::step_position(
        b.order_view(),
        crate::browser::module_entry_at(b.listing(), cur),
        forward,
    )]
}

/// Whether next/previous falls back to the browser: a track is playing, and
/// the playlist (if any) has no neighbour for it.
pub open spec fn uses_browser(s: UiState, forward: bool) -> bool {
    s.current_path is Some && playlist_neighbour(s, forward) is None
}

/// The track next (or previous) moves to: the playlist's neighbour, else the
/// browser's neighbouring module; nothing when no track is playing or the
/// folder has no modules.
pub open spec fn neighbour_of(s: UiState, forward: bool) -> Option<Seq<char>> {
    match playlist_neighbour(s, forward) {
        Some(n) => Some(n),
        None => match s.current_path {
            None => None,
            Some(cur) => if s.browser.order_view().len() == 0 {
                None
            } else {
                Some(s.browser.listing()[browser_target(s.browser, cur@, forward) as int].path)
            },
        },
    }
}

/// How stepping to the next (or previous) track changes the browser: when it
/// supplied the track, it selects it; otherwise it is left as it was.
pub open spec fn stepped_browser(before: UiState, after: Browser, forward: bool) -> bool {
    if uses_browser(before, forward) && before.browser.order_view().len() > 0 {
        &&& after.listing() == before.browser.listing()
        &&& after.order_view() == before.browser.order_view()
        &&& after.selection() == Some(
            browser_target(before.browser, before.current_path->0@, forward),
        )
    } else {
        after == before.browser
    }
}

/// What next/previous asks for: loading the neighbouring track, or nothing.
pub open spec fn step_effect(before: UiState, forward: bool, e: Effect) -> bool {
    match neighbour_of(before, forward) {
        Some(n) => e matches Effect::Load(p) && p@ == n,
        None => e is Nothing,
    }
}

/// How a movement key changes the state: it scrolls the song message when
/// that is shown, moves the browser selection when the browser has focus,
/// and does nothing otherwise.
pub open spec fn moved(before: UiState, after: UiState, delta: int, message_lines: usize) -> bool {
    if before.show_message {
        &&& after.message_scroll == scrolled(
            before.message_scroll as int,
            delta,
            max_scroll_of(message_lines as nat) as int,
        )
        &&& after.browser == before.browser
    } else if before.focus == Focus::Browser {
        &&& after.message_scroll == before.message_scroll
        &&& after.browser.listing() == before.browser.listing()
        &&& after.browser.order_view() == before.browser.order_view()
        &&& (before.browser.listing().len() > 0 ==> after.browser.selection() == Some(
            crate::browser::moved_selection(
                before.browser.selection(),
                delta,
                before.browser.listing().len(),
            ) as usize,
        ))
    } else {
        &&& after.message_scroll == before.message_scroll
        &&& after.browser == before.browser
    }
}

/// A movement key: up, down, page up or page down.
pub open spec fn is_move(action: Action) -> bool {
    action == Action::Up || action == Action::Down || action == Action::PageUp || action
        == Action::PageDown
}

/// The actions that ask nothing of the front end.
pub open spec fn quiet(action: Action) -> bool {
    ||| action == Action::Esc
    ||| action == Action::Help
    ||| action == Action::ToggleSongMessage
    ||| action == Action::ToggleInfo
    ||| action == Action::FocusBrowser
    ||| action == Action::CycleFocus
    ||| action == Action::CycleProgressBarStyle
    ||| action == Action::CyclePatternStack
    ||| action == Action::TogglePatternCompact
    ||| is_move(action)
}

/// The actions that flash a notice: the gain keys and the style and theme
/// cycles.
pub open spec fn flashes(action: Action) -> bool {
    ||| action == Action::VolumeUp
    ||| action == Action::VolumeDown
    ||| action == Action::ResetGain
    ||| action == Action::CycleProgressBarStyle
    ||| action == Action::CycleTheme
}

/// The fields an action leaves alone: each stays as it was unless the action
/// is one that sets it. The playing track and the theme list never change
/// here.
pub open spec fn keeps(before: UiState, after: UiState, action: Action) -> bool {
    &&& action != Action::Quit ==> after.should_quit == before.should_quit
    &&& !(action == Action::VolumeUp || action == Action::VolumeDown || action
        == Action::ResetGain) ==> after.volume_millibel == before.volume_millibel
    &&& action != Action::CycleTheme ==> after.theme_choice == before.theme_choice
    &&& after.theme_choices == before.theme_choices
    &&& action != Action::CycleProgressBarStyle ==> after.progress_bar_style
        == before.progress_bar_style
    &&& !(action == Action::CyclePatternStack || action == Action::TogglePatternCompact)
        ==> after.pattern_view == before.pattern_view
    &&& after.current_path == before.current_path
    &&& after.playlist == before.playlist
    &&& after.last_layout_channels == before.last_layout_channels
    &&& action != Action::ToggleInfo ==> after.show_info == before.show_info
    &&& !(action == Action::Esc || action == Action::Help || action == Action::ToggleSongMessage)
        ==> after.show_help == before.show_help && after.show_message == before.show_message
    &&& !(action == Action::ToggleSongMessage || is_move(action)) ==> after.message_scroll
        == before.message_scroll
    &&& !(action == Action::Esc || action == Action::FocusBrowser || action == Action::CycleFocus
        || action == Action::Enter) ==> after.focus == before.focus
    &&& !(action == Action::Next || action == Action::Prev || is_move(action)) ==> after.browser
        == before.browser
}

/// How an action changes the state and what it asks of the front end: what
/// it does to the fields it is about, nothing to the others, no effect for
/// the actions that need none, and a notice only from those that flash one.
pub open spec fn reacts(
    before: UiState,
    after: UiState,
    action: Action,
    playing: bool,
    message_lines: usize,
    r: Reaction,
) -> bool {
    &&& acts(before, after, action, playing, message_lines, r)
    &&& keeps(before, after, action)
    &&& quiet(action) ==> r.effect is Nothing
    &&& !flashes(action) ==> r.notice is None
}

/// What each action does to the fields it is about, and what it asks of the
/// front end.
pub open spec fn acts(
    before: UiState,
    after: UiState,
    action: Action,
    playing: bool,
    message_lines: usize,
    r: Reaction,
) -> bool {
    match action {
        Action::Quit => after.should_quit && r.effect is Quit,
        Action::Esc => {
            &&& r.effect is Nothing
            &&& if before.show_help {
                !after.show_help && after.show_message == before.show_message && after.focus == before.focus
            } else if before.show_message {
                !after.show_message && after.show_help == before.show_help && after.focus
                    == before.focus
            } else {
                after.focus == Focus::Pattern && after.show_help == before.show_help
                    && after.show_message == before.show_message
            }
        },
        Action::Help => {
            &&& after.show_help == !before.show_help
            &&& after.show_message == (before.show_message && before.show_help)
        },
        Action::ToggleSongMessage => {
            &&& after.show_message == !before.show_message
            &&& after.show_help == (before.show_help && before.show_message)
            &&& after.message_scroll == (if after.show_message {
                0
            } else {
                before.message_scroll
            })
        },
        Action::ToggleInfo => after.show_info == !before.show_info,
        Action::PlayPause => r.effect == Effect::Audio(
            if playing {
                AudioRequest::Pause
            } else {
                AudioRequest::Play
            },
        ),
        Action::Stop => r.effect == Effect::Audio(AudioRequest::Stop),
        Action::SeekForward => r.effect == Effect::Audio(AudioRequest::SeekForward),
        Action::SeekBack => r.effect == Effect::Audio(AudioRequest::SeekBack),
        Action::Next => step_effect(before, true, r.effect) && stepped_browser(
            before,
            after.browser,
            true,
        ),
        Action::Prev => step_effect(before, false, r.effect) && stepped_browser(
            before,
            after.browser,
            false,
        ),
        Action::AddToPlaylist => match before.current_path {
            None => r.effect is Nothing,
            Some(cur) => r.effect matches Effect::AddToPlaylist { entry, target } && entry@
                == cur@ && crate::launch::opt_view(target) == match before.playlist {
                Some(pl) => pl.backing(),
                None => None,
            },
        },
        Action::VolumeUp => {
            &&& after.volume_millibel == (if before.volume_millibel + GAIN_STEP < MAX_GAIN {
                before.volume_millibel + GAIN_STEP
            } else {
                MAX_GAIN as int
            })
            &&& r.effect == Effect::Audio(AudioRequest::Gain(after.volume_millibel))
            &&& r.notice matches Some(n) && n@ == gain_notice_text(after.volume_millibel as int)
        },
        Action::VolumeDown => {
            &&& after.volume_millibel == (if before.volume_millibel - GAIN_STEP > MIN_GAIN {
                before.volume_millibel - GAIN_STEP
            } else {
                MIN_GAIN as int
            })
            &&& r.effect == Effect::Audio(AudioRequest::Gain(after.volume_millibel))
            &&& r.notice matches Some(n) && n@ == gain_notice_text(after.volume_millibel as int)
        },
        Action::ResetGain => {
            &&& after.volume_millibel == 0
            &&& r.effect == Effect::Audio(AudioRequest::Gain(0))
            &&& r.notice matches Some(n) && n@ == gain_notice_text(0)
        },
        Action::FocusBrowser => after.focus == Focus::Browser,
        Action::CycleFocus => after.focus == (if before.focus == Focus::Pattern {
            Focus::Browser
        } else {
            Focus::Pattern
        }),
        Action::CycleTheme => if before.theme_choices@.len() == 0 {
            r.effect is Nothing && r.notice is None && after.theme_choice == before.theme_choice
        } else {
            &&& after.theme_choice.model() == before.theme_choices@[next_choice_index(
                before.theme_choices@,
                before.theme_choice.model(),
            )].model()
            &&& r.effect is ThemeChanged
            &&& r.notice matches Some(n) && n@ == "theme: "@ + choice_name(after.theme_choice)
        },
        Action::CycleProgressBarStyle => {
            &&& after.progress_bar_style == style_after(before.progress_bar_style)
            &&& r.notice matches Some(n) && n@ == "progress bar: "@ + style_name(
                after.progress_bar_style,
            )
        },
        Action::CyclePatternStack => after.pattern_view.stack == next_stack(before.pattern_view.stack)
            && after.pattern_view.compact == before.pattern_view.compact,
        Action::TogglePatternCompact => after.pattern_view.compact == !before.pattern_view.compact
            && after.pattern_view.stack == before.pattern_view.stack,
        Action::Up => moved(before, after, -1, message_lines),
        Action::Down => moved(before, after, 1, message_lines),
        Action::PageUp => moved(before, after, -10, message_lines),
        Action::PageDown => moved(before, after, 10, message_lines),
        Action::Enter => if before.focus == Focus::Browser {
            match before.browser.selection() {
                None => r.effect is Nothing && after.focus == before.focus,
                Some(i) => if before.browser.listing()[i as int].is_dir {
                    r.effect matches Effect::OpenDir(d) && d@ == before.browser.listing()[i as int].path
                        && after.focus == before.focus
                } else {
                    r.effect matches Effect::Load(p) && p@ == before.browser.listing()[i as int].path
                        && after.focus == Focus::Pattern
                },
            }
        } else {
            r.effect is Nothing && after.focus == before.focus
        },
    }
}

} // verus!
