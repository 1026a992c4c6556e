//! Small text formatters for the header and the song-info pane: instrument
//! names, width-limited labels and clock times.

use crate::text::{
    char_views, chars_of, decimal, decimal_chars, pad_left, push_all, push_str, split_chars, split_on,
    string_from_chars, trim, trim_chars,
};
use vstd::prelude::*;

verus! {

/// The name shown for a 1-based instrument number: the instrument's name, or
/// else the sample's name at the same position, or else a dash — names that
/// are blank count as missing. Numbers below 1 show the first slot.
pub open spec fn shown_name(instrument_1based: int, instruments: Seq<String>, samples: Seq<String>) -> Seq<
    char,
> {
    let idx = if instrument_1based - 1 > 0 {
        instrument_1based - 1
    } else {
        0
    };
    if idx < instruments.len() && trim(instruments[idx]@).len() > 0 {
        instruments[idx]@
    } else if idx < samples.len() && trim(samples[idx]@).len() > 0 {
        samples[idx]@
    } else {
        "—"@
    }
}

pub fn resolve_name(instrument_1based: i32, instruments: &Vec<String>, samples: &Vec<String>) -> (r:
    String)
    ensures
        r@ == shown_name(instrument_1based as int, instruments@, samples@),
{
    let idx: usize = if instrument_1based > 1 {
        (instrument_1based - 1) as usize
    } else {
        0
    };
    if idx < instruments.len() {
        let c = chars_of(instruments[idx].as_str());
        if trim_chars(c.as_slice()).len() > 0 {
            return instruments[idx].clone();
        }
    }
    if idx < samples.len() {
        let c = chars_of(samples[idx].as_str());
        if trim_chars(c.as_slice()).len() > 0 {
            return samples[idx].clone();
        }
    }
    "—".to_owned()
}

/// `s` cut to at most `max` characters, the cut marked with an ellipsis.
pub open spec fn truncated(s: Seq<char>, max: nat) -> Seq<char> {
    if max == 0 {
        Seq::empty()
    } else if s.len() <= max {
        s
    } else if max <= 1 {
        "…"@
    } else {
        s.subrange(0, max - 1) + "…"@
    }
}

pub fn truncate(s: &str, max: usize) -> (r: String)
    ensures
        r@ == truncated(s@, max as nat),
{
    if max == 0 {
        return String::new();
    }
    let c = chars_of(s);
    if c.len() <= max {
        return s.to_owned();
    }
    if max <= 1 {
        return "…".to_owned();
    }
    let take = max - 1;
    let mut out: Vec<char> = Vec::new();
    let mut i: usize = 0;
    while i < take
        invariant
            take < c@.len(),
            i <= take,
            out@ == c@.subrange(0, i as int),
        decreases take - i,
    {
        out.push(c[i]);
        i = i + 1;
    }
    push_str(&mut out, "…");
    string_from_chars(out.as_slice())
}

/// Two-digit (at least) zero-padded decimal.
pub open spec fn two_digits(n: nat) -> Seq<char> {
    if n < 10 {
        "0"@ + decimal(n)
    } else {
        decimal(n)
    }
}

fn two_digits_exec(n: u64) -> (r: Vec<char>)
    ensures
        r@ == two_digits(n as nat),
{
    let d = decimal_chars(n);
    if n < 10 {
        let mut v: Vec<char> = Vec::new();
        push_str(&mut v, "0");
        push_all(&mut v, d.as_slice());
        v
    } else {
        d
    }
}

/// A duration of `total` whole seconds as `m:ss`.
pub open spec fn minutes_seconds(total: nat) -> Seq<char> {
    decimal(total / 60) + ":"@ + two_digits(total % 60)
}

/// `m:ss` for a whole number of seconds (the song-info duration).
pub fn format_minutes_seconds(total: u64) -> (r: String)
    ensures
        r@ == minutes_seconds(total as nat),
{
    let mut v = decimal_chars(total / 60);
    push_str(&mut v, ":");
    let s = two_digits_exec(total % 60);
    push_all(&mut v, s.as_slice());
    string_from_chars(v.as_slice())
}

/// A time of `t` whole seconds as `mm:ss` (the header clock).
pub open spec fn clock_text(t: nat) -> Seq<char> {
    two_digits(t / 60) + ":"@ + two_digits(t % 60)
}

pub fn format_clock(t: u32) -> (r: String)
    ensures
        r@ == clock_text(t as nat),
{
    let mut v = two_digits_exec((t / 60) as u64);
    push_str(&mut v, ":");
    let s = two_digits_exec((t % 60) as u64);
    push_all(&mut v, s.as_slice());
    string_from_chars(v.as_slice())
}

/// A line without the carriage return of a `\r\n` line ending.
pub open spec fn drop_cr(l: Seq<char>) -> Seq<char> {
    if l.len() > 0 && l.last() == '\r' {
        l.drop_last()
    } else {
        l
    }
}

/// The lines of a text as `str::lines` gives them: split at each `\n`
/// (dropping a `\r` just before it), a final line break starting no further
/// line, and no lines at all for the empty text.
pub open spec fn text_lines(t: Seq<char>) -> Seq<Seq<char>> {
    if t.len() == 0 {
        Seq::empty()
    } else {
        let parts = split_on(t, '\n');
        let body = parts.drop_last().map_values(|l: Seq<char>| drop_cr(l));
        if t.last() == '\n' {
            body
        } else {
            body.push(parts.last())
        }
    }
}

/// Lines joined with `\n` between them.
pub open spec fn joined_lines(ls: Seq<Seq<char>>) -> Seq<char>
    decreases ls.len(),
{
    if ls.len() == 0 {
        Seq::empty()
    } else if ls.len() == 1 {
        ls[0]
    } else {
        joined_lines(ls.drop_last()) + "\n"@ + ls.last()
    }
}

/// The first `k` lines of a text (all of them when it has fewer), joined.
pub open spec fn head_lines(t: Seq<char>, k: nat) -> Seq<char> {
    let ls = text_lines(t);
    joined_lines(ls.subrange(0, if k < ls.len() { k as int } else { ls.len() as int }))
}

fn without_cr(l: &Vec<char>) -> (r: Vec<char>)
    ensures
        r@ == drop_cr(l@),
{
    let n = l.len();
    let keep = if n > 0 && l[n - 1] == '\r' {
        n - 1
    } else {
        n
    };
    let mut out: Vec<char> = Vec::new();
    let mut i: usize = 0;
    while i < keep
        invariant
            keep <= l@.len(),
            i <= keep,
            out@ == l@.subrange(0, i as int),
        decreases keep - i,
    {
        out.push(l[i]);
        i = i + 1;
        assert(out@ =~= l@.subrange(0, i as int));
    }
    assert(l@.subrange(0, n as int) =~= l@);
    assert(n > 0 ==> l@.subrange(0, n - 1) =~= l@.drop_last());
    out
}

/// The first `k` lines of `text`, joined with `\n`.
pub fn first_lines(text: &str, k: usize) -> (r: String)
    ensures
        r@ == head_lines(text@, k as nat),
{
    let t = chars_of(text);
    let ghost ls = text_lines(t@);
    if t.len() == 0 {
        assert(ls.subrange(0, 0) =~= Seq::<Seq<char>>::empty());
        return String::new();
    }
    let parts = split_chars(t.as_slice(), '\n');
    let ghost pv = split_on(t@, '\n');
    assert(char_views(parts@) == pv);
    proof {
        lemma_split_on_nonempty(t@, '\n');
    }
    let n = parts.len();
    let ends = t[t.len() - 1] == '\n';
    let count = if ends {
        n - 1
    } else {
        n
    };
    assert(ls.len() == count);
    let take = if k < count {
        k
    } else {
        count
    };
    let mut out: Vec<char> = Vec::new();
    let mut i: usize = 0;
    while i < take
        invariant
            t@ == text@,
            ls == text_lines(t@),
            pv == split_on(t@, '\n'),
            char_views(parts@) == pv,
            n == pv.len(),
            n >= 1,
            ends == (t@.last() == '\n'),
            t@.len() > 0,
            count == (if ends { n - 1 } else { n as int }),
            ls.len() == count,
            take <= count,
            i <= take,
            out@ == joined_lines(ls.subrange(0, i as int)),
        decreases take - i,
    {
        let line = if i + 1 < n {
            without_cr(&parts[i])
        } else {
            parts[i].clone()
        };
        proof {
            assert(pv[i as int] == parts@[i as int]@);
            if i + 1 < n {
                assert(ls[i as int] == drop_cr(pv[i as int]));
            } else {
                assert(!ends);
                assert(ls[i as int] == pv.last());
            }
        }
        assert(line@ == ls[i as int]);
        if i > 0 {
            out.push('\n');
        }
        push_all(&mut out, line.as_slice());
        proof {
            let sub = ls.subrange(0, i + 1);
            assert(sub.drop_last() =~= ls.subrange(0, i as int));
            if i == 0 {
                assert(out@ =~= sub[0]);
            } else {
                assert(out@ =~= joined_lines(sub.drop_last()) + "\n"@ + sub.last()) by {
                    reveal_strlit("\n");
                }
            }
        }
        i = i + 1;
    }
    string_from_chars(out.as_slice())
}

proof fn lemma_split_on_nonempty(t: Seq<char>, sep: char)
    ensures
        split_on(t, sep).len() >= 1,
    decreases t.len(),
{
    if t.len() > 0 {
        lemma_split_on_nonempty(t.drop_last(), sep);
    }
}

/// An integer as `Display` writes it: a minus sign for negatives, then the
/// decimal digits.
pub open spec fn signed_decimal(n: int) -> Seq<char> {
    if n < 0 {
        "-"@ + decimal((-n) as nat)
    } else {
        decimal(n as nat)
    }
}

/// The sample count, followed by the instrument count when the module has
/// instruments.
pub open spec fn samples_text(samples: nat, instruments: nat) -> Seq<char> {
    if instruments > 0 {
        decimal(samples) + " ("@ + decimal(instruments) + " inst)"@
    } else {
        decimal(samples)
    }
}

/// One labelled line, when its value is set (not empty).
pub open spec fn line_if_set(key: Seq<char>, value: Seq<char>) -> Seq<(Seq<char>, Seq<char>)> {
    if value.len() > 0 {
        seq![(key, value)]
    } else {
        Seq::empty()
    }
}

/// The module-metadata lines of the info pane, as (label, value) pairs: the
/// format when it is known, the channel count, the samples (with the
/// instrument count when there are instruments), the duration, the artist
/// and the tracker when they are known; then, when the song has a message
/// and `available` rows leave room for its label and at least one line, a
/// `message` pair holding as many of its first lines as fit below the label.
pub open spec fn meta_lines_of(
    format_label: Seq<char>,
    channels: int,
    samples: nat,
    instruments: nat,
    duration: Seq<char>,
    artist: Seq<char>,
    tracker: Seq<char>,
    message: Seq<char>,
    available: nat,
) -> Seq<(Seq<char>, Seq<char>)> {
    let base = line_if_set("format"@, format_label) + seq![
        ("channels"@, signed_decimal(channels)),
        ("samples"@, samples_text(samples, instruments)),
        ("duration"@, duration),
    ] + line_if_set("artist"@, artist) + line_if_set("tracker"@, tracker);
    if message.len() > 0 && base.len() + 2 <= available {
        base.push(("message"@, head_lines(message, (available - base.len() - 1) as nat)))
    } else {
        base
    }
}

/// The text views of (label, value) pairs.
pub open spec fn pairs_view(ps: Seq<(String, String)>) -> Seq<(Seq<char>, Seq<char>)> {
    ps.map_values(|p: (String, String)| (p.0@, p.1@))
}

fn signed_text(n: i32) -> (r: Vec<char>)
    ensures
        r@ == signed_decimal(n as int),
{
    let m: i64 = n as i64;
    if m < 0 {
        let mut v: Vec<char> = Vec::new();
        push_str(&mut v, "-");
        let d = decimal_chars((-m) as u64);
        push_all(&mut v, d.as_slice());
        v
    } else {
        decimal_chars(m as u64)
    }
}

fn samples_exec(samples: usize, instruments: usize) -> (r: Vec<char>)
    ensures
        r@ == samples_text(samples as nat, instruments as nat),
{
    let mut v = decimal_chars(samples as u64);
    if instruments > 0 {
        push_str(&mut v, " (");
        let d = decimal_chars(instruments as u64);
        push_all(&mut v, d.as_slice());
        push_str(&mut v, " inst)");
    }
    v
}

fn push_if_set(out: &mut Vec<(String, String)>, key: &str, value: &str)
    ensures
        pairs_view(final(out)@) == pairs_view(old(out)@) + line_if_set(key@, value@),
{
    let ghost before = pairs_view(out@);
    if value.unicode_len() > 0 {
        out.push((key.to_owned(), value.to_owned()));
        assert(pairs_view(out@) =~= before + line_if_set(key@, value@));
    } else {
        assert(pairs_view(out@) =~= before + line_if_set(key@, value@));
    }
}

/// The module-metadata lines of the info pane for `available` rows.
pub fn meta_lines(
    format_label: &str,
    channels: i32,
    samples: usize,
    instruments: usize,
    duration: &str,
    artist: &str,
    tracker: &str,
    message: &str,
    available: usize,
) -> (r: Vec<(String, String)>)
    ensures
        pairs_view(r@) == meta_lines_of(
            format_label@,
            channels as int,
            samples as nat,
            instruments as nat,
            duration@,
            artist@,
            tracker@,
            message@,
            available as nat,
        ),
{
    let mut out: Vec<(String, String)> = Vec::new();
    assert(pairs_view(out@) =~= Seq::empty());
    push_if_set(&mut out, "format", format_label);
    let ghost after_format = pairs_view(out@);
    let c = signed_text(channels);
    out.push(("channels".to_owned(), string_from_chars(c.as_slice())));
    let sm = samples_exec(samples, instruments);
    out.push(("samples".to_owned(), string_from_chars(sm.as_slice())));
    out.push(("duration".to_owned(), duration.to_owned()));
    proof {
        assert(pairs_view(out@) =~= after_format + seq![
            ("channels"@, signed_decimal(channels as int)),
            ("samples"@, samples_text(samples as nat, instruments as nat)),
            ("duration"@, duration@),
        ]);
    }
    push_if_set(&mut out, "artist", artist);
    push_if_set(&mut out, "tracker", tracker);
    let used = out.len();
    if message.unicode_len() > 0 && used <= available && available - used >= 2 {
        let text = first_lines(message, available - used - 1);
        let ghost before = pairs_view(out@);
        out.push(("message".to_owned(), text));
        assert(pairs_view(out@) =~= before.push(("message"@, text@)));
    }
    out
}

} // verus!
