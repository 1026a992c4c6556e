//! The audio thread's bookkeeping: how the transport flags follow the
//! commands it receives and the end of a song, when the pattern snapshot is
//! due, and which samples feed the spectrum analyser.

use vstd::prelude::*;

verus! {

/// Mono samples fed to the spectrum analyser per second.
pub const FFT_RING_RATE_HZ: u32 = 12_000;

/// The transport flags the UI reads.
#[derive(Debug, Clone, Copy, PartialEq, Eq, Structural)]
pub struct Transport {
    pub playing: bool,
    pub stopped: bool,
    /// The song reached its end.
    pub eof: bool,
}

/// The commands that move the transport. (Seeking and gain leave it alone.)
#[derive(Debug, Clone, Copy, PartialEq, Eq, Structural)]
pub enum TransportCommand {
    /// A new module was handed over: it starts playing from the top.
    Load,
    /// Resume, if a module is loaded.
    Play,
    Pause,
    /// Pause and rewind.
    Stop,
}

/// The flags after a command; `has_module` says whether a module is loaded
/// when the command arrives.
pub open spec fn next_transport(t: Transport, cmd: TransportCommand, has_module: bool) -> Transport {
    match cmd {
        TransportCommand::Load => Transport { playing: true, stopped: false, eof: false },
        TransportCommand::Play => if has_module {
            Transport { playing: true, stopped: false, eof: t.eof }
        } else {
            t
        },
        TransportCommand::Pause => Transport { playing: false, ..t },
        TransportCommand::Stop => Transport { playing: false, stopped: true, eof: t.eof },
    }
}

impl Transport {
    /// The flags before anything was loaded.
    pub fn initial() -> (r: Transport)
        ensures
            r == (Transport { playing: false, stopped: true, eof: false }),
    {
        Transport { playing: false, stopped: true, eof: false }
    }

    /// The flags after a command; `has_module` says whether a module is loaded
    /// when the command arrives.
    pub fn after(self, cmd: TransportCommand, has_module: bool) -> (r: Transport)
        ensures
            r == next_transport(self, cmd, has_module),
    {
        match cmd {
            TransportCommand::Load => Transport { playing: true, stopped: false, eof: false },
            TransportCommand::Play => if has_module {
                Transport { playing: true, stopped: false, eof: self.eof }
            } else {
                self
            },
            TransportCommand::Pause => Transport { playing: false, stopped: self.stopped, eof: self.eof },
            TransportCommand::Stop => Transport { playing: false, stopped: true, eof: self.eof },
        }
    }

    /// The flags after rendering a buffer that produced `rendered` frames: no
    /// frames means the song ended.
    pub fn after_render(self, rendered: usize) -> (r: Transport)
        ensures
            rendered == 0 ==> r == (Transport { playing: false, stopped: self.stopped, eof: true }),
            rendered > 0 ==> r == self,
    {
        if rendered == 0 {
            Transport { playing: false, stopped: self.stopped, eof: true }
        } else {
            self
        }
    }
}

/// Loading a module always starts playback; stopping always halts it, and
/// pausing a stopped transport changes nothing.
pub proof fn load_always_plays(t: Transport, has_module: bool)
    ensures
        next_transport(t, TransportCommand::Load, has_module).playing,
        !next_transport(t, TransportCommand::Stop, has_module).playing,
        next_transport(next_transport(t, TransportCommand::Stop, has_module), TransportCommand::Pause, has_module)
            == next_transport(t, TransportCommand::Stop, has_module),
{
}

/// Play resumes a loaded module from pause or stop: afterwards it is
/// playing and not stopped, and the end-of-song flag is as it was; with
/// nothing loaded, Play changes nothing. Pause halts playback and leaves the
/// stopped and end-of-song flags alone.
pub proof fn play_resumes_a_loaded_module(t: Transport, has_module: bool)
    ensures
        next_transport(t, TransportCommand::Play, true).playing,
        !next_transport(t, TransportCommand::Play, true).stopped,
        next_transport(t, TransportCommand::Play, true).eof == t.eof,
        next_transport(t, TransportCommand::Play, false) == t,
        !next_transport(t, TransportCommand::Pause, has_module).playing,
        next_transport(t, TransportCommand::Pause, has_module).stopped == t.stopped,
        next_transport(t, TransportCommand::Pause, has_module).eof == t.eof,
        next_transport(t, TransportCommand::Stop, has_module).stopped,
        next_transport(t, TransportCommand::Stop, has_module).eof == t.eof,
        !next_transport(t, TransportCommand::Load, has_module).stopped,
        !next_transport(t, TransportCommand::Load, has_module).eof,
{
}

/// The row the last pattern snapshot was taken at: `(-1, -1)` until the
/// first one, and again after a new module is loaded.
#[derive(Debug, Clone, Copy, PartialEq, Eq, Structural)]
pub struct SnapshotMark {
    pub pattern: i32,
    pub row: i32,
}

impl SnapshotMark {
    pub fn none() -> (r: SnapshotMark)
        ensures
            r.pattern == -1 && r.row == -1,
    {
        SnapshotMark { pattern: -1, row: -1 }
    }

    /// Whether a snapshot is due at `(pattern, row)`, and the mark after
    /// deciding: one is due whenever the position moved since the last one.
    pub fn check(self, pattern: i32, row: i32) -> (r: (bool, SnapshotMark))
        ensures
            r.0 == (pattern != self.pattern || row != self.row),
            r.1 == (SnapshotMark { pattern, row }),
    {
        (pattern != self.pattern || row != self.row, SnapshotMark { pattern, row })
    }
}

/// Output samples per analyser sample: the output rate over the analyser
/// rate, at least one.
pub open spec fn downsample_ratio(sample_rate: nat) -> nat {
    let r = sample_rate / (FFT_RING_RATE_HZ as nat);
    if r < 1 {
        1
    } else {
        r
    }
}

pub fn fft_ratio(sample_rate: u32) -> (r: u32)
    ensures
        r == downsample_ratio(sample_rate as nat),
        r >= 1,
{
    let r = sample_rate / 12_000;
    if r < 1 {
        1
    } else {
        r
    }
}

/// The frames of a buffer of `frames` frames that feed the analyser, and the
/// downsampler phase afterwards: the phase counts frames, and every frame
/// where it reaches `ratio` is taken and restarts it at zero.
pub open spec fn picked_frames(phase: nat, ratio: nat, frames: nat) -> (Seq<usize>, nat)
    decreases frames,
{
    if frames == 0 {
        (Seq::empty(), phase)
    } else {
        let (prev, p) = picked_frames(phase, ratio, (frames - 1) as nat);
        if p + 1 >= ratio {
            (prev.push((frames - 1) as usize), 0)
        } else {
            (prev, p + 1)
        }
    }
}

/// Which frames of the buffer feed the analyser, and the new phase.
pub fn pick_frames(phase: u32, ratio: u32, frames: usize) -> (r: (Vec<usize>, u32))
    requires
        ratio >= 1,
        phase < ratio,
    ensures
        (r.0@, r.1 as nat) == picked_frames(phase as nat, ratio as nat, frames as nat),
        r.1 < ratio,
{
    let mut out: Vec<usize> = Vec::new();
    let mut p: u32 = phase;
    let mut i: usize = 0;
    while i < frames
        invariant
            i <= frames,
            p < ratio,
            (out@, p as nat) == picked_frames(phase as nat, ratio as nat, i as nat),
        decreases frames - i,
    {
        p = p + 1;
        if p >= ratio {
            p = 0;
            out.push(i);
        }
        i = i + 1;
    }
    (out, p)
}

} // verus!
