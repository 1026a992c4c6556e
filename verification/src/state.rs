//! State shared between the audio callback and the UI thread.
//!
//! Discipline: the audio callback only writes atomics; the UI only reads them.
//! Floating-point values travel as their bit patterns in integer atomics. The
//! text fields and the pattern snapshot sit behind mutexes, and the callback
//! only ever tries those locks — if one is held, it skips the update rather
//! than block.
//!
//! What an atomic holds depends on every thread that touches it, so the
//! contracts here say which slot a call touches and what it computes, not
//! what a later read returns.

use crate::pattern::PatternWindow;
use std::sync::atomic::{AtomicBool, AtomicI32, AtomicU32, AtomicUsize};
use std::sync::Arc;
use std::sync::Mutex;
use vstd::prelude::*;

verus! {

/// A `std::sync::Mutex`; nothing is known of what it holds.
#[verifier::external_type_specification]
#[verifier::external_body]
#[verifier::reject_recursive_types(T)]
pub struct ExMutex<T: ?Sized>(Mutex<T>);

/// `Mutex::new`: a mutex holding `t`. Nothing is stated of the result: what
/// a mutex holds is not part of the model.
pub assume_specification<T>[ Mutex::<T>::new ](t: T) -> Mutex<T>;

/// Replaces what the mutex holds with `v` unless the mutex is poisoned, by
/// `Mutex::lock`. Nothing is stated: the contents are not part of the model.
#[verifier::external_body]
fn replace_locked<T>(m: &Mutex<T>, v: T) {
    if let Ok(mut guard) = m.lock() {
        *guard = v;
    }
}

/// Replaces what the mutex holds with `v` if the lock can be taken right
/// now, by `Mutex::try_lock`. Nothing is stated: whether the lock is free
/// depends on the other threads.
#[verifier::external_body]
fn try_replace_locked<T>(m: &Mutex<T>, v: T) {
    if let Ok(mut guard) = m.try_lock() {
        *guard = v;
    }
}

/// Cap on how many per-channel meter slots are published to the UI. Modules
/// can have many channels (some > 64); the UI lays them out in sub-columns.
pub const MAX_CHANNELS: usize = 128;

/// The low 32 bits of `v`.
pub open spec fn low_half(v: u64) -> u32 {
    (v % 0x1_0000_0000) as u32
}

/// The high 32 bits of `v`.
pub open spec fn high_half(v: u64) -> u32 {
    (v / 0x1_0000_0000) as u32
}

/// The 64-bit value with halves `lo` and `hi`.
pub open spec fn joined(lo: u32, hi: u32) -> u64 {
    (hi as nat * 0x1_0000_0000 + lo as nat) as u64
}

/// Splitting a value into halves and joining them gives the value back.
pub proof fn halves_round_trip(v: u64)
    ensures
        joined(low_half(v), high_half(v)) == v,
{
    assert(v == (v / 0x1_0000_0000) * 0x1_0000_0000 + v % 0x1_0000_0000) by (nonlinear_arith);
    assert(v / 0x1_0000_0000 < 0x1_0000_0000) by (nonlinear_arith)
        requires
            v <= u64::MAX,
    ;
}

/// The two halves of `v`, low first.
pub fn split_u64(v: u64) -> (r: (u32, u32))
    ensures
        r == (low_half(v), high_half(v)),
{
    let lo = (v & 0xffff_ffff) as u32;
    let hi = (v >> 32u64) as u32;
    assert((v & 0xffff_ffff) == v % 0x1_0000_0000) by (bit_vector);
    assert((v >> 32u64) == v / 0x1_0000_0000) by (bit_vector);
    (lo, hi)
}

/// The value with halves `lo` and `hi`.
pub fn join_u64(lo: u32, hi: u32) -> (r: u64)
    ensures
        r == joined(lo, hi),
{
    let h = hi as u64;
    let l = lo as u64;
    assert(((h << 32u64) | l) == h * 0x1_0000_0000 + l) by (bit_vector)
        requires
            h < 0x1_0000_0000,
            l < 0x1_0000_0000,
    ;
    (h << 32u64) | l
}

/// A `u64` stored as two relaxed `u32` atomics. Readers tolerate the brief
/// window between the two halves; the values (position and duration in
/// seconds) are advisory display state.
pub struct AtomicU64Pair {
    lo: AtomicU32,
    hi: AtomicU32,
}

impl AtomicU64Pair {
    /// A pair holding `v`: its low half in one atomic, its high half in the
    /// other.
    pub fn new(v: u64) -> (r: AtomicU64Pair) {
        let (lo, hi) = split_u64(v);
        AtomicU64Pair { lo: AtomicU32::new(lo), hi: AtomicU32::new(hi) }
    }

    /// The value whose halves the two atomics hold now.
    pub fn load(&self) -> (r: u64) {
        let lo = self.lo.load(std::sync::atomic::Ordering::Relaxed);
        let hi = self.hi.load(std::sync::atomic::Ordering::Relaxed);
        join_u64(lo, hi)
    }

    /// Store `v`'s low half, then its high half.
    pub fn store(&self, v: u64) {
        let (lo, hi) = split_u64(v);
        self.lo.store(lo, std::sync::atomic::Ordering::Relaxed);
        self.hi.store(hi, std::sync::atomic::Ordering::Relaxed);
    }
}

pub struct SharedState {
    pub playing: AtomicBool,
    pub stopped: AtomicBool,
    /// Set by the audio thread when the song reaches its end.
    pub eof: AtomicBool,
    pub sample_rate: AtomicU32,
    pub master_gain_millibel: AtomicI32,
    pub num_channels: AtomicI32,
    pub num_orders: AtomicI32,
    pub current_order: AtomicI32,
    pub current_pattern: AtomicI32,
    pub current_row: AtomicI32,
    pub current_rows_in_pattern: AtomicI32,
    pub current_speed: AtomicI32,
    pub current_tempo: AtomicI32,
    /// Seconds as `f64` bits.
    pub position_secs_bits: AtomicU64Pair,
    pub duration_secs_bits: AtomicU64Pair,
    /// Per-channel VU: slots `2 * i` and `2 * i + 1` are the left and right
    /// levels of channel `i`, as `f32` bits.
    pub vu_bits: Vec<AtomicU32>,
    /// Post-mix output peak of the latest buffer, per side, as `f32` bits.
    pub master_peak_l_bits: AtomicU32,
    pub master_peak_r_bits: AtomicU32,
    /// Most recent instrument number seen per channel (1-based; 0 = unseen).
    pub last_instrument: Vec<AtomicI32>,
    pub sample_names: Mutex<Vec<String>>,
    pub instrument_names: Mutex<Vec<String>>,
    /// Free-form song message from the module file.
    pub song_message: Mutex<String>,
    pub artist: Mutex<String>,
    pub tracker: Mutex<String>,
    pub title: Mutex<String>,
    pub format_label: Mutex<String>,
    /// Currently-loaded file path.
    pub current_path: Mutex<Option<String>>,
    /// The snapshot of pattern rows around the playing row.
    pub pattern_cache: Mutex<Arc<PatternWindow>>,
    /// Incremented whenever the playing row changes.
    pub row_generation: AtomicUsize,
}

/// Atomics for the per-channel VU slots, all zero.
fn vu_slots() -> (r: Vec<AtomicU32>)
    ensures
        r@.len() == 2 * MAX_CHANNELS,
{
    let mut v: Vec<AtomicU32> = Vec::new();
    let mut i: usize = 0;
    while i < 256
        invariant
            i <= 256,
            v@.len() == i,
        decreases 256 - i,
    {
        v.push(AtomicU32::new(0));
        i = i + 1;
    }
    v
}

/// Atomics for the per-channel instrument slots, all zero.
fn instrument_slots() -> (r: Vec<AtomicI32>)
    ensures
        r@.len() == MAX_CHANNELS,
{
    let mut v: Vec<AtomicI32> = Vec::new();
    let mut i: usize = 0;
    while i < 128
        invariant
            i <= 128,
            v@.len() == i,
        decreases 128 - i,
    {
        v.push(AtomicI32::new(0));
        i = i + 1;
    }
    v
}

impl SharedState {
    /// One VU slot pair and one instrument slot per channel up to the cap.
    pub open spec fn wf(&self) -> bool {
        &&& self.vu_bits@.len() == 2 * MAX_CHANNELS
        &&& self.last_instrument@.len() == MAX_CHANNELS
    }

    pub fn new() -> (r: SharedState)
        ensures
            r.wf(),
    {
        SharedState {
            playing: AtomicBool::new(false),
            stopped: AtomicBool::new(true),
            eof: AtomicBool::new(false),
            sample_rate: AtomicU32::new(48_000),
            master_gain_millibel: AtomicI32::new(0),
            num_channels: AtomicI32::new(0),
            num_orders: AtomicI32::new(0),
            current_order: AtomicI32::new(0),
            current_pattern: AtomicI32::new(0),
            current_row: AtomicI32::new(0),
            current_rows_in_pattern: AtomicI32::new(0),
            current_speed: AtomicI32::new(0),
            current_tempo: AtomicI32::new(0),
            position_secs_bits: AtomicU64Pair::new(0),
            duration_secs_bits: AtomicU64Pair::new(0),
            vu_bits: vu_slots(),
            master_peak_l_bits: AtomicU32::new(0),
            master_peak_r_bits: AtomicU32::new(0),
            last_instrument: instrument_slots(),
            sample_names: Mutex::new(Vec::new()),
            instrument_names: Mutex::new(Vec::new()),
            song_message: Mutex::new(String::new()),
            artist: Mutex::new(String::new()),
            tracker: Mutex::new(String::new()),
            title: Mutex::new(String::new()),
            format_label: Mutex::new(String::new()),
            current_path: Mutex::new(None),
            pattern_cache: Mutex::new(Arc::new(PatternWindow::default())),
            row_generation: AtomicUsize::new(0),
        }
    }

    /// Record the instrument last seen on `channel`; channels past the cap
    /// are ignored.
    pub fn set_last_instrument(&self, channel: usize, instrument: i32)
        requires
            self.wf(),
    {
        if channel < MAX_CHANNELS {
            self.last_instrument[channel].store(instrument, std::sync::atomic::Ordering::Relaxed);
        }
    }

    /// The instrument last seen on `channel`; 0 for channels past the cap.
    pub fn last_instrument(&self, channel: usize) -> (r: i32)
        requires
            self.wf(),
        ensures
            channel >= MAX_CHANNELS ==> r == 0,
    {
        if channel < MAX_CHANNELS {
            self.last_instrument[channel].load(std::sync::atomic::Ordering::Relaxed)
        } else {
            0
        }
    }

    /// Forget the instruments seen on every channel.
    pub fn clear_last_instruments(&self)
        requires
            self.wf(),
    {
        let mut i: usize = 0;
        while i < self.last_instrument.len()
            invariant
                i <= self.last_instrument@.len(),
            decreases self.last_instrument@.len() - i,
        {
            self.last_instrument[i].store(0, std::sync::atomic::Ordering::Relaxed);
            i = i + 1;
        }
    }

    /// Replace the pattern snapshot.
    pub fn set_pattern_cache(&self, cache: Arc<PatternWindow>) {
        replace_locked(&self.pattern_cache, cache);
    }
}

/// Publish a new pattern snapshot unless the UI is reading the old one right
/// now (the audio thread must never block).
pub fn try_publish(slot: &Mutex<Arc<PatternWindow>>, window: PatternWindow) {
    try_replace_locked(slot, Arc::new(window));
}

} // verus!
