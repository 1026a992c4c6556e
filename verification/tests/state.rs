use rtrax::pattern::PatternWindow;
use rtrax::state::{join_u64, split_u64, AtomicU64Pair, SharedState, MAX_CHANNELS};
use std::sync::Arc;

#[test]
fn last_instruments_can_be_cleared() {
    let state = SharedState::new();
    state.set_last_instrument(0, 3);
    state.set_last_instrument(MAX_CHANNELS, 9);
    assert_eq!(state.last_instrument(0), 3);
    assert_eq!(state.last_instrument(MAX_CHANNELS), 0);
    state.clear_last_instruments();
    assert_eq!(state.last_instrument(0), 0);
}

#[test]
fn atomic_u64_pair_roundtrip_zero_and_max() {
    let pair = AtomicU64Pair::new(0);
    assert_eq!(pair.load(), 0);
    pair.store(u64::MAX);
    assert_eq!(pair.load(), u64::MAX);
    let v: u64 = 0xDEAD_BEEF_CAFE_1234;
    pair.store(v);
    assert_eq!(pair.load(), v);
}

#[test]
fn set_last_instrument_out_of_bounds_is_silent() {
    let state = SharedState::new();
    state.set_last_instrument(MAX_CHANNELS, 42);
    assert_eq!(state.last_instrument(MAX_CHANNELS), 0);
}

#[test]
fn pattern_cache_is_replaceable() {
    let state = SharedState::new();
    let cache = Arc::new(PatternWindow::default());
    state.set_pattern_cache(cache.clone());
    let stored = state.pattern_cache.lock().unwrap().clone();
    assert!(Arc::ptr_eq(&stored, &cache));
}

#[test]
fn halves_split_and_join() {
    assert_eq!(split_u64(0xDEAD_BEEF_CAFE_1234), (0xCAFE_1234, 0xDEAD_BEEF));
    assert_eq!(join_u64(0xCAFE_1234, 0xDEAD_BEEF), 0xDEAD_BEEF_CAFE_1234);
    let state = SharedState::new();
    assert_eq!(state.vu_bits.len(), 2 * MAX_CHANNELS);
    assert_eq!(state.position_secs_bits.load(), 0);
}

#[test]
fn try_publish_replaces_an_unlocked_snapshot() {
    let state = SharedState::new();
    let mut w = PatternWindow::default();
    w.pattern = 5;
    rtrax::state::try_publish(&state.pattern_cache, w);
    assert_eq!(state.pattern_cache.lock().unwrap().pattern, 5);
}
