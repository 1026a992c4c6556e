//! Tiny non-cryptographic PRNG (xorshift64*) used only to shuffle play order.
//! Shuffle quality here is cosmetic, not security-sensitive.

use vstd::prelude::*;

verus! {

/// Mixed into every seed so that the xorshift state is unlikely to be zero.
pub const SEED_MIX: u64 = 0x9e37_79b9_7f4a_7c15;

/// The xorshift64* output multiplier.
pub const OUTPUT_MULT: u64 = 0x2545_f491_4f6c_dd1d;

/// One xorshift64 state transition.
pub open spec fn xorshift(x: u64) -> u64 {
    let a = x ^ (x >> 12u64);
    let b = a ^ (a << 25u64);
    b ^ (b >> 27u64)
}

/// The output drawn from a freshly advanced state: the state times the
/// multiplier, modulo 2^64.
pub open spec fn scramble(x: u64) -> u64 {
    ((x as nat * OUTPUT_MULT as nat) % 0x1_0000_0000_0000_0000) as u64
}

/// The generator state after `k` draws from state `s`.
pub open spec fn state_after(s: u64, k: nat) -> u64
    decreases k,
{
    if k == 0 {
        s
    } else {
        xorshift(state_after(s, (k - 1) as nat))
    }
}

proof fn lemma_xorshift_nonzero(x: u64)
    requires
        x != 0,
    ensures
        xorshift(x) != 0,
{
    assert(x != 0 ==> (x ^ (x >> 12u64)) != 0) by (bit_vector);
    let a = x ^ (x >> 12u64);
    assert(a != 0 ==> (a ^ (a << 25u64)) != 0) by (bit_vector);
    let b = a ^ (a << 25u64);
    assert(b != 0 ==> (b ^ (b >> 27u64)) != 0) by (bit_vector);
}

proof fn lemma_scramble_nonzero(x: u64)
    requires
        x != 0,
    ensures
        scramble(x) != 0,
{
    assert(x != 0 ==> (x * 0x2545_f491_4f6c_dd1du64) % 0x1_0000_0000_0000_0000 != 0) by (bit_vector);
}

/// A generator seeded with anything but the mixing constant never gets stuck
/// at zero: after any number of draws its state is still non-zero, and so is
/// the value the next draw returns. (The mixing constant itself gives the
/// all-zero state, which stays zero.)
pub proof fn never_stuck_at_zero(seed: u64, k: nat)
    requires
        seed != SEED_MIX,
    ensures
        state_after(seed ^ SEED_MIX, k) != 0,
        scramble(state_after(seed ^ SEED_MIX, k + 1)) != 0,
    decreases k,
{
    assert(seed != SEED_MIX ==> (seed ^ 0x9e37_79b9_7f4a_7c15u64) != 0) by (bit_vector);
    if k > 0 {
        never_stuck_at_zero(seed, (k - 1) as nat);
        lemma_xorshift_nonzero(state_after(seed ^ SEED_MIX, (k - 1) as nat));
    }
    lemma_xorshift_nonzero(state_after(seed ^ SEED_MIX, k));
    lemma_scramble_nonzero(state_after(seed ^ SEED_MIX, k + 1));
}

/// `below(n)` from a generator in `state`: the drawn value and the new state.
/// For `n == 0` nothing is drawn.
pub open spec fn below_step(state: u64, n: nat) -> (nat, u64) {
    if n == 0 {
        (0, state)
    } else {
        let s = xorshift(state);
        ((scramble(s) as nat) % n, s)
    }
}

/// `0, 1, ..., len - 1`.
pub open spec fn identity(len: nat) -> Seq<usize> {
    Seq::new(len, |i: int| i as usize)
}

/// `v` with positions `i` and `j` exchanged.
pub open spec fn swapped(v: Seq<usize>, i: int, j: int) -> Seq<usize> {
    v.update(i, v[j]).update(j, v[i])
}

/// Fisher–Yates from position `i` down to 1: position `i` is exchanged with a
/// position drawn uniformly-ish from `0..=i`, then the walk continues at
/// `i - 1`. Returns the permuted sequence and the final generator state.
pub open spec fn fisher_yates(v: Seq<usize>, i: nat, state: u64) -> (Seq<usize>, u64)
    decreases i,
{
    if i == 0 {
        (v, state)
    } else {
        let (j, s) = below_step(state, i + 1);
        fisher_yates(swapped(v, i as int, j as int), (i - 1) as nat, s)
    }
}

/// The permutation of `0..len` produced from a generator in `state`, and the
/// state it leaves behind.
pub open spec fn shuffle_of(len: nat, state: u64) -> (Seq<usize>, u64) {
    fisher_yates(identity(len), if len == 0 { 0 } else { (len - 1) as nat }, state)
}

/// `v` holds each of `0..len` exactly once.
pub open spec fn is_permutation_of_range(v: Seq<usize>, len: nat) -> bool {
    &&& v.len() == len
    &&& forall|k: int| 0 <= k < v.len() ==> (#[trigger] v[k] as int) < len
    &&& v.no_duplicates()
    &&& forall|x: usize| (x as int) < len ==> #[trigger] v.contains(x)
}

pub struct Rng(u64);

impl Rng {
    /// The generator's internal state.
    pub closed spec fn state(&self) -> u64 {
        self.0
    }

    /// Seed from the wall clock. Good enough to give a different shuffle each
    /// run; never used where reproducibility or security matters.
    pub fn from_clock() -> (r: Rng) {
        match wall_clock_nanos() {
            Some(n) => Rng::new(truncate_nanos(n)),
            None => Rng::new(SEED_MIX),
        }
    }

    pub fn new(seed: u64) -> (r: Rng)
        ensures
            r.state() == seed ^ SEED_MIX,
    {
        // xorshift's state must be non-zero.
        Rng(seed ^ SEED_MIX)
    }

    pub fn next_u64(&mut self) -> (r: u64)
        ensures
            final(self).state() == xorshift(old(self).state()),
            r == scramble(final(self).state()),
    {
        let mut x = self.0;
        x = x ^ (x >> 12u64);
        x = x ^ (x << 25u64);
        x = x ^ (x >> 27u64);
        self.0 = x;
        x.wrapping_mul(OUTPUT_MULT)
    }

    /// Uniform-ish integer in `0..n` (n > 0). Modulo bias is irrelevant here.
    /// For `n == 0` the answer is 0 and the generator does not advance.
    pub fn below(&mut self, n: usize) -> (r: usize)
        ensures
            (r as nat, final(self).state()) == below_step(old(self).state(), n as nat),
            n > 0 ==> r < n,
    {
        if n == 0 {
            return 0;
        }
        let x = self.next_u64();
        (x % (n as u64)) as usize
    }
}

/// The low 64 bits of a nanosecond count.
fn truncate_nanos(n: u128) -> (r: u64)
    ensures
        r == n % 0x1_0000_0000_0000_0000,
{
    (n % 0x1_0000_0000_0000_0000u128) as u64
}

/// Nanoseconds since the Unix epoch by the system clock, or `None` when the
/// clock reads earlier than the epoch.
///
/// Calls `std::time::SystemTime::now` and `duration_since(UNIX_EPOCH)`. Nothing
/// is stated of the value: it is the time at the call.
#[verifier::external_body]
fn wall_clock_nanos() -> (r: Option<u128>) {
    std::time::SystemTime::now().duration_since(std::time::UNIX_EPOCH).ok().map(|d| d.as_nanos())
}

pub(crate) proof fn lemma_swap_keeps_permutation(v: Seq<usize>, len: nat, i: int, j: int)
    requires
        is_permutation_of_range(v, len),
        0 <= i < len,
        0 <= j < len,
    ensures
        is_permutation_of_range(swapped(v, i, j), len),
{
    let w = swapped(v, i, j);
    assert(w.len() == len);
    assert forall|k: int| 0 <= k < w.len() implies (#[trigger] w[k] as int) < len by {
        if k == j {
        } else if k == i {
        } else {
        }
    }
    assert forall|a: int, b: int| 0 <= a < w.len() && 0 <= b < w.len() && a != b implies w[a]
        != w[b] by {
        let pa = if a == j {
            i
        } else if a == i {
            j
        } else {
            a
        };
        let pb = if b == j {
            i
        } else if b == i {
            j
        } else {
            b
        };
        assert(w[a] == v[pa]);
        assert(w[b] == v[pb]);
        assert(pa != pb);
    }
    assert forall|x: usize| (x as int) < len implies #[trigger] w.contains(x) by {
        assert(v.contains(x));
        let p = choose|p: int| 0 <= p < v.len() && v[p] == x;
        let q = if p == i {
            j
        } else if p == j {
            i
        } else {
            p
        };
        assert(w[q] == v[p]);
    }
}

proof fn lemma_fisher_yates_permutes(v: Seq<usize>, len: nat, i: nat, state: u64)
    requires
        is_permutation_of_range(v, len),
        i < len || (i == 0),
    ensures
        is_permutation_of_range(fisher_yates(v, i, state).0, len),
    decreases i,
{
    if i > 0 {
        let (j, s) = below_step(state, i + 1);
        assert(j < i + 1);
        lemma_swap_keeps_permutation(v, len, i as int, j as int);
        lemma_fisher_yates_permutes(swapped(v, i as int, j as int), len, (i - 1) as nat, s);
    }
}

pub(crate) proof fn lemma_identity_is_permutation(len: nat)
    requires
        len <= usize::MAX,
    ensures
        is_permutation_of_range(identity(len), len),
{
    let v = identity(len);
    assert forall|k: int| 0 <= k < v.len() implies (#[trigger] v[k] as int) < len by {}
    assert(v.no_duplicates()) by {
        assert forall|a: int, b: int| 0 <= a < v.len() && 0 <= b < v.len() && a != b implies v[a]
            != v[b] by {
            assert(v[a] == a as usize);
            assert(v[b] == b as usize);
        }
    }
    assert forall|x: usize| (x as int) < len implies #[trigger] v.contains(x) by {
        assert(v[x as int] == x);
    }
}

/// Every shuffle, from any generator state, holds each of `0..len` exactly
/// once.
pub proof fn shuffle_is_bijection(len: nat, state: u64)
    requires
        len <= usize::MAX,
    ensures
        is_permutation_of_range(shuffle_of(len, state).0, len),
{
    lemma_identity_is_permutation(len);
    lemma_fisher_yates_permutes(identity(len), len, if len == 0 { 0 } else { (len - 1) as nat }, state);
}

/// A Fisher–Yates permutation of `0..len`.
pub fn permutation(len: usize, rng: &mut Rng) -> (r: Vec<usize>)
    ensures
        (r@, final(rng).state()) == shuffle_of(len as nat, old(rng).state()),
        is_permutation_of_range(r@, len as nat),
{
    let mut v: Vec<usize> = Vec::new();
    let mut k: usize = 0;
    while k < len
        invariant
            k <= len,
            v@ == identity(k as nat),
        decreases len - k,
    {
        v.push(k);
        proof {
            assert(v@ =~= identity((k + 1) as nat));
        }
        k = k + 1;
    }
    let ghost start = old(rng).state();
    let mut i: usize = if len == 0 {
        0
    } else {
        len - 1
    };
    while i > 0
        invariant
            i < len || i == 0,
            v@.len() == len,
            fisher_yates(v@, i as nat, rng.state()) == shuffle_of(len as nat, start),
        decreases i,
    {
        let ghost v0 = v@;
        let ghost s0 = rng.state();
        let j = rng.below(i + 1);
        let a = v[i];
        let b = v[j];
        v.set(i, b);
        v.set(j, a);
        assert(v@ =~= swapped(v0, i as int, j as int));
        i = i - 1;
    }
    proof {
        shuffle_is_bijection(len as nat, start);
    }
    v
}

} // verus!
