//! Compression: 80 rounds over five accumulator words.

use crate::schedule::SCHEDULE_WORDS;
use crate::scratch::{leading_words, Scratch};
use crate::words::{rol, rotl};
use vstd::prelude::*;

verus! {

/// Initial value of accumulator `a`.
pub const INIT_A: u32 = 0x67452301;

/// Initial value of accumulator `b`.
pub const INIT_B: u32 = 0xEFCDAB89;

/// Initial value of accumulator `c`.
pub const INIT_C: u32 = 0x98BADCFE;

/// Initial value of accumulator `d`.
pub const INIT_D: u32 = 0x10325476;

/// Initial value of accumulator `e`.
pub const INIT_E: u32 = 0xC3D2E1F0;

/// Additive constant of rounds 0 to 19.
pub const ROUND_K0: u32 = 0x5A827999;

/// Additive constant of rounds 20 to 39.
pub const ROUND_K1: u32 = 0x6ED9EBA1;

/// Additive constant of rounds 40 to 59.
pub const ROUND_K2: u32 = 0x8F1BBCDC;

/// Additive constant of rounds 60 to 79.
pub const ROUND_K3: u32 = 0xCA62C1D6;

/// The five accumulators of the hash state.
#[derive(Clone, Copy, Debug, PartialEq, Eq)]
pub struct HashState {
    pub a: u32,
    pub b: u32,
    pub c: u32,
    pub d: u32,
    pub e: u32,
}

/// The state that every computation starts from.
pub open spec fn initial_state() -> HashState {
    HashState { a: INIT_A, b: INIT_B, c: INIT_C, d: INIT_D, e: INIT_E }
}

/// The mixing function of round `t`: choose in the first phase, parity in the
/// second and fourth, majority in the third.
pub open spec fn mix(t: int, b: u32, c: u32, d: u32) -> u32 {
    if t < 20 {
        (b & c) | (!b & d)
    } else if t < 40 {
        b ^ c ^ d
    } else if t < 60 {
        (b & c) | (b & d) | (c & d)
    } else {
        b ^ c ^ d
    }
}

/// The additive constant of round `t`.
pub open spec fn round_constant(t: int) -> u32 {
    if t < 20 {
        ROUND_K0
    } else if t < 40 {
        ROUND_K1
    } else if t < 60 {
        ROUND_K2
    } else {
        ROUND_K3
    }
}

/// `sum` reduced modulo 2^32.
pub open spec fn wrap32(sum: int) -> u32 {
    (sum % 0x1_0000_0000) as u32
}

/// The state after round `t` has consumed the message word `word`.
pub open spec fn round(s: HashState, t: int, word: u32) -> HashState {
    HashState {
        a: wrap32(word + rotl(s.a, 5) + s.e + mix(t, s.b, s.c, s.d) + round_constant(t)),
        b: s.a,
        c: rotl(s.b, 30),
        d: s.c,
        e: s.d,
    }
}

/// The state after the first `n` rounds over `words`.
pub open spec fn state_after(words: Seq<u32>, n: int) -> HashState
    decreases n,
{
    if n <= 0 {
        initial_state()
    } else {
        round(state_after(words, n - 1), n - 1, words[n - 1])
    }
}

/// The state after all 80 rounds over `words`.
pub open spec fn compressed(words: Seq<u32>) -> HashState {
    state_after(words, SCHEDULE_WORDS as int)
}

/// The rounds read the words in order: two schedules that agree on their
/// first `n` words lead to the same state after `n` rounds.
pub proof fn lemma_state_after_reads_prefix(x: Seq<u32>, y: Seq<u32>, n: int)
    requires
        forall|t: int| 0 <= t < n ==> x[t] == y[t],
    ensures
        state_after(x, n) == state_after(y, n),
    decreases n,
{
    if n > 0 {
        lemma_state_after_reads_prefix(x, y, n - 1);
    }
}

impl HashState {
    /// The state that every computation starts from.
    pub fn initial() -> (s: HashState)
        ensures
            s == initial_state(),
    {
        HashState { a: INIT_A, b: INIT_B, c: INIT_C, d: INIT_D, e: INIT_E }
    }

    /// Runs round `t` on the message word `word`.
    pub fn step(self, t: usize, word: u32) -> (s: HashState)
        requires
            t < SCHEDULE_WORDS,
        ensures
            s == round(self, t as int, word),
    {
        let f: u32 = if t < 20 {
            (self.b & self.c) | (!self.b & self.d)
        } else if t < 40 {
            self.b ^ self.c ^ self.d
        } else if t < 60 {
            (self.b & self.c) | (self.b & self.d) | (self.c & self.d)
        } else {
            self.b ^ self.c ^ self.d
        };
        let k: u32 = if t < 20 {
            ROUND_K0
        } else if t < 40 {
            ROUND_K1
        } else if t < 60 {
            ROUND_K2
        } else {
            ROUND_K3
        };
        let a: u32 = word
            .wrapping_add(rol(self.a, 5))
            .wrapping_add(self.e)
            .wrapping_add(f)
            .wrapping_add(k);
        HashState { a, b: self.a, c: rol(self.b, 30), d: self.c, e: self.d }
    }
}

/// Runs the 80 rounds over the first 80 words of the buffer.
pub fn compress(buf: &Scratch) -> (s: HashState)
    requires
        buf.wf(),
    ensures
        s == compressed(leading_words(buf@, SCHEDULE_WORDS as nat)),
{
    let ghost words = leading_words(buf@, SCHEDULE_WORDS as nat);
    let mut s = HashState::initial();
    let mut t: usize = 0;
    while t < SCHEDULE_WORDS
        invariant
            t <= SCHEDULE_WORDS,
            buf.wf(),
            words == leading_words(buf@, SCHEDULE_WORDS as nat),
            s == state_after(words, t as int),
        decreases SCHEDULE_WORDS - t,
    {
        let word: u32 = buf.word(t);
        s = s.step(t, word);
        t += 1;
    }
    s
}

} // verus!
