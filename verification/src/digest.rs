//! Output: the final state folded onto the initial one and serialized, and the
//! digest of a message as a whole.

use crate::compress::{
    compress, compressed, wrap32, HashState, INIT_A, INIT_B, INIT_C, INIT_D, INIT_E,
};
use crate::schedule::{expand, message_schedule, seed_words, SCHEDULE_WORDS, SEED_WORDS};
use crate::scratch::{leading_words, loaded, Scratch, BUFFER_LEN};
use crate::words::{be_bytes, write_u32_be};
use vstd::prelude::*;

verus! {

/// Length of a digest in bytes.
pub const DIGEST_LEN: usize = 20;

/// Number of leading message bytes that the digest depends on.
pub const SEED_LEN: usize = 64;

/// The five output words: each accumulator plus its initial value, modulo
/// 2^32.
pub open spec fn output_words(s: HashState) -> Seq<u32> {
    seq![
        wrap32(s.a + INIT_A),
        wrap32(s.b + INIT_B),
        wrap32(s.c + INIT_C),
        wrap32(s.d + INIT_D),
        wrap32(s.e + INIT_E),
    ]
}

/// The 20 digest bytes of a final state: the output words in order, each
/// most significant byte first.
pub open spec fn digest_bytes(s: HashState) -> Seq<u8> {
    let w = output_words(s);
    be_bytes(w[0]) + be_bytes(w[1]) + be_bytes(w[2]) + be_bytes(w[3]) + be_bytes(w[4])
}

/// The digest of a message of at most `BUFFER_LEN` bytes.
pub open spec fn digest_of(input: Seq<u8>) -> Seq<u8> {
    digest_bytes(compressed(message_schedule(seed_words(loaded(input)))))
}

/// A digest is always 20 bytes long.
pub proof fn lemma_digest_len(input: Seq<u8>)
    ensures
        digest_of(input).len() == DIGEST_LEN,
{
}

/// Two messages whose loaded buffers agree on the first 64 bytes have the
/// same digest.
pub proof fn lemma_digest_reads_seed(x: Seq<u8>, y: Seq<u8>)
    requires
        forall|k: int| 0 <= k < SEED_LEN ==> loaded(x)[k] == loaded(y)[k],
    ensures
        digest_of(x) == digest_of(y),
{
    let sx = seed_words(loaded(x));
    let sy = seed_words(loaded(y));
    assert forall|t: int| 0 <= t < SEED_WORDS implies sx[t] == sy[t] by {
        assert(loaded(x).subrange(4 * t, 4 * t + 4) =~= loaded(y).subrange(4 * t, 4 * t + 4));
    }
    assert(sx =~= sy);
}

/// Bytes appended to a message of at most 64 bytes leave the digest as it is,
/// as long as those that land before offset 64 are zero, which is what the
/// buffer holds there without them.
pub proof fn lemma_tail_irrelevant(head: Seq<u8>, tail: Seq<u8>)
    requires
        head.len() <= SEED_LEN,
        head.len() + tail.len() <= BUFFER_LEN,
        forall|j: int| 0 <= j < tail.len() && head.len() + j < SEED_LEN ==> tail[j] == 0u8,
    ensures
        digest_of(head + tail) == digest_of(head),
{
    assert forall|k: int| 0 <= k < SEED_LEN implies loaded(head + tail)[k] == loaded(head)[k] by {
        if head.len() <= k < head.len() + tail.len() {
            assert((head + tail)[k] == tail[k - head.len()]);
        }
    }
    lemma_digest_reads_seed(head + tail, head);
}

/// Bytes appended to a message of at least 64 bytes never change the digest.
pub proof fn lemma_long_tail_irrelevant(head: Seq<u8>, tail: Seq<u8>)
    requires
        head.len() >= SEED_LEN,
        head.len() + tail.len() <= BUFFER_LEN,
    ensures
        digest_of(head + tail) == digest_of(head),
{
    lemma_digest_reads_seed(head + tail, head);
}

/// Folds the final state onto the initial one and serializes the five words,
/// most significant byte first.
pub fn finish(s: HashState) -> (digest: Vec<u8>)
    ensures
        digest@ == digest_bytes(s),
        digest@.len() == DIGEST_LEN,
{
    let words: [u32; 5] = [
        s.a.wrapping_add(INIT_A),
        s.b.wrapping_add(INIT_B),
        s.c.wrapping_add(INIT_C),
        s.d.wrapping_add(INIT_D),
        s.e.wrapping_add(INIT_E),
    ];
    assert(words@ =~= output_words(s));
    let mut digest: Vec<u8> = Vec::new();
    let mut i: usize = 0;
    while i < 5
        invariant
            i <= 5,
            words@ == output_words(s),
            digest@.len() == 4 * i,
            forall|j: int, k: int|
                0 <= j < i && 0 <= k < 4 ==> digest@[4 * j + k] == #[trigger] be_bytes(
                    words@[j],
                )[k],
        decreases 5 - i,
    {
        let four = write_u32_be(words[i]);
        digest.push(four[0]);
        digest.push(four[1]);
        digest.push(four[2]);
        digest.push(four[3]);
        i += 1;
    }
    proof {
        let want = digest_bytes(s);
        assert forall|n: int| 0 <= n < 20 implies digest@[n] == want[n] by {
            let j: int = n / 4;
            let k: int = n % 4;
            assert(digest@[4 * j + k] == be_bytes(words@[j])[k]);
        }
        assert(digest@ =~= want);
    }
    digest
}

/// The digest of `input`: loads the buffer, expands the schedule, runs the
/// rounds and serializes the result.
pub fn safe_hash(input: &[u8]) -> (digest: Vec<u8>)
    requires
        input@.len() <= BUFFER_LEN,
    ensures
        digest@ == digest_of(input@),
        digest@.len() == DIGEST_LEN,
{
    let mut buf = Scratch::load(input);
    expand(&mut buf);
    let state = compress(&buf);
    proof {
        assert(leading_words(buf@, SCHEDULE_WORDS as nat) =~= message_schedule(
            seed_words(loaded(input@)),
        ));
    }
    finish(state)
}

} // verus!
