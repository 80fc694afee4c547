//! Message schedule: the 16 seed words of the buffer, expanded to 80.

use crate::scratch::{leading_words, with_word, word_at, Scratch, BUFFER_LEN};
use crate::words::{le_bytes, rol, rotl};
use vstd::prelude::*;

verus! {

/// Number of words that come straight from the loaded buffer.
pub const SEED_WORDS: usize = 16;

/// Number of words that the compression rounds consume.
pub const SCHEDULE_WORDS: usize = 80;

/// The first 16 words of a buffer: all of the message that reaches the digest.
pub open spec fn seed_words(bytes: Seq<u8>) -> Seq<u32> {
    leading_words(bytes, SEED_WORDS as nat)
}

/// Word `t` of the schedule grown from `seed`. Past the seed, a word is the
/// constant 1 rotated left by the low five bits of the exclusive-or of the
/// words 16, 14, 8 and 3 places before it.
pub open spec fn schedule_word(seed: Seq<u32>, t: int) -> u32
    decreases t,
{
    if t < SEED_WORDS {
        seed[t]
    } else {
        rotl(
            1,
            (schedule_word(seed, t - 16) ^ schedule_word(seed, t - 14) ^ schedule_word(seed, t - 8)
                ^ schedule_word(seed, t - 3)) & 0x1f,
        )
    }
}

/// The 80 words that the rounds consume, grown from `seed`.
pub open spec fn message_schedule(seed: Seq<u32>) -> Seq<u32> {
    Seq::new(SCHEDULE_WORDS as nat, |t: int| schedule_word(seed, t))
}

/// A buffer whose words from 16 up to `upto` have been replaced by the
/// schedule grown from its first 16 words.
pub open spec fn expanded_upto(bytes: Seq<u8>, upto: int) -> Seq<u8> {
    Seq::new(
        bytes.len(),
        |k: int|
            if 4 * SEED_WORDS <= k < 4 * upto {
                le_bytes(schedule_word(seed_words(bytes), k / 4))[k % 4]
            } else {
                bytes[k]
            },
    )
}

/// The buffer after expansion: words 16 to 79 hold the schedule, every other
/// byte is as it was.
pub open spec fn expanded(bytes: Seq<u8>) -> Seq<u8> {
    expanded_upto(bytes, SCHEDULE_WORDS as int)
}

/// Below `upto`, the words of a partly expanded buffer are the schedule's.
pub proof fn lemma_expanded_word(bytes: Seq<u8>, upto: int, t: int)
    requires
        bytes.len() == BUFFER_LEN,
        SEED_WORDS <= upto <= SCHEDULE_WORDS,
        0 <= t < upto,
    ensures
        word_at(expanded_upto(bytes, upto), t) == schedule_word(seed_words(bytes), t),
{
    let grown = expanded_upto(bytes, upto);
    let four = grown.subrange(4 * t, 4 * t + 4);
    if t < SEED_WORDS {
        assert(four =~= bytes.subrange(4 * t, 4 * t + 4));
    } else {
        let word: u32 = schedule_word(seed_words(bytes), t);
        assert forall|j: int| 0 <= j < 4 implies #[trigger] four[j] == le_bytes(word)[j] by {
            assert((4 * t + j) / 4 == t && (4 * t + j) % 4 == j);
        }
        assert(four =~= le_bytes(word));
    }
}

/// Storing the next schedule word extends the expanded part by one word.
proof fn lemma_expand_step(bytes: Seq<u8>, upto: int)
    requires
        bytes.len() == BUFFER_LEN,
        SEED_WORDS <= upto < SCHEDULE_WORDS,
    ensures
        with_word(expanded_upto(bytes, upto), upto, schedule_word(seed_words(bytes), upto))
            == expanded_upto(bytes, upto + 1),
{
    let word: u32 = schedule_word(seed_words(bytes), upto);
    let stored = with_word(expanded_upto(bytes, upto), upto, word);
    let next = expanded_upto(bytes, upto + 1);
    assert forall|k: int| 0 <= k < bytes.len() implies #[trigger] stored[k] == next[k] by {
        if 4 * upto <= k < 4 * upto + 4 {
            assert(k / 4 == upto && k % 4 == k - 4 * upto);
        }
    }
    assert(stored =~= next);
}

/// Runs the 64 expansion steps in ascending order, each one reading four
/// earlier words and storing one new word.
pub fn expand(buf: &mut Scratch)
    requires
        old(buf).wf(),
    ensures
        final(buf).wf(),
        final(buf)@ == expanded(old(buf)@),
        forall|t: int|
            0 <= t < SCHEDULE_WORDS ==> word_at(final(buf)@, t) == #[trigger] schedule_word(
                seed_words(old(buf)@),
                t,
            ),
{
    let ghost start = buf@;
    assert(buf@ =~= expanded_upto(start, SEED_WORDS as int));
    let mut i: usize = 0;
    while i < SCHEDULE_WORDS - SEED_WORDS
        invariant
            i <= SCHEDULE_WORDS - SEED_WORDS,
            start.len() == BUFFER_LEN,
            buf.wf(),
            buf@ == expanded_upto(start, i + SEED_WORDS),
        decreases SCHEDULE_WORDS - SEED_WORDS - i,
    {
        proof {
            lemma_expanded_word(start, i + SEED_WORDS, i as int);
            lemma_expanded_word(start, i + SEED_WORDS, i + 2);
            lemma_expanded_word(start, i + SEED_WORDS, i + 8);
            lemma_expanded_word(start, i + SEED_WORDS, i + 13);
        }
        let shift: u32 = (buf.word(i) ^ buf.word(i + 2) ^ buf.word(i + 8) ^ buf.word(i + 13)) & 0x1f;
        buf.set_word(i + 16, rol(1, shift));
        proof {
            lemma_expand_step(start, i + SEED_WORDS);
        }
        i += 1;
    }
    assert forall|t: int| 0 <= t < SCHEDULE_WORDS implies word_at(buf@, t)
        == #[trigger] schedule_word(seed_words(start), t) by {
        lemma_expanded_word(start, SCHEDULE_WORDS as int, t);
    }
}

} // verus!
