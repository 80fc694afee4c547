//! The scratch buffer: 1024 bytes read and written as little-endian words.

use crate::words::{le_bytes, le_word, read_u32_le, write_u32_le};
use vstd::prelude::*;

verus! {

/// Size of the scratch buffer in bytes.
pub const BUFFER_LEN: usize = 1024;

/// Number of 32-bit words that the scratch buffer holds.
pub const WORD_COUNT: usize = 256;

/// The buffer that a message of at most `BUFFER_LEN` bytes is loaded into:
/// the message from offset 0 on, and zeros behind it.
pub open spec fn loaded(input: Seq<u8>) -> Seq<u8> {
    Seq::new(
        BUFFER_LEN as nat,
        |k: int|
            if k < input.len() {
                input[k]
            } else {
                0u8
            },
    )
}

/// The little-endian word at word index `index` of `bytes`.
pub open spec fn word_at(bytes: Seq<u8>, index: int) -> u32 {
    le_word(bytes.subrange(4 * index, 4 * index + 4))
}

/// The first `count` words of `bytes`, in order.
pub open spec fn leading_words(bytes: Seq<u8>, count: nat) -> Seq<u32> {
    Seq::new(count, |t: int| word_at(bytes, t))
}

/// `bytes` with the word at word index `index` replaced by `word`.
pub open spec fn with_word(bytes: Seq<u8>, index: int, word: u32) -> Seq<u8> {
    Seq::new(
        bytes.len(),
        |k: int|
            if 4 * index <= k < 4 * index + 4 {
                le_bytes(word)[k - 4 * index]
            } else {
                bytes[k]
            },
    )
}

/// A word that was stored is read back unchanged, and every other word keeps
/// its value.
pub proof fn lemma_with_word(bytes: Seq<u8>, index: int, word: u32, other: int)
    requires
        0 <= index,
        4 * index + 4 <= bytes.len(),
        0 <= other,
        4 * other + 4 <= bytes.len(),
    ensures
        with_word(bytes, index, word).len() == bytes.len(),
        word_at(with_word(bytes, index, word), index) == word,
        other != index ==> word_at(with_word(bytes, index, word), other) == word_at(bytes, other),
{
}

/// A zero-filled work area of `BUFFER_LEN` bytes, owned by one computation.
pub struct Scratch {
    bytes: Vec<u8>,
}

impl View for Scratch {
    type V = Seq<u8>;

    closed spec fn view(&self) -> Seq<u8> {
        self.bytes@
    }
}

impl Scratch {
    /// A scratch buffer is exactly `BUFFER_LEN` bytes long.
    pub open spec fn wf(&self) -> bool {
        self@.len() == BUFFER_LEN
    }

    /// Allocates a zeroed buffer and copies `input` to its start.
    pub fn load(input: &[u8]) -> (buf: Scratch)
        requires
            input@.len() <= BUFFER_LEN,
        ensures
            buf.wf(),
            buf@ == loaded(input@),
    {
        let mut bytes: Vec<u8> = vec![0u8; BUFFER_LEN];
        let n: usize = input.len();
        let mut k: usize = 0;
        while k < n
            invariant
                n == input@.len(),
                n <= BUFFER_LEN,
                k <= n,
                bytes@.len() == BUFFER_LEN,
                forall|j: int| 0 <= j < k ==> bytes@[j] == input@[j],
                forall|j: int| k <= j < BUFFER_LEN ==> bytes@[j] == 0u8,
            decreases n - k,
        {
            bytes[k] = input[k];
            k += 1;
        }
        assert(bytes@ =~= loaded(input@));
        Scratch { bytes }
    }

    /// The bytes of the buffer, in order.
    pub fn as_bytes(&self) -> (bytes: &[u8])
        ensures
            bytes@ == self@,
    {
        self.bytes.as_slice()
    }

    /// Reads the word at word index `index`.
    pub fn word(&self, index: usize) -> (word: u32)
        requires
            self.wf(),
            index < WORD_COUNT,
        ensures
            word == word_at(self@, index as int),
    {
        let at: usize = 4 * index;
        read_u32_le(&self.bytes[at..at + 4])
    }

    /// Stores `word` at word index `index`; the other bytes stay as they are.
    pub fn set_word(&mut self, index: usize, word: u32)
        requires
            old(self).wf(),
            index < WORD_COUNT,
        ensures
            final(self).wf(),
            final(self)@ == with_word(old(self)@, index as int, word),
    {
        let at: usize = 4 * index;
        let four = write_u32_le(word);
        self.bytes[at] = four[0];
        self.bytes[at + 1] = four[1];
        self.bytes[at + 2] = four[2];
        self.bytes[at + 3] = four[3];
        assert(self.bytes@ =~= with_word(old(self)@, index as int, word));
    }
}

} // verus!
