//! The pixel buffer that a frame is drawn into.
//!
//! A frame is drawn as bytes, four to a pixel, and shown as words, one to a
//! pixel. The two forms are converted into each other value by value, with
//! the first byte of a pixel as the lowest byte of its word.

use vstd::prelude::*;

verus! {

/// A buffer of pixel data, held either as bytes or as words.
pub struct BufferWrapper<T>(pub Vec<T>);

/// Byte `k` of a word, counted from its lowest byte.
pub open spec fn byte_of_word(word: u32, k: int) -> u8
    recommends
        0 <= k < 4,
{
    if k == 0 {
        (word as int % 256) as u8
    } else if k == 1 {
        (word as int / 256 % 256) as u8
    } else if k == 2 {
        (word as int / 65536 % 256) as u8
    } else {
        (word as int / 16777216 % 256) as u8
    }
}

/// The word made of four bytes, the first of them lowest.
pub open spec fn word_of_bytes(b0: u8, b1: u8, b2: u8, b3: u8) -> u32 {
    (b0 as int + b1 as int * 256 + b2 as int * 65536 + b3 as int * 16777216) as u32
}

/// The bytes of a sequence of words: four for each word, lowest byte first.
pub open spec fn words_to_bytes(words: Seq<u32>) -> Seq<u8> {
    Seq::new(words.len() * 4, |i: int| byte_of_word(words[i / 4], i % 4))
}

/// The words of a sequence of bytes: one for each full group of four bytes.
/// Up to three bytes at the end that fill no group are left out.
pub open spec fn bytes_to_words(bytes: Seq<u8>) -> Seq<u32> {
    Seq::new(
        bytes.len() / 4,
        |i: int| word_of_bytes(bytes[4 * i], bytes[4 * i + 1], bytes[4 * i + 2], bytes[4 * i + 3]),
    )
}

impl<T> BufferWrapper<T> {
    /// The content as a slice.
    pub fn borrow(&self) -> (content: &[T])
        ensures
            content@ == self.0@,
    {
        self.0.as_slice()
    }

    /// The content as a slice that can be written through.
    pub fn borrow_mut(&mut self) -> (content: &mut [T])
        ensures
            content@ == old(self).0@,
            final(self).0@ == final(content)@,
    {
        self.0.as_mut_slice()
    }
}

impl BufferWrapper<u32> {
    /// The words as bytes, four for each word, lowest byte first.
    pub fn to_bytes(&self) -> (bytes: Vec<u8>)
        ensures
            bytes@ == words_to_bytes(self.0@),
    {
        let mut bytes: Vec<u8> = Vec::new();
        let mut i: usize = 0;
        while i < self.0.len()
            invariant
                i <= self.0@.len(),
                bytes@ == words_to_bytes(self.0@.subrange(0, i as int)),
            decreases self.0@.len() - i,
        {
            let word = self.0[i];
            let ghost sofar = bytes@;
            bytes.push((word % 256) as u8);
            bytes.push((word / 256 % 256) as u8);
            bytes.push((word / 65536 % 256) as u8);
            bytes.push((word / 16777216 % 256) as u8);
            assert(bytes@ == words_to_bytes(self.0@.subrange(0, i + 1))) by {
                let next = words_to_bytes(self.0@.subrange(0, i + 1));
                assert forall|k: int| 0 <= k < bytes@.len() implies bytes@[k] == next[k] by {
                    if k < 4 * i {
                        assert(bytes@[k] == sofar[k]);
                    } else {
                        assert(k / 4 == i);
                    }
                }
            }
            i = i + 1;
        }
        bytes
    }
}

impl BufferWrapper<u8> {
    /// The bytes as words, one for each full group of four bytes, the first
    /// byte of a group lowest. Bytes at the end that fill no group are left out.
    pub fn to_words(&self) -> (words: Vec<u32>)
        ensures
            words@ == bytes_to_words(self.0@),
    {
        let count = self.0.len() / 4;
        let mut words: Vec<u32> = Vec::new();
        let mut i: usize = 0;
        while i < count
            invariant
                i <= count,
                count == self.0.len() / 4,
                words@.len() == i,
                forall|k: int| 0 <= k < i ==> words@[k] == bytes_to_words(self.0@)[k],
            decreases count - i,
        {
            let b0 = self.0[4 * i] as u32;
            let b1 = self.0[4 * i + 1] as u32;
            let b2 = self.0[4 * i + 2] as u32;
            let b3 = self.0[4 * i + 3] as u32;
            words.push(b0 + b1 * 256 + b2 * 65536 + b3 * 16777216);
            i = i + 1;
        }
        words
    }
}

/// Bytes made from words give the same words back.
pub proof fn lemma_words_survive_bytes(words: Seq<u32>)
    ensures
        bytes_to_words(words_to_bytes(words)) == words,
{
    let bytes = words_to_bytes(words);
    let back = bytes_to_words(bytes);
    assert forall|i: int| 0 <= i < words.len() implies back[i] == words[i] by {
        let w = words[i];
        assert(bytes[4 * i] == byte_of_word(w, 0));
        assert(bytes[4 * i + 1] == byte_of_word(w, 1));
        assert(bytes[4 * i + 2] == byte_of_word(w, 2));
        assert(bytes[4 * i + 3] == byte_of_word(w, 3));
    }
}

/// Words made from a whole number of groups of four bytes give the same
/// bytes back.
pub proof fn lemma_bytes_survive_words(bytes: Seq<u8>)
    requires
        bytes.len() % 4 == 0,
    ensures
        words_to_bytes(bytes_to_words(bytes)) == bytes,
{
    let words = bytes_to_words(bytes);
    let back = words_to_bytes(words);
    assert(back.len() == bytes.len());
    assert forall|k: int| 0 <= k < bytes.len() implies back[k] == bytes[k] by {
        let i = k / 4;
        let w = words[i];
        assert(k == 4 * i + k % 4);
        assert(byte_of_word(w, 0) == bytes[4 * i]);
        assert(byte_of_word(w, 1) == bytes[4 * i + 1]);
        assert(byte_of_word(w, 2) == bytes[4 * i + 2]);
        assert(byte_of_word(w, 3) == bytes[4 * i + 3]);
    }
}

} // verus!
