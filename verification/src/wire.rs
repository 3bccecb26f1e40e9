//! Words in files: unsigned 32-bit numbers, four bytes each, the lowest byte
//! first.
use vstd::prelude::*;

verus! {

/// Byte `j` of a word, counted from the lowest.
pub open spec fn byte_of(word: u32, j: int) -> u8 {
    if j == 0 {
        (word % 0x100) as u8
    } else if j == 1 {
        (word / 0x100 % 0x100) as u8
    } else if j == 2 {
        (word / 0x1_0000 % 0x100) as u8
    } else {
        (word / 0x100_0000) as u8
    }
}

/// The bytes of the words, one word after the other.
pub open spec fn encoded(words: Seq<u32>) -> Seq<u8> {
    Seq::new(4 * words.len(), |i: int| byte_of(words[i / 4], i % 4))
}

/// The word whose lowest byte is at `offset`.
pub open spec fn word_at(bytes: Seq<u8>, offset: int) -> u32 {
    (bytes[offset] + 0x100 * bytes[offset + 1] + 0x1_0000 * bytes[offset + 2] + 0x100_0000
        * bytes[offset + 3]) as u32
}

/// What was encoded reads back, word by word.
pub proof fn encoded_words_read_back(words: Seq<u32>, i: int)
    requires
        0 <= i < words.len(),
    ensures
        encoded(words).len() == 4 * words.len(),
        word_at(encoded(words), 4 * i) == words[i],
{
    let bytes = encoded(words);
    assert(bytes[4 * i] == byte_of(words[i], 0));
    assert(bytes[4 * i + 1] == byte_of(words[i], 1));
    assert(bytes[4 * i + 2] == byte_of(words[i], 2));
    assert(bytes[4 * i + 3] == byte_of(words[i], 3));
}

/// The bytes of a word come lowest first.
pub proof fn words_are_stored_lowest_byte_first(words: Seq<u32>, i: int)
    requires
        0 <= i < words.len(),
    ensures
        encoded(words)[4 * i] + 0x100 * encoded(words)[4 * i + 1] + 0x1_0000 * encoded(words)[4 * i
            + 2] + 0x100_0000 * encoded(words)[4 * i + 3] == words[i],
{
    let bytes = encoded(words);
    assert(bytes[4 * i] == byte_of(words[i], 0));
    assert(bytes[4 * i + 1] == byte_of(words[i], 1));
    assert(bytes[4 * i + 2] == byte_of(words[i], 2));
    assert(bytes[4 * i + 3] == byte_of(words[i], 3));
}

/// Encoding a list after another appends its bytes.
pub proof fn encoding_concatenates(a: Seq<u32>, b: Seq<u32>)
    ensures
        encoded(a + b) == encoded(a) + encoded(b),
{
    let left = encoded(a + b);
    let right = encoded(a) + encoded(b);
    assert forall|i: int| 0 <= i < left.len() implies left[i] == right[i] by {
        if i >= 4 * a.len() {
            let k = i - 4 * a.len();
            assert((a + b)[i / 4] == b[k / 4]);
            assert(i % 4 == k % 4);
        } else {
            assert((a + b)[i / 4] == a[i / 4]);
        }
    }
    assert(left =~= right);
}

/// The bytes of the words.
pub fn encode(words: &Vec<u32>) -> (bytes: Vec<u8>)
    ensures
        bytes@ == encoded(words@),
{
    let mut bytes: Vec<u8> = Vec::new();
    let mut i: usize = 0;
    while i < words.len()
        invariant
            i <= words.len(),
            bytes@ =~= encoded(words@.take(i as int)),
        decreases words.len() - i,
    {
        let word: u32 = words[i];
        let ghost before = bytes@;
        bytes.push((word % 0x100) as u8);
        bytes.push((word / 0x100 % 0x100) as u8);
        bytes.push((word / 0x1_0000 % 0x100) as u8);
        bytes.push((word / 0x100_0000) as u8);
        proof {
            encoding_concatenates(words@.take(i as int), seq![word]);
            assert(words@.take(i + 1) =~= words@.take(i as int) + seq![word]);
            assert(bytes@ =~= before + encoded(seq![word]));
        }
        i += 1;
    }
    assert(words@.take(i as int) =~= words@);
    bytes
}

/// The word at `offset`.
pub fn read_word(bytes: &Vec<u8>, offset: usize) -> (word: u32)
    requires
        offset + 4 <= bytes@.len(),
    ensures
        word == word_at(bytes@, offset as int),
{
    let len: usize = bytes.len();
    assert(offset + 4 <= len);
    bytes[offset] as u32 + 0x100 * bytes[offset + 1] as u32 + 0x1_0000 * bytes[offset + 2] as u32
        + 0x100_0000 * bytes[offset + 3] as u32
}

} // verus!
