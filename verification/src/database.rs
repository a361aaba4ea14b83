use vstd::prelude::*;

verus! {

/// The evaluator's lookup table: a flat array of unsigned 32-bit words.
/// Reading the raw bytes from wherever they are stored is the caller's
/// business; decoding them is `format_data`.
pub struct DataBase(pub Vec<u32>);

/// The little-endian 32-bit word starting at byte `4 * i`.
pub open spec fn le_word(bytes: Seq<u8>, i: int) -> int {
    bytes[4 * i] + 256 * bytes[4 * i + 1] + 65536 * bytes[4 * i + 2] + 16777216 * bytes[4 * i + 3]
}

impl DataBase {
    /// Decodes raw bytes into little-endian 32-bit words. A trailing
    /// partial word (when the length is not a multiple of four) is dropped
    /// silently.
    pub fn format_data(value: Vec<u8>) -> (r: Vec<u32>)
        ensures
            r@.len() == value@.len() / 4,
            forall|i: int| 0 <= i < r@.len() ==> r@[i] == le_word(value@, i),
    {
        let mut contents: Vec<u32> = Vec::new();
        let words = value.len() / 4;
        let mut i: usize = 0;
        while i < words
            invariant
                value@.len() == value.len(),
                words == value@.len() / 4,
                i <= words,
                contents@.len() == i,
                forall|j: int| 0 <= j < i ==> contents@[j] == le_word(value@, j),
            decreases words - i,
        {
            proof {
                assert(4 * (value@.len() / 4) <= value@.len());
                assert(4 * i as int + 3 < value@.len());
            }
            let b0 = value[4 * i];
            let b1 = value[4 * i + 1];
            let b2 = value[4 * i + 2];
            let b3 = value[4 * i + 3];
            let word = b0 as u32 + 256 * (b1 as u32) + 65536 * (b2 as u32) + 16777216 * (
            b3 as u32);
            contents.push(word);
            i = i + 1;
        }
        contents
    }
}

} // verus!
