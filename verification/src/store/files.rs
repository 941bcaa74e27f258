//! The rows of the file tables.

use vstd::prelude::*;

verus! {

/// A file, as the table holds it.
#[derive(Debug, Clone, PartialEq, Eq)]
pub struct FileRow {
    pub file_id: i64,
    pub file_ref: String,
    pub corpus: String,
    pub mtime_ms: i64,
    pub content_hash: String,
    pub summary: Option<String>,
    pub keywords_json: String,
    pub indexed_at_ms: i64,
}

/// A file, as it is written to the table.
#[derive(Debug, Clone, Copy)]
pub struct NewFile<'a> {
    pub file_ref: &'a str,
    pub corpus: &'a str,
    pub mtime_ms: i64,
    pub content_hash: &'a str,
    pub summary: Option<&'a str>,
    pub keywords_json: &'a str,
    pub indexed_at_ms: i64,
}

/// A chunk, as it is written to the table.
#[derive(Debug, Clone, Copy)]
pub struct NewChunk<'a> {
    pub file_id: i64,
    pub ord: i64,
    pub heading_path_json: &'a str,
    pub line_start: i64,
    pub line_end: i64,
    pub text: &'a str,
}

/// The four bytes of a word, the lowest first.
pub open spec fn word_bytes(word: u32) -> Seq<u8> {
    seq![
        (word % 256) as u8,
        (word / 256 % 256) as u8,
        (word / 65536 % 256) as u8,
        (word / 16777216) as u8,
    ]
}

/// The bytes of a list of words, one after the other.
pub open spec fn words_bytes(words: Seq<u32>) -> Seq<u8>
    decreases words.len(),
{
    if words.len() == 0 {
        Seq::empty()
    } else {
        words_bytes(words.drop_last()) + word_bytes(words.last())
    }
}

/// The word that four bytes stand for, the lowest first.
pub open spec fn word_of(bytes: Seq<u8>) -> int {
    bytes[0] + 256 * bytes[1] + 65536 * bytes[2] + 16777216 * bytes[3]
}

/// An embedding as the table holds it: the bits of each of its numbers, the
/// lowest byte first.
pub fn vec_to_bytes(bits: &[u32]) -> (out: Vec<u8>)
    ensures
        out@ == words_bytes(bits@),
{
    let mut out: Vec<u8> = Vec::new();
    for i in 0..bits.len()
        invariant
            out@ == words_bytes(bits@.take(i as int)),
    {
        let word: u32 = bits[i];
        let ghost before = out@;
        proof {
            assert(bits@.take(i + 1).drop_last() =~= bits@.take(i as int));
            assert(bits@.take(i + 1).last() == word);
        }
        out.push((word % 256) as u8);
        out.push((word / 256 % 256) as u8);
        out.push((word / 65536 % 256) as u8);
        out.push((word / 16777216) as u8);
        proof {
            assert(out@ =~= before + word_bytes(word));
        }
    }
    proof {
        assert(bits@.take(bits@.len() as int) =~= bits@);
    }
    out
}

/// There are four bytes for each word, and they stand for it.
pub proof fn bytes_stand_for_words(words: Seq<u32>, i: int)
    requires
        0 <= i < words.len(),
    ensures
        words_bytes(words).len() == 4 * words.len(),
        word_of(words_bytes(words).subrange(4 * i, 4 * i + 4)) == words[i],
    decreases words.len(),
{
    let front = words.drop_last();
    length_of_bytes(words);
    length_of_bytes(front);
    if i < front.len() {
        bytes_stand_for_words(front, i);
        assert(words_bytes(words).subrange(4 * i, 4 * i + 4) =~= words_bytes(front).subrange(
            4 * i,
            4 * i + 4,
        ));
    } else {
        let w = words.last();
        assert(words_bytes(words).subrange(4 * i, 4 * i + 4) =~= word_bytes(w));
        assert(word_of(word_bytes(w)) == w) by (nonlinear_arith)
            requires
                word_of(word_bytes(w)) == (w % 256) + 256 * (w / 256 % 256) + 65536 * (w / 65536
                    % 256) + 16777216 * (w / 16777216),
                0 <= w <= 0xffff_ffff,
        ;
    }
}

proof fn length_of_bytes(words: Seq<u32>)
    ensures
        words_bytes(words).len() == 4 * words.len(),
    decreases words.len(),
{
    if words.len() > 0 {
        length_of_bytes(words.drop_last());
    }
}

} // verus!
