//! The rows of the store: one for each chunk of each file, with what is known
//! of the file repeated on each of its rows.

use vstd::prelude::*;
use vstd::string::StringExecFns;

use crate::error::{HallouminateError, Outcome};
use crate::store::sql::{corpus_and_file_ref_filter, corpus_and_file_ref_in, corpus_filter, of_corpus};
use crate::text::{
    cat2, cat3, cat4, chars_of, copy_list, copy_opt, debug_quote, debug_text, decimal,
    decimal_is_digits, decimal_tells_numbers_apart, decimal_text, is_digit, opt_view, owned, same,
    text_between, views,
};
use vstd::utf8::encode_utf8;

verus! {

/// How many numbers an embedding is made of.
pub const EMBEDDING_DIM: usize = 384;

/// The table that holds the rows.
pub const TABLE_NAME: &'static str = "chunks";

/// One chunk of a file.
#[derive(Debug, Clone)]
pub struct PreparedChunk {
    /// Which chunk of the file it is.
    pub ord: usize,
    /// The headings that it stands under.
    pub heading_path: Vec<String>,
    pub line_start: usize,
    pub line_end: usize,
    pub text: String,
    /// The marks that are anchored in its lines, as JSON.
    pub claim_marks: Option<String>,
}

/// One file with all of its chunks.  `E` is an embedding.
#[derive(Debug, Clone)]
pub struct PreparedFile<E> {
    pub file_ref: String,
    pub corpus: String,
    pub mtime_ms: i64,
    pub content_hash: String,
    pub summary: String,
    pub keywords: Vec<String>,
    /// The front matter of the page, as JSON.
    pub frontmatter: Option<String>,
    pub indexed_at_ms: i64,
    pub chunks: Vec<PreparedChunk>,
    /// One embedding for each chunk, or none at all where embeddings are off.
    pub embeddings: Option<Vec<E>>,
}

/// The model of a row.
#[verifier::ext_equal]
pub struct Row<E> {
    pub chunk_id: Seq<char>,
    pub file_ref: Seq<char>,
    pub corpus: Seq<char>,
    pub mtime_ms: i64,
    pub content_hash: Seq<char>,
    pub summary: Seq<char>,
    pub keywords: Seq<Seq<char>>,
    pub frontmatter: Option<Seq<char>>,
    pub indexed_at_ms: i64,
    pub ord: i64,
    pub heading_path: Seq<Seq<char>>,
    pub line_start: i64,
    pub line_end: i64,
    pub text: Seq<char>,
    pub claim_marks: Option<Seq<char>>,
    pub embedding: Option<E>,
}

/// The BLAKE3 digest of the bytes.
pub uninterp spec fn blake3_digest(bytes: Seq<u8>) -> Seq<u8>;

/// `blake3::hash`: the 32 bytes of the BLAKE3 digest.  The contract names the
/// digest without saying how it is computed; it depends on the bytes alone.
#[verifier::external_body]
fn blake3_hash(bytes: &[u8]) -> (out: [u8; 32])
    ensures
        out@ == blake3_digest(bytes@),
{
    *blake3::hash(bytes).as_bytes()
}

/// The character of a hexadecimal digit.
pub open spec fn hex_char(d: u8) -> char {
    if d == 10 {
        'a'
    } else if d == 11 {
        'b'
    } else if d == 12 {
        'c'
    } else if d == 13 {
        'd'
    } else if d == 14 {
        'e'
    } else if d == 15 {
        'f'
    } else {
        crate::text::digit_char(d as nat)
    }
}

/// Each byte as two hexadecimal digits.
pub open spec fn hex(bytes: Seq<u8>) -> Seq<char>
    decreases bytes.len(),
{
    if bytes.len() == 0 {
        Seq::empty()
    } else {
        hex(bytes.drop_last()).push(hex_char((bytes.last() / 16) as u8)).push(
            hex_char((bytes.last() % 16) as u8),
        )
    }
}

/// Whether the character is a hexadecimal digit, in lower case.
pub open spec fn is_hex(c: char) -> bool {
    is_digit(c) || ('a' <= c && c <= 'f')
}

/// The text that identifies a chunk.
pub open spec fn chunk_key(file_ref: Seq<char>, ord: nat) -> Seq<char> {
    file_ref + seq!['#'] + decimal(ord)
}

/// The identifier of a chunk: half of the digest of its key.
pub open spec fn chunk_id(file_ref: Seq<char>, ord: nat) -> Seq<char> {
    hex(blake3_digest(encode_utf8(chunk_key(file_ref, ord)))).take(32)
}

fn hex_digit(d: u8) -> (out: char)
    requires
        d < 16,
    ensures
        out == hex_char(d),
{
    if d == 0 {
        '0'
    } else if d == 1 {
        '1'
    } else if d == 2 {
        '2'
    } else if d == 3 {
        '3'
    } else if d == 4 {
        '4'
    } else if d == 5 {
        '5'
    } else if d == 6 {
        '6'
    } else if d == 7 {
        '7'
    } else if d == 8 {
        '8'
    } else if d == 9 {
        '9'
    } else if d == 10 {
        'a'
    } else if d == 11 {
        'b'
    } else if d == 12 {
        'c'
    } else if d == 13 {
        'd'
    } else if d == 14 {
        'e'
    } else {
        'f'
    }
}

/// Each byte is two hexadecimal digits.
pub proof fn hex_shape(bytes: Seq<u8>)
    ensures
        hex(bytes).len() == 2 * bytes.len(),
        forall|i: int| 0 <= i < hex(bytes).len() ==> is_hex(#[trigger] hex(bytes)[i]),
    decreases bytes.len(),
{
    if bytes.len() > 0 {
        let front = hex(bytes.drop_last());
        hex_shape(bytes.drop_last());
        assert forall|i: int| 0 <= i < hex(bytes).len() implies is_hex(#[trigger] hex(bytes)[i]) by {
            if i < front.len() {
                assert(hex(bytes)[i] == front[i]);
            }
        }
    }
}

fn hex_text(bytes: &[u8]) -> (out: String)
    ensures
        out@ == hex(bytes@),
{
    let mut out = String::new();
    for i in 0..bytes.len()
        invariant
            out@ == hex(bytes@.take(i as int)),
    {
        proof {
            assert(bytes@.take(i + 1).drop_last() =~= bytes@.take(i as int));
            assert(bytes@.take(i + 1).last() == bytes@[i as int]);
        }
        out.push(hex_digit(bytes[i] / 16));
        out.push(hex_digit(bytes[i] % 16));
    }
    proof {
        assert(bytes@.take(bytes@.len() as int) =~= bytes@);
    }
    out
}

/// The hash by which the content of a file is known: its digest, in hexadecimal
/// digits.
pub fn content_hash_of(bytes: &[u8]) -> (out: String)
    ensures
        out@ == hex(blake3_digest(bytes@)),
{
    let digest = blake3_hash(bytes);
    hex_text(&digest)
}

/// The identifier that the digest of a chunk's key gives: half of it, in
/// hexadecimal digits.
pub fn id_of_digest(digest: &[u8; 32]) -> (out: String)
    ensures
        out@ == hex(digest@).take(32),
        out@.len() == 32,
        forall|i: int| 0 <= i < 32 ==> is_hex(#[trigger] out@[i]),
{
    let encoded = hex_text(digest);
    proof {
        hex_shape(digest@);
    }
    let digits = chars_of(encoded.as_str());
    let out = text_between(&digits, 0, 32);
    proof {
        assert(out@ =~= encoded@.take(32));
    }
    out
}

/// The identifier of a chunk.  The same chunk of the same file always has the
/// same one, so that indexing a file again overwrites its rows.
pub fn chunk_id_for(file_ref: &str, ord: usize) -> (out: String)
    ensures
        out@ == chunk_id(file_ref@, ord as nat),
        out@.len() == 32,
        forall|i: int| 0 <= i < 32 ==> is_hex(#[trigger] out@[i]),
{
    let number = decimal_text(ord as u64);
    proof {
        reveal_strlit("#");
        assert("#"@ =~= seq!['#']);
    }
    let key = cat3(file_ref, "#", number.as_str());
    let digest = blake3_hash(key.as_str().as_bytes());
    id_of_digest(&digest)
}

proof fn digits_after_mark(file_ref: Seq<char>, ord: nat, i: int)
    requires
        file_ref.len() < i < chunk_key(file_ref, ord).len(),
    ensures
        chunk_key(file_ref, ord)[i] != '#',
{
    let front = file_ref + seq!['#'];
    decimal_is_digits(ord);
    assert(chunk_key(file_ref, ord) == front + decimal(ord));
    assert(is_digit(decimal(ord)[i - front.len()]));
}

/// Different chunks are identified by different texts.
pub proof fn chunk_keys_tell_chunks_apart(a: Seq<char>, n: nat, b: Seq<char>, m: nat)
    requires
        chunk_key(a, n) == chunk_key(b, m),
    ensures
        a == b,
        n == m,
{
    let ka = chunk_key(a, n);
    let kb = chunk_key(b, m);
    decimal_is_digits(n);
    decimal_is_digits(m);
    assert(ka[a.len() as int] == '#');
    assert(kb[b.len() as int] == '#');
    if a.len() < b.len() {
        digits_after_mark(a, n, b.len() as int);
    }
    if b.len() < a.len() {
        digits_after_mark(b, m, a.len() as int);
    }
    assert(ka.take(a.len() as int) =~= a);
    assert(kb.take(b.len() as int) =~= b);
    assert(ka.skip(a.len() as int + 1) =~= decimal(n));
    assert(kb.skip(b.len() as int + 1) =~= decimal(m));
    decimal_tells_numbers_apart(n, m);
}

/// What a column holds.
#[derive(Debug, Clone, Copy, PartialEq, Eq, Structural)]
pub enum ColumnKind {
    Utf8,
    Int64,
    ListUtf8,
    /// Embeddings of `EMBEDDING_DIM` numbers.
    Embedding,
}

/// One column of the table.
#[derive(Debug, Clone, Copy)]
pub struct Column {
    pub name: &'static str,
    pub kind: ColumnKind,
    pub nullable: bool,
}

/// The name, the kind and whether there may be nulls.
pub open spec fn is_column(c: Column, name: Seq<char>, kind: ColumnKind, nullable: bool) -> bool {
    c.name@ == name && c.kind == kind && c.nullable == nullable
}

/// The columns of the table, in their order.
pub fn chunks_schema() -> (out: Vec<Column>)
    ensures
        out.len() == 16,
        is_column(out@[0], "chunk_id"@, ColumnKind::Utf8, false),
        is_column(out@[1], "file_ref"@, ColumnKind::Utf8, false),
        is_column(out@[2], "corpus"@, ColumnKind::Utf8, false),
        is_column(out@[3], "mtime_ms"@, ColumnKind::Int64, false),
        is_column(out@[4], "content_hash"@, ColumnKind::Utf8, false),
        is_column(out@[5], "summary"@, ColumnKind::Utf8, false),
        is_column(out@[6], "keywords"@, ColumnKind::ListUtf8, false),
        is_column(out@[7], "frontmatter"@, ColumnKind::Utf8, true),
        is_column(out@[8], "indexed_at_ms"@, ColumnKind::Int64, false),
        is_column(out@[9], "ord"@, ColumnKind::Int64, false),
        is_column(out@[10], "heading_path"@, ColumnKind::ListUtf8, false),
        is_column(out@[11], "line_start"@, ColumnKind::Int64, false),
        is_column(out@[12], "line_end"@, ColumnKind::Int64, false),
        is_column(out@[13], "text"@, ColumnKind::Utf8, false),
        is_column(out@[14], "claim_marks"@, ColumnKind::Utf8, true),
        is_column(out@[15], "embedding"@, ColumnKind::Embedding, true),
{
    vec![
        Column { name: "chunk_id", kind: ColumnKind::Utf8, nullable: false },
        Column { name: "file_ref", kind: ColumnKind::Utf8, nullable: false },
        Column { name: "corpus", kind: ColumnKind::Utf8, nullable: false },
        Column { name: "mtime_ms", kind: ColumnKind::Int64, nullable: false },
        Column { name: "content_hash", kind: ColumnKind::Utf8, nullable: false },
        Column { name: "summary", kind: ColumnKind::Utf8, nullable: false },
        Column { name: "keywords", kind: ColumnKind::ListUtf8, nullable: false },
        Column { name: "frontmatter", kind: ColumnKind::Utf8, nullable: true },
        Column { name: "indexed_at_ms", kind: ColumnKind::Int64, nullable: false },
        Column { name: "ord", kind: ColumnKind::Int64, nullable: false },
        Column { name: "heading_path", kind: ColumnKind::ListUtf8, nullable: false },
        Column { name: "line_start", kind: ColumnKind::Int64, nullable: false },
        Column { name: "line_end", kind: ColumnKind::Int64, nullable: false },
        Column { name: "text", kind: ColumnKind::Utf8, nullable: false },
        Column { name: "claim_marks", kind: ColumnKind::Utf8, nullable: true },
        Column { name: "embedding", kind: ColumnKind::Embedding, nullable: true },
    ]
}

/// Rows, column by column.
#[derive(Debug)]
pub struct RecordBatch<E> {
    pub chunk_id: Vec<String>,
    pub file_ref: Vec<String>,
    pub corpus: Vec<String>,
    pub mtime_ms: Vec<i64>,
    pub content_hash: Vec<String>,
    pub summary: Vec<String>,
    pub keywords: Vec<Vec<String>>,
    pub frontmatter: Vec<Option<String>>,
    pub indexed_at_ms: Vec<i64>,
    pub ord: Vec<i64>,
    pub heading_path: Vec<Vec<String>>,
    pub line_start: Vec<i64>,
    pub line_end: Vec<i64>,
    pub text: Vec<String>,
    pub claim_marks: Vec<Option<String>>,
    pub embedding: Vec<Option<E>>,
}

impl<E> RecordBatch<E> {
    /// Whether the columns are equally long.
    pub open spec fn well_formed(&self) -> bool {
        let n = self.chunk_id@.len();
        &&& self.file_ref@.len() == n
        &&& self.corpus@.len() == n
        &&& self.mtime_ms@.len() == n
        &&& self.content_hash@.len() == n
        &&& self.summary@.len() == n
        &&& self.keywords@.len() == n
        &&& self.frontmatter@.len() == n
        &&& self.indexed_at_ms@.len() == n
        &&& self.ord@.len() == n
        &&& self.heading_path@.len() == n
        &&& self.line_start@.len() == n
        &&& self.line_end@.len() == n
        &&& self.text@.len() == n
        &&& self.claim_marks@.len() == n
        &&& self.embedding@.len() == n
    }

    /// The row at `i`.
    pub open spec fn row(&self, i: int) -> Row<E> {
        Row {
            chunk_id: self.chunk_id@[i]@,
            file_ref: self.file_ref@[i]@,
            corpus: self.corpus@[i]@,
            mtime_ms: self.mtime_ms@[i],
            content_hash: self.content_hash@[i]@,
            summary: self.summary@[i]@,
            keywords: views(self.keywords@[i]@),
            frontmatter: opt_view(self.frontmatter@[i]),
            indexed_at_ms: self.indexed_at_ms@[i],
            ord: self.ord@[i],
            heading_path: views(self.heading_path@[i]@),
            line_start: self.line_start@[i],
            line_end: self.line_end@[i],
            text: self.text@[i]@,
            claim_marks: opt_view(self.claim_marks@[i]),
            embedding: self.embedding@[i],
        }
    }

    /// The rows.
    pub open spec fn rows(&self) -> Seq<Row<E>> {
        Seq::new(self.chunk_id@.len(), |i: int| self.row(i))
    }

    /// How many rows there are.
    pub fn num_rows(&self) -> (out: usize)
        ensures
            out == self.rows().len(),
    {
        self.chunk_id.len()
    }

    fn empty() -> (out: RecordBatch<E>)
        ensures
            out.well_formed(),
            out.rows() == Seq::<Row<E>>::empty(),
    {
        let out = RecordBatch {
            chunk_id: Vec::new(),
            file_ref: Vec::new(),
            corpus: Vec::new(),
            mtime_ms: Vec::new(),
            content_hash: Vec::new(),
            summary: Vec::new(),
            keywords: Vec::new(),
            frontmatter: Vec::new(),
            indexed_at_ms: Vec::new(),
            ord: Vec::new(),
            heading_path: Vec::new(),
            line_start: Vec::new(),
            line_end: Vec::new(),
            text: Vec::new(),
            claim_marks: Vec::new(),
            embedding: Vec::new(),
        };
        proof {
            assert(out.rows() =~= Seq::<Row<E>>::empty());
        }
        out
    }

    fn push_row(&mut self, file: &PreparedFile<E>, chunk: &PreparedChunk, embedding: Option<E>)
        requires
            old(self).well_formed(),
        ensures
            final(self).well_formed(),
            final(self).rows() == old(self).rows().push(row_of(*file, *chunk, embedding)),
    {
        let ghost before = self.rows();
        let ghost n = before.len() as int;
        let ghost start = *self;
        self.chunk_id.push(chunk_id_for(file.file_ref.as_str(), chunk.ord));
        self.file_ref.push(file.file_ref.clone());
        self.corpus.push(file.corpus.clone());
        self.mtime_ms.push(file.mtime_ms);
        self.content_hash.push(file.content_hash.clone());
        self.summary.push(file.summary.clone());
        self.keywords.push(copy_list(&file.keywords));
        self.frontmatter.push(copy_opt(&file.frontmatter));
        self.indexed_at_ms.push(file.indexed_at_ms);
        self.ord.push(chunk.ord as i64);
        self.heading_path.push(copy_list(&chunk.heading_path));
        self.line_start.push(chunk.line_start as i64);
        self.line_end.push(chunk.line_end as i64);
        self.text.push(chunk.text.clone());
        self.claim_marks.push(copy_opt(&chunk.claim_marks));
        self.embedding.push(embedding);
        proof {
            assert forall|i: int| 0 <= i < n implies self.row(i) == #[trigger] before[i] by {
                assert(start.row(i) == before[i]);
                assert(self.row(i) =~= start.row(i));
            }
            assert(self.row(n) =~= row_of(*file, *chunk, embedding));
            assert(self.rows() =~= before.push(row_of(*file, *chunk, embedding)));
        }
    }
}

/// The row of a chunk: what is known of the file, and the chunk.
pub open spec fn row_of<E>(
    file: PreparedFile<E>,
    chunk: PreparedChunk,
    embedding: Option<E>,
) -> Row<E> {
    Row {
        chunk_id: chunk_id(file.file_ref@, chunk.ord as nat),
        file_ref: file.file_ref@,
        corpus: file.corpus@,
        mtime_ms: file.mtime_ms,
        content_hash: file.content_hash@,
        summary: file.summary@,
        keywords: views(file.keywords@),
        frontmatter: opt_view(file.frontmatter),
        indexed_at_ms: file.indexed_at_ms,
        ord: chunk.ord as i64,
        heading_path: views(chunk.heading_path@),
        line_start: chunk.line_start as i64,
        line_end: chunk.line_end as i64,
        text: chunk.text@,
        claim_marks: opt_view(chunk.claim_marks),
        embedding,
    }
}

/// The embedding of the chunk at `i`, where embeddings are on.
pub open spec fn embedding_at<E>(file: PreparedFile<E>, i: int) -> Option<E> {
    match file.embeddings {
        Some(list) => Some(list@[i]),
        None => None,
    }
}

/// The rows of a file.
pub open spec fn rows_of_file<E>(file: PreparedFile<E>) -> Seq<Row<E>> {
    Seq::new(
        file.chunks@.len(),
        |i: int| row_of(file, file.chunks@[i], embedding_at(file, i)),
    )
}

/// The rows of a list of files, in their order.
pub open spec fn rows_of<E>(files: Seq<PreparedFile<E>>) -> Seq<Row<E>>
    decreases files.len(),
{
    if files.len() == 0 {
        Seq::empty()
    } else {
        rows_of(files.drop_last()) + rows_of_file(files.last())
    }
}

/// What is wrong with a file, if anything: embeddings are on and there is not
/// one for each chunk.
pub open spec fn file_fault<E>(file: PreparedFile<E>) -> Option<Seq<char>> {
    match file.embeddings {
        Some(list) => if list@.len() != file.chunks@.len() {
            Some(
                "prepared file "@ + debug_text(file.file_ref@) + ": "@ + decimal(
                    file.chunks@.len(),
                ) + " chunks but "@ + decimal(list@.len()) + " embeddings"@,
            )
        } else {
            None
        },
        None => None,
    }
}

/// What is wrong with the first file that cannot be written.
pub open spec fn files_fault<E>(files: Seq<PreparedFile<E>>) -> Option<Seq<char>>
    decreases files.len(),
{
    if files.len() == 0 {
        None
    } else {
        match files_fault(files.drop_last()) {
            Some(fault) => Some(fault),
            None => file_fault(files.last()),
        }
    }
}

proof fn files_fault_stays<E>(files: Seq<PreparedFile<E>>, n: int)
    requires
        0 <= n <= files.len(),
        files_fault(files.take(n)) is Some,
    ensures
        files_fault(files) == files_fault(files.take(n)),
    decreases files.len(),
{
    if n < files.len() {
        assert(files.drop_last().take(n) =~= files.take(n));
        files_fault_stays(files.drop_last(), n);
    } else {
        assert(files.take(n) =~= files);
    }
}

/// Whether the result is an error about the rows with the given message.
pub open spec fn is_indexer_error<T>(out: Outcome<T>, message: Seq<char>) -> bool {
    out matches Err(HallouminateError::Indexer(m)) && m@ == message
}

/// The rows of a list of files.  An error where embeddings are on and some file
/// has not one for each of its chunks.
pub fn build_record_batch<E: Copy>(batch: &Vec<PreparedFile<E>>) -> (out: Outcome<RecordBatch<E>>)
    ensures
        match files_fault(batch@) {
            Some(fault) => is_indexer_error(out, fault),
            None => out matches Ok(rows) && rows.well_formed() && rows.rows() == rows_of(batch@),
        },
{
    let mut out: RecordBatch<E> = RecordBatch::empty();
    for k in 0..batch.len()
        invariant
            out.well_formed(),
            files_fault(batch@.take(k as int)) is None,
            out.rows() == rows_of(batch@.take(k as int)),
    {
        let file = &batch[k];
        let ghost before = out.rows();
        proof {
            assert(batch@.take(k + 1).drop_last() =~= batch@.take(k as int));
            assert(batch@.take(k + 1).last() == *file);
        }
        match &file.embeddings {
            Some(list) => {
                if list.len() != file.chunks.len() {
                    proof {
                        files_fault_stays(batch@, k + 1);
                    }
                    let mut message = cat3(
                        "prepared file ",
                        debug_quote(file.file_ref.as_str()).as_str(),
                        ": ",
                    );
                    message.append(decimal_text(file.chunks.len() as u64).as_str());
                    message.append(" chunks but ");
                    message.append(decimal_text(list.len() as u64).as_str());
                    message.append(" embeddings");
                    return Err(HallouminateError::Indexer(message));
                }
            },
            None => {},
        }
        let ghost all = rows_of_file(*file);
        proof {
            assert(before + all.take(0) =~= before);
        }
        for idx in 0..file.chunks.len()
            invariant
                out.well_formed(),
                file_fault(*file) is None,
                all == rows_of_file(*file),
                out.rows() == before + all.take(idx as int),
        {
            let embedding = match &file.embeddings {
                Some(list) => Some(list[idx]),
                None => None,
            };
            let ghost now = out.rows();
            out.push_row(file, &file.chunks[idx], embedding);
            proof {
                assert(embedding == embedding_at(*file, idx as int));
                assert(out.rows() == now.push(all[idx as int]));
                assert(before + all.take(idx + 1) =~= now.push(all[idx as int]));
            }
        }
        proof {
            assert(all.take(all.len() as int) =~= all);
        }
    }
    proof {
        assert(batch@.take(batch@.len() as int) =~= batch@);
    }
    Ok(out)
}

/// How many chunks the files have together.
pub open spec fn chunk_total<E>(files: Seq<PreparedFile<E>>) -> nat
    decreases files.len(),
{
    if files.len() == 0 {
        0
    } else {
        chunk_total(files.drop_last()) + files.last().chunks@.len()
    }
}

/// There is one row for each chunk of each file.
pub proof fn one_row_per_chunk<E>(files: Seq<PreparedFile<E>>)
    ensures
        rows_of(files).len() == chunk_total(files),
    decreases files.len(),
{
    if files.len() > 0 {
        one_row_per_chunk(files.drop_last());
    }
}

/// Each row is that of a chunk of one of the files.
pub proof fn every_row_has_its_file<E>(files: Seq<PreparedFile<E>>, r: int) -> (at: (int, int))
    requires
        0 <= r < rows_of(files).len(),
    ensures
        0 <= at.0 < files.len(),
        0 <= at.1 < files[at.0].chunks@.len(),
        rows_of(files)[r] == row_of(
            files[at.0],
            files[at.0].chunks@[at.1],
            embedding_at(files[at.0], at.1),
        ),
    decreases files.len(),
{
    let front = rows_of(files.drop_last());
    if r < front.len() {
        every_row_has_its_file(files.drop_last(), r)
    } else {
        let last = files.len() - 1;
        let i = r - front.len();
        assert(rows_of(files)[r] == rows_of_file(files.last())[i]);
        (last, i)
    }
}

/// Where embeddings are off no row has one; where they are on every row has.
pub proof fn embeddings_are_all_or_none<E>(files: Seq<PreparedFile<E>>)
    ensures
        (forall|k: int| 0 <= k < files.len() ==> (#[trigger] files[k]).embeddings is None) ==> (
        forall|r: int|
            0 <= r < rows_of(files).len() ==> (#[trigger] rows_of(files)[r]).embedding is None),
        (forall|k: int| 0 <= k < files.len() ==> (#[trigger] files[k]).embeddings is Some) ==> (
        forall|r: int|
            0 <= r < rows_of(files).len() ==> (#[trigger] rows_of(files)[r]).embedding is Some),
{
    assert forall|r: int| 0 <= r < rows_of(files).len() implies exists|k: int|
        0 <= k < files.len() && ((#[trigger] rows_of(files)[r]).embedding is Some) == ((
        #[trigger] files[k]).embeddings is Some) by {
        let at = every_row_has_its_file(files, r);
        assert((rows_of(files)[r].embedding is Some) == (files[at.0].embeddings is Some));
    }
}

/// What is written to the store for a batch of files.
#[derive(Debug)]
pub struct BatchPlan<E> {
    /// The corpus that all the files belong to.
    pub corpus: String,
    /// The files' references.
    pub refs: Vec<String>,
    /// The rows to write.
    pub rows: RecordBatch<E>,
    /// Which rows that are not among them are old rows of these files and go.
    pub scope: String,
}

/// The message for files of more than one corpus.
pub const MIXED_CORPORA: &'static str =
    "apply_batch: all PreparedFiles in a batch must share the same corpus";

/// The files' references.
pub open spec fn file_refs<E>(files: Seq<PreparedFile<E>>) -> Seq<Seq<char>> {
    Seq::new(files.len(), |i: int| files[i].file_ref@)
}

/// Whether the files belong to one corpus.
pub open spec fn one_corpus<E>(files: Seq<PreparedFile<E>>) -> bool {
    forall|i: int| 0 <= i < files.len() ==> (#[trigger] files[i]).corpus@ == files[0].corpus@
}

/// Whether the plan writes the rows of the files, and lets go of the rows of these
/// files in their corpus and no others.
pub open spec fn is_plan_for<E>(plan: BatchPlan<E>, files: Seq<PreparedFile<E>>) -> bool {
    &&& plan.corpus@ == files[0].corpus@
    &&& views(plan.refs@) == file_refs(files)
    &&& plan.rows.well_formed()
    &&& plan.rows.rows() == rows_of(files)
    &&& plan.scope@ == corpus_and_file_ref_in(files[0].corpus@, file_refs(files))
}

/// What is written to the store for a batch of files: nothing for none.  The
/// files must belong to one corpus, since the rows that go are chosen within
/// it.
pub fn plan_batch<E: Copy>(batch: &Vec<PreparedFile<E>>) -> (out: Outcome<Option<BatchPlan<E>>>)
    ensures
        batch@.len() == 0 ==> out matches Ok(None),
        batch@.len() > 0 && !one_corpus(batch@) ==> is_indexer_error(out, MIXED_CORPORA@),
        batch@.len() > 0 && one_corpus(batch@) ==> match files_fault(batch@) {
            Some(fault) => is_indexer_error(out, fault),
            None => out matches Ok(Some(plan)) && is_plan_for(plan, batch@),
        },
{
    if batch.len() == 0 {
        return Ok(None);
    }
    let mut refs: Vec<String> = Vec::new();
    for i in 0..batch.len()
        invariant
            batch.len() > 0,
            views(refs@) == file_refs(batch@).take(i as int),
            forall|j: int| 0 <= j < i ==> (#[trigger] batch@[j]).corpus@ == batch@[0].corpus@,
    {
        if !same(batch[i].corpus.as_str(), batch[0].corpus.as_str()) {
            return Err(HallouminateError::Indexer(owned(MIXED_CORPORA)));
        }
        let ghost before = views(refs@);
        refs.push(batch[i].file_ref.clone());
        proof {
            let all = file_refs(batch@);
            assert(views(refs@) =~= before.push(all[i as int]));
            assert(all.take(i + 1) =~= before.push(all[i as int]));
        }
    }
    proof {
        let all = file_refs(batch@);
        assert(all.take(all.len() as int) =~= all);
    }
    let rows = match build_record_batch(batch) {
        Ok(rows) => rows,
        Err(e) => {
            return Err(e);
        },
    };
    let corpus = batch[0].corpus.clone();
    let scope = corpus_and_file_ref_filter(corpus.as_str(), &refs);
    Ok(Some(BatchPlan { corpus, refs, rows, scope }))
}

/// Every row that is written belongs to the corpus and to one of the files that
/// the scope names, so that no row outside the scope is touched.
pub proof fn planned_rows_stay_in_scope<E>(files: Seq<PreparedFile<E>>, r: int)
    requires
        one_corpus(files),
        0 <= r < rows_of(files).len(),
    ensures
        rows_of(files)[r].corpus == files[0].corpus@,
        file_refs(files).contains(rows_of(files)[r].file_ref),
{
    let at = every_row_has_its_file(files, r);
    assert(file_refs(files)[at.0] == rows_of(files)[r].file_ref);
    assert(files[at.0].corpus@ == files[0].corpus@);
}

/// The values of a column that a query returned.
#[derive(Debug)]
pub enum ColumnValues {
    Utf8(Vec<Option<String>>),
    Int64(Vec<i64>),
    ListUtf8(Vec<Vec<String>>),
    /// Values of a type that no text, number or list is read from.
    Other,
}

/// A column that a query returned.
#[derive(Debug)]
pub struct ReturnedColumn {
    pub name: String,
    pub values: ColumnValues,
}

/// The rows that a query returned.
#[derive(Debug)]
pub struct Returned {
    pub num_rows: usize,
    pub columns: Vec<ReturnedColumn>,
}

impl Returned {
    /// Whether each column has a value for each row.
    pub open spec fn well_formed(&self) -> bool {
        forall|i: int| 0 <= i < self.columns@.len() ==> match (#[trigger] self.columns@[i]).values {
            ColumnValues::Utf8(list) => list@.len() == self.num_rows,
            ColumnValues::Int64(list) => list@.len() == self.num_rows,
            ColumnValues::ListUtf8(list) => list@.len() == self.num_rows,
            ColumnValues::Other => true,
        }
    }

    /// Where the column of that name stands.
    pub open spec fn position(&self, name: Seq<char>, from: int) -> Option<int>
        decreases self.columns@.len() - from,
    {
        if from < 0 || from >= self.columns@.len() {
            None
        } else if self.columns@[from].name@ == name {
            Some(from)
        } else {
            self.position(name, from + 1)
        }
    }

    /// The values of the column of that name.
    pub open spec fn column(&self, name: Seq<char>) -> Option<ColumnValues> {
        match self.position(name, 0) {
            Some(i) => Some(self.columns@[i].values),
            None => None,
        }
    }

    fn find(&self, name: &str) -> (out: Option<usize>)
        ensures
            out matches Some(i) ==> i < self.columns@.len() && self.position(name@, 0) == Some(
                i as int,
            ),
            out is None ==> self.position(name@, 0) is None,
    {
        for i in 0..self.columns.len()
            invariant
                self.position(name@, 0) == self.position(name@, i as int),
        {
            if same(self.columns[i].name.as_str(), name) {
                return Some(i);
            }
        }
        None
    }
}

impl Returned {
    /// Where the column stands that holds the scores of the rows, if there is one:
    /// that of the fused lists, else that of the one list that was searched.
    pub open spec fn scored_at(&self) -> Option<int> {
        match self.position("_relevance_score"@, 0) {
            Some(i) => Some(i),
            None => self.position("_score"@, 0),
        }
    }

    /// Where the column stands that holds the scores of the rows, if there is one.
    pub fn score_column(&self) -> (out: Option<usize>)
        ensures
            out matches Some(i) ==> i < self.columns@.len() && self.scored_at() == Some(i as int),
            out is None ==> self.scored_at() is None,
    {
        match self.find("_relevance_score") {
            Some(i) => Some(i),
            None => self.find("_score"),
        }
    }
}

/// The message for a column that was not returned.
pub open spec fn missing_column(name: Seq<char>) -> Seq<char> {
    "missing column "@ + name
}

/// What keeps a text column from being read, if anything.
pub open spec fn text_fault(batch: Returned, name: Seq<char>) -> Option<Seq<char>> {
    match batch.column(name) {
        None => Some(missing_column(name)),
        Some(ColumnValues::Utf8(_)) => None,
        Some(_) => Some(name + " not utf8"@),
    }
}

/// What keeps a number column from being read, if anything.
pub open spec fn number_fault(batch: Returned, name: Seq<char>) -> Option<Seq<char>> {
    match batch.column(name) {
        None => Some(missing_column(name)),
        Some(ColumnValues::Int64(_)) => None,
        Some(_) => Some(name + " not int64"@),
    }
}

/// What keeps a list column from being read, if anything.
pub open spec fn list_fault(batch: Returned, name: Seq<char>) -> Option<Seq<char>> {
    match batch.column(name) {
        None => Some(missing_column(name)),
        Some(ColumnValues::ListUtf8(_)) => None,
        Some(_) => Some(name + " not list"@),
    }
}

/// The text at `i`; the empty one where there is none.
pub open spec fn text_at(batch: Returned, name: Seq<char>, i: int) -> Seq<char> {
    match batch.column(name) {
        Some(ColumnValues::Utf8(list)) => match list@[i] {
            Some(t) => t@,
            None => Seq::empty(),
        },
        _ => Seq::empty(),
    }
}

/// The text at `i`, where there is one.
pub open spec fn maybe_text_at(batch: Returned, name: Seq<char>, i: int) -> Option<Seq<char>> {
    match batch.column(name) {
        Some(ColumnValues::Utf8(list)) => opt_view(list@[i]),
        _ => None,
    }
}

/// The number at `i`.
pub open spec fn number_at(batch: Returned, name: Seq<char>, i: int) -> i64 {
    match batch.column(name) {
        Some(ColumnValues::Int64(list)) => list@[i],
        _ => 0i64,
    }
}

/// The list at `i`.
pub open spec fn list_at(batch: Returned, name: Seq<char>, i: int) -> Seq<Seq<char>> {
    match batch.column(name) {
        Some(ColumnValues::ListUtf8(list)) => views(list@[i]@),
        _ => Seq::empty(),
    }
}

/// The first of two faults.
pub open spec fn or_fault(first: Option<Seq<char>>, then: Option<Seq<char>>) -> Option<Seq<char>> {
    match first {
        Some(fault) => Some(fault),
        None => then,
    }
}

/// The texts of the named column.
pub fn string_col<'a>(batch: &'a Returned, name: &str) -> (out: Outcome<&'a Vec<Option<String>>>)
    ensures
        match text_fault(*batch, name@) {
            Some(fault) => is_indexer_error(out, fault),
            None => out matches Ok(list) && batch.column(name@) == Some(ColumnValues::Utf8(*list)),
        },
        batch.well_formed() ==> (out matches Ok(list) ==> list@.len() == batch.num_rows),
{
    match batch.find(name) {
        None => Err(HallouminateError::Indexer(cat2("missing column ", name))),
        Some(i) => match &batch.columns[i].values {
            ColumnValues::Utf8(list) => Ok(list),
            _ => Err(HallouminateError::Indexer(cat2(name, " not utf8"))),
        },
    }
}

/// The numbers of the named column.
pub fn int64_col<'a>(batch: &'a Returned, name: &str) -> (out: Outcome<&'a Vec<i64>>)
    ensures
        match number_fault(*batch, name@) {
            Some(fault) => is_indexer_error(out, fault),
            None => out matches Ok(list) && batch.column(name@) == Some(ColumnValues::Int64(*list)),
        },
        batch.well_formed() ==> (out matches Ok(list) ==> list@.len() == batch.num_rows),
{
    match batch.find(name) {
        None => Err(HallouminateError::Indexer(cat2("missing column ", name))),
        Some(i) => match &batch.columns[i].values {
            ColumnValues::Int64(list) => Ok(list),
            _ => Err(HallouminateError::Indexer(cat2(name, " not int64"))),
        },
    }
}

/// The lists of the named column.
pub fn list_utf8_col<'a>(batch: &'a Returned, name: &str) -> (out: Outcome<&'a Vec<Vec<String>>>)
    ensures
        match list_fault(*batch, name@) {
            Some(fault) => is_indexer_error(out, fault),
            None => out matches Ok(list) && batch.column(name@) == Some(
                ColumnValues::ListUtf8(*list),
            ),
        },
        batch.well_formed() ==> (out matches Ok(list) ==> list@.len() == batch.num_rows),
{
    match batch.find(name) {
        None => Err(HallouminateError::Indexer(cat2("missing column ", name))),
        Some(i) => match &batch.columns[i].values {
            ColumnValues::ListUtf8(list) => Ok(list),
            _ => Err(HallouminateError::Indexer(cat2(name, " not list"))),
        },
    }
}

fn text_or_empty(cell: &Option<String>) -> (out: String)
    ensures
        out@ == (match *cell {
            Some(t) => t@,
            None => Seq::empty(),
        }),
{
    match cell {
        Some(t) => t.clone(),
        None => String::new(),
    }
}

/// One row that a search found, but for its score.
#[derive(Debug)]
pub struct ChunkHit {
    pub chunk_id: String,
    pub file_ref: String,
    pub heading_path: Vec<String>,
    pub line_start: usize,
    pub line_end: usize,
    pub text: String,
    pub summary: String,
    pub keywords: Vec<String>,
    pub mtime_ms: i64,
    /// The marks of the chunk, as JSON; none where it has none.
    pub claim_marks: Option<String>,
}

/// What keeps the rows from being read as hits, if anything.  Where there are
/// no rows, nothing does, whatever columns were returned.
pub open spec fn hits_fault(batch: Returned) -> Option<Seq<char>> {
    if batch.num_rows == 0 {
        None
    } else {
        or_fault(
            text_fault(batch, "chunk_id"@),
            or_fault(
                text_fault(batch, "file_ref"@),
                or_fault(
                    text_fault(batch, "summary"@),
                    or_fault(
                        text_fault(batch, "text"@),
                        or_fault(
                            number_fault(batch, "line_start"@),
                            or_fault(
                                number_fault(batch, "line_end"@),
                                or_fault(
                                    number_fault(batch, "mtime_ms"@),
                                    or_fault(
                                        list_fault(batch, "heading_path"@),
                                        or_fault(
                                            list_fault(batch, "keywords"@),
                                            text_fault(batch, "claim_marks"@),
                                        ),
                                    ),
                                ),
                            ),
                        ),
                    ),
                ),
            ),
        )
    }
}

/// Whether the hit is the row at `i`.
pub open spec fn is_hit_at(batch: Returned, i: int, hit: ChunkHit) -> bool {
    &&& hit.chunk_id@ == text_at(batch, "chunk_id"@, i)
    &&& hit.file_ref@ == text_at(batch, "file_ref"@, i)
    &&& views(hit.heading_path@) == list_at(batch, "heading_path"@, i)
    &&& hit.line_start == number_at(batch, "line_start"@, i) as usize
    &&& hit.line_end == number_at(batch, "line_end"@, i) as usize
    &&& hit.text@ == text_at(batch, "text"@, i)
    &&& hit.summary@ == text_at(batch, "summary"@, i)
    &&& views(hit.keywords@) == list_at(batch, "keywords"@, i)
    &&& hit.mtime_ms == number_at(batch, "mtime_ms"@, i)
    &&& opt_view(hit.claim_marks) == maybe_text_at(batch, "claim_marks"@, i)
}

/// The marks on the claims of a chunk, from what the decoder of its cell
/// returned: none where the cell is empty, and none where it cannot be decoded,
/// so that a damaged cell does not stop a search.
pub fn decode_claim_marks<M>(decoded: Option<Result<Vec<M>, String>>) -> (out: Vec<M>)
    ensures
        match decoded {
            Some(Ok(marks)) => out == marks,
            _ => out@.len() == 0,
        },
{
    match decoded {
        Some(Ok(marks)) => marks,
        _ => Vec::new(),
    }
}

/// The rows that a search returned, as hits, in their order.  A column that
/// was not returned, or is of another type, is an error unless there are no
/// rows.
pub fn decode_hits(batch: &Returned) -> (out: Outcome<Vec<ChunkHit>>)
    requires
        batch.well_formed(),
    ensures
        match hits_fault(*batch) {
            Some(fault) => is_indexer_error(out, fault),
            None => out matches Ok(hits) && hits@.len() == batch.num_rows && forall|i: int|
                0 <= i < batch.num_rows ==> is_hit_at(*batch, i, #[trigger] hits@[i]),
        },
{
    let mut hits: Vec<ChunkHit> = Vec::new();
    if batch.num_rows == 0 {
        return Ok(hits);
    }
    let chunk_id = match string_col(batch, "chunk_id") {
        Ok(list) => list,
        Err(e) => {
            return Err(e);
        },
    };
    let file_ref = match string_col(batch, "file_ref") {
        Ok(list) => list,
        Err(e) => {
            return Err(e);
        },
    };
    let summary = match string_col(batch, "summary") {
        Ok(list) => list,
        Err(e) => {
            return Err(e);
        },
    };
    let text = match string_col(batch, "text") {
        Ok(list) => list,
        Err(e) => {
            return Err(e);
        },
    };
    let line_start = match int64_col(batch, "line_start") {
        Ok(list) => list,
        Err(e) => {
            return Err(e);
        },
    };
    let line_end = match int64_col(batch, "line_end") {
        Ok(list) => list,
        Err(e) => {
            return Err(e);
        },
    };
    let mtime_ms = match int64_col(batch, "mtime_ms") {
        Ok(list) => list,
        Err(e) => {
            return Err(e);
        },
    };
    let heading_path = match list_utf8_col(batch, "heading_path") {
        Ok(list) => list,
        Err(e) => {
            return Err(e);
        },
    };
    let keywords = match list_utf8_col(batch, "keywords") {
        Ok(list) => list,
        Err(e) => {
            return Err(e);
        },
    };
    let claim_marks = match string_col(batch, "claim_marks") {
        Ok(list) => list,
        Err(e) => {
            return Err(e);
        },
    };
    for i in 0..batch.num_rows
        invariant
            chunk_id@.len() == batch.num_rows,
            file_ref@.len() == batch.num_rows,
            summary@.len() == batch.num_rows,
            text@.len() == batch.num_rows,
            line_start@.len() == batch.num_rows,
            line_end@.len() == batch.num_rows,
            mtime_ms@.len() == batch.num_rows,
            heading_path@.len() == batch.num_rows,
            keywords@.len() == batch.num_rows,
            claim_marks@.len() == batch.num_rows,
            batch.column("chunk_id"@) == Some(ColumnValues::Utf8(*chunk_id)),
            batch.column("file_ref"@) == Some(ColumnValues::Utf8(*file_ref)),
            batch.column("summary"@) == Some(ColumnValues::Utf8(*summary)),
            batch.column("text"@) == Some(ColumnValues::Utf8(*text)),
            batch.column("line_start"@) == Some(ColumnValues::Int64(*line_start)),
            batch.column("line_end"@) == Some(ColumnValues::Int64(*line_end)),
            batch.column("mtime_ms"@) == Some(ColumnValues::Int64(*mtime_ms)),
            batch.column("heading_path"@) == Some(ColumnValues::ListUtf8(*heading_path)),
            batch.column("keywords"@) == Some(ColumnValues::ListUtf8(*keywords)),
            batch.column("claim_marks"@) == Some(ColumnValues::Utf8(*claim_marks)),
            hits@.len() == i,
            forall|j: int| 0 <= j < i ==> is_hit_at(*batch, j, #[trigger] hits@[j]),
    {
        hits.push(
            ChunkHit {
                chunk_id: text_or_empty(&chunk_id[i]),
                file_ref: text_or_empty(&file_ref[i]),
                heading_path: copy_list(&heading_path[i]),
                line_start: line_start[i] as usize,
                line_end: line_end[i] as usize,
                text: text_or_empty(&text[i]),
                summary: text_or_empty(&summary[i]),
                keywords: copy_list(&keywords[i]),
                mtime_ms: mtime_ms[i],
                claim_marks: copy_opt(&claim_marks[i]),
            },
        );
    }
    Ok(hits)
}

/// What the store knows of a file that it has indexed.
#[derive(Debug, Clone, PartialEq, Eq)]
pub struct FileSnapshot {
    pub file_ref: String,
    pub corpus: String,
    pub mtime_ms: i64,
    pub content_hash: String,
}

/// What keeps the rows from being read as snapshots, if anything.
pub open spec fn snapshot_fault(batch: Returned) -> Option<Seq<char>> {
    or_fault(
        text_fault(batch, "file_ref"@),
        or_fault(
            text_fault(batch, "corpus"@),
            or_fault(number_fault(batch, "mtime_ms"@), text_fault(batch, "content_hash"@)),
        ),
    )
}

/// Whether the snapshot is the row at `i`.
pub open spec fn is_snapshot_at(batch: Returned, i: int, snap: FileSnapshot) -> bool {
    &&& snap.file_ref@ == text_at(batch, "file_ref"@, i)
    &&& snap.corpus@ == text_at(batch, "corpus"@, i)
    &&& snap.mtime_ms == number_at(batch, "mtime_ms"@, i)
    &&& snap.content_hash@ == text_at(batch, "content_hash"@, i)
}

/// The rows that a query returned, as snapshots, in their order.
pub fn decode_snapshots(batch: &Returned) -> (out: Outcome<Vec<FileSnapshot>>)
    requires
        batch.well_formed(),
    ensures
        match snapshot_fault(*batch) {
            Some(fault) => is_indexer_error(out, fault),
            None => out matches Ok(list) && list@.len() == batch.num_rows && forall|i: int|
                0 <= i < batch.num_rows ==> is_snapshot_at(*batch, i, #[trigger] list@[i]),
        },
{
    let file_ref = match string_col(batch, "file_ref") {
        Ok(list) => list,
        Err(e) => {
            return Err(e);
        },
    };
    let corpus = match string_col(batch, "corpus") {
        Ok(list) => list,
        Err(e) => {
            return Err(e);
        },
    };
    let mtime_ms = match int64_col(batch, "mtime_ms") {
        Ok(list) => list,
        Err(e) => {
            return Err(e);
        },
    };
    let content_hash = match string_col(batch, "content_hash") {
        Ok(list) => list,
        Err(e) => {
            return Err(e);
        },
    };
    let mut out: Vec<FileSnapshot> = Vec::new();
    for i in 0..batch.num_rows
        invariant
            file_ref@.len() == batch.num_rows,
            corpus@.len() == batch.num_rows,
            mtime_ms@.len() == batch.num_rows,
            content_hash@.len() == batch.num_rows,
            batch.column("file_ref"@) == Some(ColumnValues::Utf8(*file_ref)),
            batch.column("corpus"@) == Some(ColumnValues::Utf8(*corpus)),
            batch.column("mtime_ms"@) == Some(ColumnValues::Int64(*mtime_ms)),
            batch.column("content_hash"@) == Some(ColumnValues::Utf8(*content_hash)),
            out@.len() == i,
            forall|j: int| 0 <= j < i ==> is_snapshot_at(*batch, j, #[trigger] out@[j]),
    {
        out.push(
            FileSnapshot {
                file_ref: text_or_empty(&file_ref[i]),
                corpus: text_or_empty(&corpus[i]),
                mtime_ms: mtime_ms[i],
                content_hash: text_or_empty(&content_hash[i]),
            },
        );
    }
    Ok(out)
}

/// The first of the batches that holds a row.
pub open spec fn first_with_rows(batches: Seq<Returned>, from: int) -> Option<int>
    decreases batches.len() - from,
{
    if from < 0 || from >= batches.len() {
        None
    } else if batches[from].num_rows > 0 {
        Some(from)
    } else {
        first_with_rows(batches, from + 1)
    }
}

/// The snapshot of the one file that was asked for, if it was ever indexed.
pub fn first_snapshot(batches: &Vec<Returned>) -> (out: Outcome<Option<FileSnapshot>>)
    requires
        forall|i: int| 0 <= i < batches@.len() ==> (#[trigger] batches@[i]).well_formed(),
    ensures
        match first_with_rows(batches@, 0) {
            None => out matches Ok(None),
            Some(i) => match snapshot_fault(batches@[i]) {
                Some(fault) => is_indexer_error(out, fault),
                None => out matches Ok(Some(snap)) && is_snapshot_at(batches@[i], 0, snap),
            },
        },
{
    for i in 0..batches.len()
        invariant
            forall|j: int| 0 <= j < batches@.len() ==> (#[trigger] batches@[j]).well_formed(),
            first_with_rows(batches@, 0) == first_with_rows(batches@, i as int),
    {
        if batches[i].num_rows > 0 {
            return match decode_snapshots(&batches[i]) {
                Ok(list) => {
                    let mut found = list;
                    proof {
                        assert(is_snapshot_at(batches@[i as int], 0, found@[0]));
                    }
                    let first = found.remove(0);
                    Ok(Some(first))
                },
                Err(e) => Err(e),
            };
        }
    }
    Ok(None)
}

/// Fails where the embedding of a query is not as long as those of the store.
pub fn check_query_dim(len: usize) -> (out: Outcome<()>)
    ensures
        len == EMBEDDING_DIM ==> out is Ok,
        len != EMBEDDING_DIM ==> (out matches Err(HallouminateError::Embed(m)) && m@
            == "query vector dim mismatch: got "@ + decimal(len as nat) + ", expected "@ + decimal(
            EMBEDDING_DIM as nat,
        )),
{
    if len != EMBEDDING_DIM {
        return Err(
            HallouminateError::Embed(
                cat4(
                    "query vector dim mismatch: got ",
                    decimal_text(len as u64).as_str(),
                    ", expected ",
                    decimal_text(EMBEDDING_DIM as u64).as_str(),
                ),
            ),
        );
    }
    Ok(())
}

/// The rows that a search of the corpus may return; nothing where the store
/// holds no rows or its text index is not built yet, since it cannot be
/// searched then.
pub fn search_scope(corpus: &str, rows: u64, has_text_index: bool) -> (out: Option<String>)
    ensures
        (rows == 0 || !has_text_index) ==> out is None,
        (rows > 0 && has_text_index) ==> (out matches Some(filter) && filter@ == of_corpus(
            corpus@,
        )),
{
    if rows == 0 || !has_text_index {
        None
    } else {
        Some(corpus_filter(corpus))
    }
}

/// What is done to have the table.
#[derive(Debug, Clone, Copy, PartialEq, Eq, Structural)]
pub enum TableAction {
    Open,
    Create,
}

/// What is done to have the table: it is opened where the store has it.
pub fn open_or_create_table(names: &Vec<String>) -> (out: TableAction)
    ensures
        out == if views(names@).contains(TABLE_NAME@) {
            TableAction::Open
        } else {
            TableAction::Create
        },
{
    for i in 0..names.len()
        invariant
            forall|j: int| 0 <= j < i ==> views(names@)[j] != TABLE_NAME@,
    {
        if same(names[i].as_str(), TABLE_NAME) {
            proof {
                assert(views(names@)[i as int] == TABLE_NAME@);
            }
            return TableAction::Open;
        }
    }
    TableAction::Create
}

/// The message for a failure of the store.
pub fn map_lance_err(detail: &str) -> (out: HallouminateError)
    ensures
        out matches HallouminateError::Db(m) && m@ == "lance: "@ + detail@,
{
    HallouminateError::Db(cat2("lance: ", detail))
}

/// The files before file `k` have so many rows that those of file `k` begin there.
proof fn rows_of_a_file_begin_behind<E>(files: Seq<PreparedFile<E>>, k: int, c: int)
    requires
        0 <= k < files.len(),
        0 <= c < files[k].chunks@.len(),
    ensures
        0 <= chunk_total(files.take(k)) + c < rows_of(files).len(),
        rows_of(files)[chunk_total(files.take(k)) + c] == rows_of_file(files[k])[c],
    decreases files.len(),
{
    let front = files.drop_last();
    one_row_per_chunk(files);
    one_row_per_chunk(front);
    if k == files.len() - 1 {
        assert(files.take(k) =~= front);
    } else {
        rows_of_a_file_begin_behind(front, k, c);
        assert(front.take(k) =~= files.take(k));
        assert(front[k] == files[k]);
    }
}

/// What is written for chunk `c` of file `k` is that chunk and what is known of
/// that file: its own text, its own place, its own embedding.  The rows stand in
/// the order of the files, and of the chunks within a file, and there are no
/// others.
pub proof fn each_chunk_has_its_own_row<E>(
    rows: RecordBatch<E>,
    files: Seq<PreparedFile<E>>,
    k: int,
    c: int,
)
    requires
        rows.well_formed(),
        rows.rows() == rows_of(files),
        0 <= k < files.len(),
        0 <= c < files[k].chunks@.len(),
    ensures
        rows.chunk_id@.len() == chunk_total(files),
        ({
            let r = chunk_total(files.take(k)) + c;
            let file = files[k];
            let chunk = files[k].chunks@[c];
            &&& 0 <= r < rows.chunk_id@.len()
            &&& rows.chunk_id@[r]@ == hex(
                blake3_digest(encode_utf8(file.file_ref@ + seq!['#'] + decimal(chunk.ord as nat))),
            ).take(32)
            &&& rows.file_ref@[r]@ == file.file_ref@
            &&& rows.corpus@[r]@ == file.corpus@
            &&& rows.mtime_ms@[r] == file.mtime_ms
            &&& rows.content_hash@[r]@ == file.content_hash@
            &&& rows.summary@[r]@ == file.summary@
            &&& views(rows.keywords@[r]@) == views(file.keywords@)
            &&& opt_view(rows.frontmatter@[r]) == opt_view(file.frontmatter)
            &&& rows.indexed_at_ms@[r] == file.indexed_at_ms
            &&& rows.ord@[r] == chunk.ord as i64
            &&& views(rows.heading_path@[r]@) == views(chunk.heading_path@)
            &&& rows.line_start@[r] == chunk.line_start as i64
            &&& rows.line_end@[r] == chunk.line_end as i64
            &&& rows.text@[r]@ == chunk.text@
            &&& opt_view(rows.claim_marks@[r]) == opt_view(chunk.claim_marks)
            &&& file.embeddings matches Some(list) ==> rows.embedding@[r] == Some(list@[c])
            &&& file.embeddings is None ==> rows.embedding@[r] is None
        }),
{
    rows_of_a_file_begin_behind(files, k, c);
    one_row_per_chunk(files);
    let r = chunk_total(files.take(k)) + c;
    assert(rows.rows()[r] == rows.row(r));
}

/// The files can be written exactly when each of them has as many embeddings as
/// chunks, or none at all.
pub proof fn files_with_all_embeddings_are_written<E>(files: Seq<PreparedFile<E>>)
    ensures
        files_fault(files) is None <==> forall|k: int|
            0 <= k < files.len() ==> ((#[trigger] files[k]).embeddings matches Some(list)
                ==> list@.len() == files[k].chunks@.len()),
    decreases files.len(),
{
    if files.len() > 0 {
        let front = files.drop_last();
        files_with_all_embeddings_are_written(front);
        if files_fault(files) is None {
            assert forall|k: int| 0 <= k < files.len() implies ((
            #[trigger] files[k]).embeddings matches Some(list) ==> list@.len()
                == files[k].chunks@.len()) by {
                if k < front.len() {
                    assert(front[k] == files[k]);
                }
            }
        } else if forall|k: int|
            0 <= k < files.len() ==> ((#[trigger] files[k]).embeddings matches Some(list)
                ==> list@.len() == files[k].chunks@.len()) {
            assert forall|k: int| 0 <= k < front.len() implies ((
            #[trigger] front[k]).embeddings matches Some(list) ==> list@.len()
                == front[k].chunks@.len()) by {
                assert(front[k] == files[k]);
            }
            assert(files[files.len() - 1] == files.last());
        }
    }
}

/// Whether column `c` is the first of its name.
pub open spec fn is_first_of_name(batch: Returned, c: int) -> bool {
    &&& 0 <= c < batch.columns@.len()
    &&& forall|d: int| 0 <= d < c ==> (#[trigger] batch.columns@[d]).name@ != batch.columns@[c].name@
}

proof fn first_of_name_is_the_column(batch: Returned, c: int, from: int)
    requires
        is_first_of_name(batch, c),
        0 <= from <= c,
    ensures
        batch.position(batch.columns@[c].name@, from) == Some(c),
    decreases c - from,
{
    if from < c {
        first_of_name_is_the_column(batch, c, from + 1);
    }
}

proof fn columns_are_found(batch: Returned, name: Seq<char>, from: int)
    requires
        0 <= from <= batch.columns@.len(),
    ensures
        match batch.position(name, from) {
            Some(c) => from <= c < batch.columns@.len() && batch.columns@[c].name@ == name
                && forall|d: int| from <= d < c ==> (#[trigger] batch.columns@[d]).name@ != name,
            None => forall|d: int|
                from <= d < batch.columns@.len() ==> (#[trigger] batch.columns@[d]).name@ != name,
        },
    decreases batch.columns@.len() - from,
{
    if from < batch.columns@.len() && batch.columns@[from].name@ != name {
        columns_are_found(batch, name, from + 1);
    }
}

/// The text of a cell; the empty one where it is null.
pub open spec fn cell_text(cell: Option<String>) -> Seq<char> {
    match cell {
        Some(t) => t@,
        None => Seq::empty(),
    }
}

/// Each hit of a search is made of the cells of its own row: what the first column
/// of a name holds at `i` is what hit `i` has under that name.
pub proof fn hits_hold_the_cells_of_their_row(
    batch: Returned,
    hits: Seq<ChunkHit>,
    i: int,
    c: int,
)
    requires
        hits.len() == batch.num_rows,
        forall|j: int| 0 <= j < batch.num_rows ==> is_hit_at(batch, j, #[trigger] hits[j]),
        0 <= i < batch.num_rows,
        is_first_of_name(batch, c),
    ensures
        batch.columns@[c].values matches ColumnValues::Utf8(list) ==> {
            let name = batch.columns@[c].name@;
            &&& name == "chunk_id"@ ==> hits[i].chunk_id@ == cell_text(list@[i])
            &&& name == "file_ref"@ ==> hits[i].file_ref@ == cell_text(list@[i])
            &&& name == "text"@ ==> hits[i].text@ == cell_text(list@[i])
            &&& name == "summary"@ ==> hits[i].summary@ == cell_text(list@[i])
            &&& name == "claim_marks"@ ==> opt_view(hits[i].claim_marks) == opt_view(list@[i])
        },
        batch.columns@[c].values matches ColumnValues::Int64(list) ==> {
            let name = batch.columns@[c].name@;
            &&& name == "line_start"@ ==> hits[i].line_start == list@[i] as usize
            &&& name == "line_end"@ ==> hits[i].line_end == list@[i] as usize
            &&& name == "mtime_ms"@ ==> hits[i].mtime_ms == list@[i]
        },
        batch.columns@[c].values matches ColumnValues::ListUtf8(list) ==> {
            let name = batch.columns@[c].name@;
            &&& name == "heading_path"@ ==> views(hits[i].heading_path@) == views(list@[i]@)
            &&& name == "keywords"@ ==> views(hits[i].keywords@) == views(list@[i]@)
        },
{
    first_of_name_is_the_column(batch, c, 0);
    assert(is_hit_at(batch, i, hits[i]));
}

/// Whether the first column of the name holds texts.
pub open spec fn has_texts(batch: Returned, name: Seq<char>) -> bool {
    exists|c: int|
        #[trigger] is_first_of_name(batch, c) && batch.columns@[c].name@ == name
            && batch.columns@[c].values is Utf8
}

/// Whether the first column of the name holds numbers.
pub open spec fn has_numbers(batch: Returned, name: Seq<char>) -> bool {
    exists|c: int|
        #[trigger] is_first_of_name(batch, c) && batch.columns@[c].name@ == name
            && batch.columns@[c].values is Int64
}

/// Whether the first column of the name holds lists.
pub open spec fn has_lists(batch: Returned, name: Seq<char>) -> bool {
    exists|c: int|
        #[trigger] is_first_of_name(batch, c) && batch.columns@[c].name@ == name
            && batch.columns@[c].values is ListUtf8
}

proof fn columns_can_be_read(batch: Returned, name: Seq<char>)
    ensures
        text_fault(batch, name) is None <==> has_texts(batch, name),
        number_fault(batch, name) is None <==> has_numbers(batch, name),
        list_fault(batch, name) is None <==> has_lists(batch, name),
{
    columns_are_found(batch, name, 0);
    if let Some(c) = batch.position(name, 0) {
        assert(is_first_of_name(batch, c));
        assert forall|d: int| #[trigger]
            is_first_of_name(batch, d) && batch.columns@[d].name@ == name implies d == c by {
            if d < c {
                assert(batch.columns@[d].name@ != name);
            }
            if c < d {
                assert(batch.columns@[c].name@ != batch.columns@[d].name@);
            }
        }
    }
}

/// What a search returned is read exactly where there are no rows, or every column
/// that a hit is made of is there and holds what it should.
pub proof fn searches_are_read_where_all_columns_are_there(batch: Returned)
    ensures
        hits_fault(batch) is None <==> batch.num_rows == 0 || {
            &&& has_texts(batch, "chunk_id"@)
            &&& has_texts(batch, "file_ref"@)
            &&& has_texts(batch, "summary"@)
            &&& has_texts(batch, "text"@)
            &&& has_texts(batch, "claim_marks"@)
            &&& has_numbers(batch, "line_start"@)
            &&& has_numbers(batch, "line_end"@)
            &&& has_numbers(batch, "mtime_ms"@)
            &&& has_lists(batch, "heading_path"@)
            &&& has_lists(batch, "keywords"@)
        },
{
    columns_can_be_read(batch, "chunk_id"@);
    columns_can_be_read(batch, "file_ref"@);
    columns_can_be_read(batch, "summary"@);
    columns_can_be_read(batch, "text"@);
    columns_can_be_read(batch, "claim_marks"@);
    columns_can_be_read(batch, "line_start"@);
    columns_can_be_read(batch, "line_end"@);
    columns_can_be_read(batch, "mtime_ms"@);
    columns_can_be_read(batch, "heading_path"@);
    columns_can_be_read(batch, "keywords"@);
}

/// Snapshots are made of the cells of their own row.
pub proof fn snapshots_hold_the_cells_of_their_row(
    batch: Returned,
    snap: FileSnapshot,
    i: int,
    c: int,
)
    requires
        is_snapshot_at(batch, i, snap),
        is_first_of_name(batch, c),
    ensures
        batch.columns@[c].values matches ColumnValues::Utf8(list) ==> {
            let name = batch.columns@[c].name@;
            &&& name == "file_ref"@ ==> snap.file_ref@ == cell_text(list@[i])
            &&& name == "corpus"@ ==> snap.corpus@ == cell_text(list@[i])
            &&& name == "content_hash"@ ==> snap.content_hash@ == cell_text(list@[i])
        },
        batch.columns@[c].values matches ColumnValues::Int64(list) ==> {
            batch.columns@[c].name@ == "mtime_ms"@ ==> snap.mtime_ms == list@[i]
        },
{
    first_of_name_is_the_column(batch, c, 0);
}

/// Snapshots are read exactly where every column that they are made of is there
/// and holds what it should.
pub proof fn snapshots_are_read_where_all_columns_are_there(batch: Returned)
    ensures
        snapshot_fault(batch) is None <==> {
            &&& has_texts(batch, "file_ref"@)
            &&& has_texts(batch, "corpus"@)
            &&& has_numbers(batch, "mtime_ms"@)
            &&& has_texts(batch, "content_hash"@)
        },
{
    columns_can_be_read(batch, "file_ref"@);
    columns_can_be_read(batch, "corpus"@);
    columns_can_be_read(batch, "mtime_ms"@);
    columns_can_be_read(batch, "content_hash"@);
}

/// The snapshot of a file is that of the first row that was returned: of the first
/// batch that holds any.
pub proof fn the_first_row_is_taken(batches: Seq<Returned>)
    ensures
        match first_with_rows(batches, 0) {
            Some(i) => 0 <= i < batches.len() && batches[i].num_rows > 0 && forall|j: int|
                0 <= j < i ==> (#[trigger] batches[j]).num_rows == 0,
            None => forall|j: int| 0 <= j < batches.len() ==> (#[trigger] batches[j]).num_rows == 0,
        },
{
    first_with_rows_from(batches, 0);
}

proof fn first_with_rows_from(batches: Seq<Returned>, from: int)
    requires
        0 <= from <= batches.len(),
    ensures
        match first_with_rows(batches, from) {
            Some(i) => from <= i < batches.len() && batches[i].num_rows > 0 && forall|j: int|
                from <= j < i ==> (#[trigger] batches[j]).num_rows == 0,
            None => forall|j: int|
                from <= j < batches.len() ==> (#[trigger] batches[j]).num_rows == 0,
        },
    decreases batches.len() - from,
{
    if from < batches.len() && batches[from].num_rows == 0 {
        first_with_rows_from(batches, from + 1);
    }
}

/// Whether the batch holds the texts of the rows under their name.
pub open spec fn returns_texts<E>(batch: Returned, rows: RecordBatch<E>, c: int) -> bool {
    &&& is_first_of_name(batch, c)
    &&& batch.num_rows == rows.text@.len()
    &&& batch.columns@[c].name@ == "text"@
    &&& batch.columns@[c].values matches ColumnValues::Utf8(list) && list@.len()
        == rows.text@.len() && forall|r: int|
        0 <= r < rows.text@.len() ==> #[trigger] cell_text(list@[r]) == rows.text@[r]@
}

/// What was written for a chunk is what a search finds of it: reading the rows back
/// gives each chunk its own text.
pub proof fn chunks_read_back<E>(
    files: Seq<PreparedFile<E>>,
    rows: RecordBatch<E>,
    batch: Returned,
    col: int,
    hits: Seq<ChunkHit>,
    k: int,
    c: int,
)
    requires
        rows.well_formed(),
        rows.rows() == rows_of(files),
        returns_texts(batch, rows, col),
        hits.len() == batch.num_rows,
        forall|j: int| 0 <= j < batch.num_rows ==> is_hit_at(batch, j, #[trigger] hits[j]),
        0 <= k < files.len(),
        0 <= c < files[k].chunks@.len(),
    ensures
        hits[chunk_total(files.take(k)) + c].text@ == files[k].chunks@[c].text@,
{
    each_chunk_has_its_own_row(rows, files, k, c);
    let r = chunk_total(files.take(k)) + c;
    hits_hold_the_cells_of_their_row(batch, hits, r, col);
    assert(cell_text(batch.columns@[col].values->Utf8_0@[r]) == rows.text@[r]@);
}

/// Each byte is written as two digits, the higher first, and each digit is the
/// character of its value.
pub proof fn bytes_are_written_as_two_digits(bytes: Seq<u8>, i: int)
    requires
        0 <= i < bytes.len(),
    ensures
        hex(bytes).len() == 2 * bytes.len(),
        ({
            let high = bytes[i] as int / 16;
            let low = bytes[i] as int % 16;
            &&& hex(bytes)[2 * i] as int == high + (if high < 10 {
                48int
            } else {
                87int
            })
            &&& hex(bytes)[2 * i + 1] as int == low + (if low < 10 {
                48int
            } else {
                87int
            })
        }),
    decreases bytes.len(),
{
    let front = bytes.drop_last();
    hex_shape(bytes);
    hex_shape(front);
    if i < front.len() {
        bytes_are_written_as_two_digits(front, i);
        assert(hex(bytes)[2 * i] == hex(front)[2 * i]);
        assert(hex(bytes)[2 * i + 1] == hex(front)[2 * i + 1]);
        assert(front[i] == bytes[i]);
    } else {
        assert(hex(bytes)[2 * i] == hex_char((bytes[i] / 16) as u8));
        assert(hex(bytes)[2 * i + 1] == hex_char((bytes[i] % 16) as u8));
    }
}

/// There is a row for every chunk of every file.
pub proof fn chunks_are_counted<E>(files: Seq<PreparedFile<E>>)
    ensures
        chunk_total(files) == files.fold_left(
            0int,
            |count: int, file: PreparedFile<E>| count + file.chunks@.len(),
        ),
        rows_of(files).len() == chunk_total(files),
    decreases files.len(),
{
    reveal(Seq::fold_left);
    one_row_per_chunk(files);
    if files.len() > 0 {
        chunks_are_counted(files.drop_last());
    }
}

/// A plan writes the rows of its files and lets go of what the store has of the
/// same files in the same corpus; it is one plan for one corpus.
pub proof fn plans_are_of_one_corpus_and_all_files<E>(
    plan: BatchPlan<E>,
    files: Seq<PreparedFile<E>>,
    k: int,
)
    requires
        is_plan_for(plan, files),
        one_corpus(files),
        0 <= k < files.len(),
    ensures
        plan.corpus@ == files[k].corpus@,
        plan.refs@.len() == files.len(),
        plan.refs@[k]@ == files[k].file_ref@,
        plan.rows.rows() == rows_of(files),
        plan.scope@ == corpus_and_file_ref_in(plan.corpus@, views(plan.refs@)),
{
    assert(views(plan.refs@)[k] == plan.refs@[k]@);
    assert(files[k].corpus@ == files[0].corpus@);
}

} // verus!
