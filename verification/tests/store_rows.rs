use hallouminate::error::HallouminateError;
use hallouminate::store::files::vec_to_bytes;
use hallouminate::store::indexes::{
    ensure_search_indexes, next_index_step, IndexReply, IndexStep, VECTOR_INDEX_ROWS,
};
use hallouminate::store::rows::{
    build_record_batch, check_query_dim, chunk_id_for, chunks_schema, content_hash_of,
    decode_claim_marks, decode_hits, decode_snapshots, first_snapshot, id_of_digest, map_lance_err,
    open_or_create_table, plan_batch, search_scope, ColumnKind, ColumnValues, PreparedChunk,
    PreparedFile, RecordBatch, Returned, ReturnedColumn, TableAction, EMBEDDING_DIM,
};
use hallouminate::store::sql::{
    corpus_and_file_ref_filter, escape_sql_str, file_filter, file_ref_in_filter, list_filter,
    snapshot_filter,
};

type Embedding = [f32; EMBEDDING_DIM];

#[test]
fn chunk_id_is_deterministic_for_same_file_ref_and_ord() {
    let a = chunk_id_for("/tmp/foo.md", 3);
    let b = chunk_id_for("/tmp/foo.md", 3);
    assert_eq!(a, b);
}

#[test]
fn chunk_id_differs_for_different_ord() {
    let a = chunk_id_for("/tmp/foo.md", 3);
    let b = chunk_id_for("/tmp/foo.md", 4);
    assert_ne!(a, b);
}

#[test]
fn chunk_id_differs_for_different_file_ref() {
    let a = chunk_id_for("/tmp/foo.md", 0);
    let b = chunk_id_for("/tmp/bar.md", 0);
    assert_ne!(a, b);
}

#[test]
fn chunk_id_is_32_lowercase_hex_chars() {
    let id = chunk_id_for("/tmp/whatever.md", 7);
    assert_eq!(id.len(), 32);
    assert!(id
        .chars()
        .all(|c| c.is_ascii_hexdigit() && (c.is_ascii_digit() || c.is_lowercase())));
}

#[test]
fn chunk_id_is_half_of_the_digest_of_its_key() {
    let whole = blake3::hash(b"/tmp/foo.md#12").to_hex();
    assert_eq!(chunk_id_for("/tmp/foo.md", 12), whole.as_str()[..32]);
}

#[test]
fn file_ref_in_filter_quotes_each_ref() {
    let refs = vec!["/tmp/a.md".into(), "/tmp/b.md".into()];
    let f = file_ref_in_filter(&refs);
    assert_eq!(f, "file_ref IN ('/tmp/a.md', '/tmp/b.md')");
}

#[test]
fn file_ref_in_filter_escapes_single_quotes() {
    let refs = vec!["/tmp/o'brien.md".into()];
    let f = file_ref_in_filter(&refs);
    assert_eq!(f, "file_ref IN ('/tmp/o''brien.md')");
}

#[test]
fn file_ref_in_filter_handles_empty_input() {
    let refs: Vec<String> = Vec::new();
    let f = file_ref_in_filter(&refs);
    assert_eq!(f, "file_ref IN ()");
}

#[test]
fn escape_sql_str_leaves_backslash_literal() {
    assert_eq!(escape_sql_str(r"a\b"), r"a\b");
}

#[test]
fn escape_sql_str_leaves_newline_and_tab_literal() {
    assert_eq!(escape_sql_str("line\nfeed\there"), "line\nfeed\there");
}

#[test]
fn escape_sql_str_doubles_every_single_quote_not_just_first() {
    assert_eq!(escape_sql_str("a'b'c'd"), "a''b''c''d");
}

#[test]
fn escape_sql_str_handles_already_doubled_quote_safely() {
    assert_eq!(escape_sql_str("a''b"), "a''''b");
}

#[test]
fn predicates_name_their_rows() {
    let refs = vec!["/a.md".to_string()];
    assert_eq!(
        corpus_and_file_ref_filter("d'oc", &refs),
        "corpus = 'd''oc' AND file_ref IN ('/a.md')"
    );
    assert_eq!(file_filter("docs", "/a.md"), "corpus = 'docs' AND file_ref = '/a.md'");
    assert_eq!(
        snapshot_filter("docs", "/a.md"),
        "corpus = 'docs' AND file_ref = '/a.md' AND ord = 0"
    );
    assert_eq!(list_filter("docs"), "corpus = 'docs' AND ord = 0");
}

#[test]
fn a_quote_in_a_corpus_name_stays_in_its_literal() {
    assert_eq!(
        file_filter("x' OR corpus = 'y", "/a.md"),
        "corpus = 'x'' OR corpus = ''y' AND file_ref = '/a.md'"
    );
}

#[test]
fn chunks_schema_has_all_documented_columns_in_order() {
    let schema = chunks_schema();
    let names: Vec<&str> = schema.iter().map(|f| f.name).collect();
    assert_eq!(
        names,
        vec![
            "chunk_id",
            "file_ref",
            "corpus",
            "mtime_ms",
            "content_hash",
            "summary",
            "keywords",
            "frontmatter",
            "indexed_at_ms",
            "ord",
            "heading_path",
            "line_start",
            "line_end",
            "text",
            "claim_marks",
            "embedding",
        ]
    );
}

#[test]
fn chunks_schema_embedding_column_is_fixed_size_384_f32() {
    let schema = chunks_schema();
    let embedding = schema.iter().find(|f| f.name == "embedding").unwrap();
    assert_eq!(embedding.kind, ColumnKind::Embedding);
    assert_eq!(EMBEDDING_DIM, 384);
    assert!(embedding.nullable);
}

fn synthetic_prepared(file_ref: &str, chunks: usize) -> PreparedFile<Embedding> {
    let mut embeddings = Vec::new();
    let mut pf = PreparedFile {
        file_ref: file_ref.to_string(),
        corpus: "docs".into(),
        mtime_ms: 7,
        content_hash: "deadbeef".into(),
        summary: "summary".into(),
        keywords: vec!["k1".into(), "k2".into()],
        frontmatter: None,
        indexed_at_ms: 11,
        chunks: Vec::new(),
        embeddings: None,
    };
    for i in 0..chunks {
        pf.chunks.push(PreparedChunk {
            ord: i,
            heading_path: vec!["H".into()],
            line_start: 1,
            line_end: 2,
            text: format!("chunk-{i}"),
            claim_marks: None,
        });
        embeddings.push([0.0_f32; EMBEDDING_DIM]);
    }
    pf.embeddings = Some(embeddings);
    pf
}

fn synthetic_prepared_no_embeddings(file_ref: &str, chunks: usize) -> PreparedFile<Embedding> {
    let mut pf = synthetic_prepared(file_ref, chunks);
    pf.embeddings = None;
    pf
}

#[test]
fn build_record_batch_row_count_matches_total_chunks_across_files() {
    let batch = vec![
        synthetic_prepared("/tmp/a.md", 3),
        synthetic_prepared("/tmp/b.md", 2),
    ];
    let rb = build_record_batch(&batch).expect("build batch");
    assert_eq!(rb.num_rows(), 5);
    let RecordBatch {
        chunk_id,
        file_ref,
        corpus,
        mtime_ms,
        content_hash,
        summary,
        keywords,
        frontmatter,
        indexed_at_ms,
        ord,
        heading_path,
        line_start,
        line_end,
        text,
        claim_marks,
        embedding,
    } = rb;
    let columns = [
        chunk_id.len(),
        file_ref.len(),
        corpus.len(),
        mtime_ms.len(),
        content_hash.len(),
        summary.len(),
        keywords.len(),
        frontmatter.len(),
        indexed_at_ms.len(),
        ord.len(),
        heading_path.len(),
        line_start.len(),
        line_end.len(),
        text.len(),
        claim_marks.len(),
        embedding.len(),
    ];
    assert_eq!(columns.len(), 16);
    assert!(columns.iter().all(|rows| *rows == 5), "{columns:?}");
    assert_eq!(chunks_schema().len(), columns.len());
}

#[test]
fn build_record_batch_denormalizes_file_metadata_onto_every_chunk_row() {
    let batch = vec![synthetic_prepared("/tmp/dup.md", 3)];
    let rb = build_record_batch(&batch).expect("build batch");
    for i in 0..rb.num_rows() {
        assert_eq!(rb.file_ref[i], "/tmp/dup.md");
        assert_eq!(rb.summary[i], "summary");
        assert_eq!(rb.keywords[i], vec!["k1", "k2"]);
        assert_eq!(rb.mtime_ms[i], 7);
        assert_eq!(rb.indexed_at_ms[i], 11);
        assert_eq!(rb.ord[i], i as i64);
        assert_eq!(rb.text[i], format!("chunk-{i}"));
    }
}

#[test]
fn build_record_batch_denormalizes_frontmatter_with_null_for_absent() {
    let mut with_fm = synthetic_prepared("/tmp/fm.md", 2);
    with_fm.frontmatter = Some(r#"{"status":"draft"}"#.to_string());
    let without_fm = synthetic_prepared("/tmp/plain.md", 1);
    let rb = build_record_batch(&vec![with_fm, without_fm]).expect("build batch");
    let fm = &rb.frontmatter;
    assert_eq!(fm[0].as_deref(), Some(r#"{"status":"draft"}"#));
    assert_eq!(fm[1].as_deref(), Some(r#"{"status":"draft"}"#));
    assert!(fm[2].is_none(), "absent frontmatter must be a null column value");
    assert_eq!(fm.iter().filter(|v| v.is_none()).count(), 1);
}

#[test]
fn build_record_batch_denormalizes_claim_marks_with_null_for_absent() {
    let mut pf = synthetic_prepared("/tmp/marks.md", 3);
    pf.chunks[1].claim_marks =
        Some(r#"[{"status":"confirmed","line":2,"reference":null,"note":null}]"#.to_string());
    let rb = build_record_batch(&vec![pf]).expect("build batch");
    let cm = &rb.claim_marks;
    assert!(cm[0].is_none(), "chunk 0 has no marks");
    assert_eq!(
        cm[1].as_deref(),
        Some(r#"[{"status":"confirmed","line":2,"reference":null,"note":null}]"#)
    );
    assert!(cm[2].is_none(), "chunk 2 has no marks");
    assert_eq!(cm.iter().filter(|v| v.is_none()).count(), 2);
}

#[test]
fn build_record_batch_rejects_chunk_embedding_length_mismatch() {
    let mut pf = synthetic_prepared("/tmp/bad.md", 2);
    if let Some(v) = pf.embeddings.as_mut() {
        v.pop();
    }
    let err = build_record_batch(&vec![pf]).unwrap_err();
    assert!(
        err.message().contains("chunks but 1 embeddings"),
        "got: {}",
        err.message()
    );
    assert_eq!(
        err,
        HallouminateError::Indexer(
            "prepared file \"/tmp/bad.md\": 2 chunks but 1 embeddings".to_string()
        )
    );
}

#[test]
fn build_record_batch_off_mode_writes_null_embeddings_for_every_chunk() {
    let batch = vec![synthetic_prepared_no_embeddings("/tmp/off.md", 3)];
    let rb = build_record_batch(&batch).expect("build OFF batch");
    assert_eq!(rb.num_rows(), 3);
    for i in 0..rb.num_rows() {
        assert!(rb.embedding[i].is_none(), "row {i} embedding must be null");
    }
}

#[test]
fn build_record_batch_on_mode_has_no_null_embeddings() {
    let batch = vec![synthetic_prepared("/tmp/on.md", 3)];
    let rb = build_record_batch(&batch).expect("build ON batch");
    assert_eq!(rb.embedding.len(), 3);
    assert!(rb.embedding.iter().all(|e| e.is_some()));
}

#[test]
fn build_record_batch_assigns_deterministic_chunk_ids_via_chunk_id_for() {
    let batch = vec![synthetic_prepared("/tmp/det.md", 2)];
    let rb = build_record_batch(&batch).expect("build batch");
    assert_eq!(rb.chunk_id[0], chunk_id_for("/tmp/det.md", 0));
    assert_eq!(rb.chunk_id[1], chunk_id_for("/tmp/det.md", 1));
}

#[test]
fn build_record_batch_with_empty_batch_returns_zero_row_batch() {
    let none: Vec<PreparedFile<Embedding>> = Vec::new();
    let rb = build_record_batch(&none).expect("build empty");
    assert_eq!(rb.num_rows(), 0);
}

#[test]
fn plan_batch_scopes_old_rows_to_the_corpus_and_files() {
    let batch = vec![
        synthetic_prepared("/tmp/a.md", 1),
        synthetic_prepared("/tmp/b.md", 2),
    ];
    let plan = plan_batch(&batch).expect("plan").expect("not empty");
    assert_eq!(plan.corpus, "docs");
    assert_eq!(plan.refs, vec!["/tmp/a.md", "/tmp/b.md"]);
    assert_eq!(plan.rows.num_rows(), 3);
    assert_eq!(
        plan.scope,
        "corpus = 'docs' AND file_ref IN ('/tmp/a.md', '/tmp/b.md')"
    );
}

#[test]
fn plan_batch_does_nothing_for_no_files() {
    let none: Vec<PreparedFile<Embedding>> = Vec::new();
    assert!(plan_batch(&none).expect("plan").is_none());
}

#[test]
fn plan_batch_refuses_files_of_two_corpora() {
    let mut other = synthetic_prepared("/tmp/b.md", 1);
    other.corpus = "notes".into();
    let batch = vec![synthetic_prepared("/tmp/a.md", 1), other];
    let err = plan_batch(&batch).unwrap_err();
    assert!(err.message().contains("must share the same corpus"));
}

fn hit_columns() -> Returned {
    let text = |v: &str| ColumnValues::Utf8(vec![Some(v.to_string())]);
    let column = |name: &str, values: ColumnValues| ReturnedColumn {
        name: name.to_string(),
        values,
    };
    Returned {
        num_rows: 1,
        columns: vec![
            column("chunk_id", text("id")),
            column("file_ref", text("/a.md")),
            column("summary", text("sum")),
            column("text", text("body")),
            column("line_start", ColumnValues::Int64(vec![3])),
            column("line_end", ColumnValues::Int64(vec![9])),
            column("mtime_ms", ColumnValues::Int64(vec![77])),
            column("heading_path", ColumnValues::ListUtf8(vec![vec!["H".to_string()]])),
            column("keywords", ColumnValues::ListUtf8(vec![vec!["k".to_string()]])),
            column("claim_marks", ColumnValues::Utf8(vec![None])),
        ],
    }
}

#[test]
fn decode_hits_reads_each_column() {
    let hits = decode_hits(&hit_columns()).expect("decode");
    assert_eq!(hits.len(), 1);
    assert_eq!(hits[0].chunk_id, "id");
    assert_eq!(hits[0].file_ref, "/a.md");
    assert_eq!(hits[0].summary, "sum");
    assert_eq!(hits[0].text, "body");
    assert_eq!((hits[0].line_start, hits[0].line_end), (3, 9));
    assert_eq!(hits[0].mtime_ms, 77);
    assert_eq!(hits[0].heading_path, vec!["H"]);
    assert_eq!(hits[0].keywords, vec!["k"]);
    assert_eq!(hits[0].claim_marks, None);
}

#[test]
fn decode_hits_of_no_rows_needs_no_columns() {
    let empty = Returned { num_rows: 0, columns: Vec::new() };
    assert!(decode_hits(&empty).expect("no hits").is_empty());
}

#[test]
fn decode_hits_names_the_missing_column() {
    let mut batch = hit_columns();
    batch.columns.remove(0);
    assert_eq!(decode_hits(&batch).unwrap_err().message(), "missing column chunk_id");
}

#[test]
fn decode_hits_names_the_column_of_another_type() {
    let mut batch = hit_columns();
    batch.columns[4].values = ColumnValues::Other;
    assert_eq!(decode_hits(&batch).unwrap_err().message(), "line_start not int64");
    let mut batch = hit_columns();
    batch.columns[7].values = ColumnValues::Other;
    assert_eq!(decode_hits(&batch).unwrap_err().message(), "heading_path not list");
    let mut batch = hit_columns();
    batch.columns[3].values = ColumnValues::Int64(vec![1]);
    assert_eq!(decode_hits(&batch).unwrap_err().message(), "text not utf8");
}

fn snapshot_columns(rows: usize) -> Returned {
    let texts = |v: &str| ColumnValues::Utf8(vec![Some(v.to_string()); rows]);
    let column = |name: &str, values: ColumnValues| ReturnedColumn {
        name: name.to_string(),
        values,
    };
    Returned {
        num_rows: rows,
        columns: vec![
            column("file_ref", texts("/a.md")),
            column("corpus", texts("docs")),
            column("mtime_ms", ColumnValues::Int64(vec![5; rows])),
            column("content_hash", texts("cafe")),
        ],
    }
}

#[test]
fn first_snapshot_skips_empty_batches() {
    let found = first_snapshot(&vec![snapshot_columns(0), snapshot_columns(2)])
        .expect("decode")
        .expect("indexed");
    assert_eq!(found.file_ref, "/a.md");
    assert_eq!(found.corpus, "docs");
    assert_eq!(found.mtime_ms, 5);
    assert_eq!(found.content_hash, "cafe");
    assert!(first_snapshot(&vec![snapshot_columns(0)]).expect("decode").is_none());
    assert_eq!(decode_snapshots(&snapshot_columns(2)).expect("decode").len(), 2);
}

#[test]
fn query_of_another_length_is_refused() {
    assert!(check_query_dim(384).is_ok());
    assert_eq!(
        check_query_dim(3).unwrap_err().message(),
        "query vector dim mismatch: got 3, expected 384"
    );
}

#[test]
fn search_waits_for_rows_and_index() {
    assert_eq!(search_scope("docs", 0, true), None);
    assert_eq!(search_scope("docs", 9, false), None);
    assert_eq!(search_scope("docs", 9, true), Some("corpus = 'docs'".to_string()));
}

#[test]
fn table_is_opened_where_it_is_there() {
    let names = vec!["other".to_string(), "chunks".to_string()];
    assert_eq!(open_or_create_table(&names), TableAction::Open);
    assert_eq!(open_or_create_table(&Vec::new()), TableAction::Create);
}

#[test]
fn store_failures_name_the_store() {
    assert_eq!(map_lance_err("boom"), HallouminateError::Db("lance: boom".to_string()));
}

fn run_indexes(mut has_text: bool, mut has_vector: bool, rows: u64, enabled: bool) -> (bool, bool, bool) {
    let mut step = ensure_search_indexes(false);
    loop {
        let reply = match step {
            IndexStep::List => IndexReply::Indexes { has_text, has_vector },
            IndexStep::BuildText { .. } => {
                has_text = true;
                IndexReply::TextBuilt
            }
            IndexStep::CountRows => IndexReply::Rows(rows),
            IndexStep::BuildVector => {
                has_vector = true;
                IndexReply::VectorBuilt(true)
            }
            IndexStep::Done { latch } => return (has_text, has_vector, latch),
        };
        step = next_index_step(step, reply, enabled);
    }
}

#[test]
fn off_mode_builds_text_index_and_latches() {
    assert_eq!(run_indexes(false, false, 9999, false), (true, false, true));
}

#[test]
fn small_corpus_waits_for_its_vector_index() {
    assert_eq!(run_indexes(false, false, VECTOR_INDEX_ROWS - 1, true), (true, false, false));
    assert_eq!(run_indexes(true, false, VECTOR_INDEX_ROWS, true), (true, true, true));
    assert_eq!(run_indexes(true, true, 1, true), (true, true, true));
}

#[test]
fn failed_vector_index_is_tried_again() {
    let step = next_index_step(IndexStep::BuildVector, IndexReply::VectorBuilt(false), true);
    assert_eq!(step, IndexStep::Done { latch: false });
    assert_eq!(ensure_search_indexes(true), IndexStep::Done { latch: true });
}

#[test]
fn embedding_bytes_are_little_endian() {
    let numbers = [1.5_f32, -2.25, 0.0];
    let bits: Vec<u32> = numbers.iter().map(|n| n.to_bits()).collect();
    let mut expected: Vec<u8> = Vec::new();
    for n in numbers {
        expected.extend_from_slice(&n.to_le_bytes());
    }
    assert_eq!(vec_to_bytes(&bits), expected);
}

#[test]
fn a_damaged_cell_has_no_marks() {
    assert_eq!(decode_claim_marks(Some(Ok(vec![1, 2]))), vec![1, 2]);
    let damaged: Vec<u8> = decode_claim_marks(Some(Err("expected value".to_string())));
    assert!(damaged.is_empty());
    let empty: Vec<u8> = decode_claim_marks(None);
    assert!(empty.is_empty());
}

#[test]
fn identifiers_are_half_of_the_digest() {
    let mut digest = [0u8; 32];
    digest[0] = 0xab;
    digest[15] = 0x0f;
    digest[16] = 0xff;
    assert_eq!(id_of_digest(&digest), "ab00000000000000000000000000000f");
    let key = blake3::hash(b"/tmp/foo.md#3");
    assert_eq!(id_of_digest(key.as_bytes()), chunk_id_for("/tmp/foo.md", 3));
    assert_eq!(chunk_id_for("/tmp/foo.md", 3), key.to_hex().as_str()[..32].to_string());
}

#[test]
fn scores_are_taken_from_the_fused_lists_first() {
    let with = |names: &[&str]| Returned {
        num_rows: 0,
        columns: names
            .iter()
            .map(|name| ReturnedColumn { name: name.to_string(), values: ColumnValues::Other })
            .collect(),
    };
    assert_eq!(with(&["_score", "text", "_relevance_score"]).score_column(), Some(2));
    assert_eq!(with(&["text", "_score"]).score_column(), Some(1));
    assert_eq!(with(&["text"]).score_column(), None);
}

#[test]
fn contents_are_known_by_their_digest() {
    assert_eq!(
        content_hash_of(b""),
        "af1349b9f5f9a1a6a0404dea36dcc9499bcb25c9adc112b7cc9a93cae41f3262"
    );
    assert_eq!(content_hash_of(b"# A\n"), blake3::hash(b"# A\n").to_hex().to_string());
}
