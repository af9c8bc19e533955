use chunk_store::chunk::Chunk;
use chunk_store::errors::StoreError;
use chunk_store::ids::{assign_ids, chunk_row_id};
use chunk_store::schema::{define_schema, ColumnType};
use chunk_store::store::{effective_limit, SearchHit, Store, DEFAULT_SEARCH_LIMIT};

fn chunk(file_path: &str, text: &str, block_ids: &[&str], embedding_f32: &[f32]) -> Chunk {
    Chunk {
        file_path: file_path.to_string(),
        text: text.to_string(),
        source_block_ids: block_ids.iter().map(|s| s.to_string()).collect(),
        embedding: embedding_f32.iter().map(|x| x.to_bits()).collect(),
        score: None,
    }
}

fn bits(v: &[f32]) -> Vec<u32> {
    v.iter().map(|x| x.to_bits()).collect()
}

#[test]
fn schema_has_five_typed_columns() {
    let s = define_schema(4).unwrap();
    assert_eq!(s.fields.len(), 5);
    let names: Vec<&str> = s.fields.iter().map(|f| f.name.as_str()).collect();
    assert_eq!(
        names,
        vec!["id", "file_path", "source_block_ids", "text", "embedding"]
    );
    assert_eq!(s.fields[0].column_type, ColumnType::Int32);
    assert_eq!(s.fields[1].column_type, ColumnType::Utf8);
    assert_eq!(s.fields[2].column_type, ColumnType::ListUtf8);
    assert_eq!(s.fields[3].column_type, ColumnType::Utf8);
    assert_eq!(
        s.fields[4].column_type,
        ColumnType::FixedSizeListFloat32 { dim: 4 }
    );
    assert!(s.fields.iter().all(|f| !f.nullable));
}

#[test]
fn schema_rejects_nonpositive_dim() {
    assert!(matches!(define_schema(0), Err(StoreError::InvalidInput)));
    assert!(matches!(define_schema(-3), Err(StoreError::InvalidInput)));
}

#[test]
fn insert_creates_table_once() {
    let mut s = Store::new();
    let name = "notes".to_string();
    assert!(!s.table_exists(&name));

    let batch1 = vec![chunk("a.md", "alpha", &["b1"], &[0.1, 0.2, 0.3])];
    assert_eq!(s.insert_chunks(&name, &batch1, 3, 11, true), Ok(1));
    assert!(s.table_exists(&name));
    assert_eq!(s.has_text_index(&name), Ok(true));
    assert_eq!(s.row_count(&name), Ok(1));

    // a second insert with the same name and width reuses the table
    let batch2 = vec![chunk("b.md", "beta", &[], &[0.4, 0.5, 0.6])];
    assert_eq!(s.insert_chunks(&name, &batch2, 3, 12, true), Ok(1));
    assert_eq!(s.row_count(&name), Ok(2));
    assert_eq!(s.has_text_index(&name), Ok(true));
}

#[test]
fn dimension_mismatch_rejects_whole_batch() {
    let mut s = Store::new();
    let name = "notes".to_string();
    let batch = vec![
        chunk("a.md", "alpha", &[], &[0.1, 0.2, 0.3]),
        chunk("b.md", "beta", &[], &[0.4, 0.5]),
        chunk("c.md", "gamma", &[], &[0.6, 0.7, 0.8]),
    ];
    let r = s.insert_chunks(&name, &batch, 3, 11, true);
    assert_eq!(
        r,
        Err(StoreError::SchemaMismatch {
            chunk_index: 1,
            actual_len: 2,
            expected_dim: 3,
        })
    );
    // the table was created by the attempt, but no row of the batch landed
    assert!(s.table_exists(&name));
    assert_eq!(s.row_count(&name), Ok(0));
}

#[test]
fn dimension_mismatch_leaves_existing_rows_unchanged() {
    let mut s = Store::new();
    let name = "notes".to_string();
    let good = vec![chunk("a.md", "alpha", &[], &[0.1, 0.2])];
    assert_eq!(s.insert_chunks(&name, &good, 2, 11, true), Ok(1));
    let bad = vec![chunk("b.md", "beta", &[], &[0.1, 0.2, 0.3])];
    let r = s.insert_chunks(&name, &bad, 2, 12, true);
    assert!(matches!(r, Err(StoreError::SchemaMismatch { .. })));
    assert_eq!(s.row_count(&name), Ok(1));
}

#[test]
fn row_order_is_preserved() {
    let mut s = Store::new();
    let name = "docs".to_string();
    let batch = vec![
        chunk("a.md", "first", &["b1", "b2"], &[1.0, 0.0]),
        chunk("b.md", "second", &[], &[0.0, 1.0]),
        chunk("c.md", "third", &["b3"], &[0.5, 0.5]),
    ];
    assert_eq!(s.insert_chunks(&name, &batch, 2, 11, true), Ok(3));
    let rows = s.view_table(&name, 10).unwrap();
    assert_eq!(rows.len(), 3);
    for (i, row) in rows.iter().enumerate() {
        assert_eq!(row.file_path, batch[i].file_path);
        assert_eq!(row.text, batch[i].text);
        assert_eq!(row.source_block_ids, batch[i].source_block_ids);
        assert_eq!(row.embedding, batch[i].embedding);
        assert_eq!(row.score, None);
    }
}

#[test]
fn view_table_applies_its_limit() {
    let mut s = Store::new();
    let name = "docs".to_string();
    let batch = vec![
        chunk("a.md", "first", &[], &[1.0]),
        chunk("b.md", "second", &[], &[2.0]),
        chunk("c.md", "third", &[], &[3.0]),
    ];
    assert_eq!(s.insert_chunks(&name, &batch, 1, 11, true), Ok(3));
    assert_eq!(s.view_table(&name, 2).unwrap().len(), 2);
    assert_eq!(s.view_table(&name, 0).unwrap().len(), 0);
    assert_eq!(s.view_table(&name, 9).unwrap().len(), 3);
}

#[test]
fn search_round_trip_decodes_the_inserted_chunk() {
    let mut s = Store::new();
    let name = "docs".to_string();
    let batch = vec![
        chunk("a.md", "hello", &["b1", "b2"], &[0.1, 0.2, 0.3]),
        chunk("b.md", "world", &[], &[0.3, 0.2, 0.1]),
    ];
    assert_eq!(s.insert_chunks(&name, &batch, 3, 11, true), Ok(2));

    let score = 0.75f32;
    let ranking = vec![SearchHit {
        row: 0,
        score: score.to_bits(),
    }];
    let q = "hello".to_string();
    let out = s
        .search(&name, &q, &bits(&[0.1, 0.2, 0.3]), Some(1), &ranking)
        .unwrap();
    assert_eq!(out.len(), 1);
    assert_eq!(out[0].file_path, "a.md");
    assert_eq!(out[0].text, "hello");
    assert_eq!(out[0].source_block_ids, vec!["b1", "b2"]);
    let embedding: Vec<f32> = out[0].embedding.iter().map(|&b| f32::from_bits(b)).collect();
    assert!(embedding
        .iter()
        .zip([0.1f32, 0.2, 0.3].iter())
        .all(|(a, b)| (a - b).abs() < 1e-9));
    assert_eq!(out[0].score, Some(score.to_bits()));

    // an empty block-id list survives the round trip too
    let ranking2 = vec![SearchHit {
        row: 1,
        score: 0.5f32.to_bits(),
    }];
    let out2 = s
        .search(&name, &q, &bits(&[0.3, 0.2, 0.1]), Some(1), &ranking2)
        .unwrap();
    assert_eq!(out2[0].source_block_ids, Vec::<String>::new());
}

#[test]
fn search_never_exceeds_its_limit() {
    let mut s = Store::new();
    let name = "docs".to_string();
    let batch: Vec<Chunk> = (0..8)
        .map(|i| chunk(&format!("f{i}.md"), &format!("text {i}"), &[], &[i as f32]))
        .collect();
    assert_eq!(s.insert_chunks(&name, &batch, 1, 11, true), Ok(8));
    let ranking: Vec<SearchHit> = (0..8)
        .map(|i| SearchHit {
            row: i,
            score: (1.0f32 / (i as f32 + 1.0)).to_bits(),
        })
        .collect();
    let q = "text".to_string();
    let out = s.search(&name, &q, &bits(&[0.0]), Some(5), &ranking).unwrap();
    assert_eq!(out.len(), 5);
    // the ranking's order is kept, best first
    assert_eq!(out[0].file_path, "f0.md");
    assert_eq!(out[4].file_path, "f4.md");
}

#[test]
fn search_defaults_to_ten_results() {
    assert_eq!(effective_limit(None), 10);
    assert_eq!(effective_limit(Some(3)), 3);
    assert_eq!(DEFAULT_SEARCH_LIMIT, 10);

    let mut s = Store::new();
    let name = "docs".to_string();
    let batch: Vec<Chunk> = (0..12)
        .map(|i| chunk(&format!("f{i}.md"), "t", &[], &[i as f32]))
        .collect();
    assert_eq!(s.insert_chunks(&name, &batch, 1, 11, true), Ok(12));
    let ranking: Vec<SearchHit> = (0..12)
        .map(|i| SearchHit {
            row: i,
            score: 0.5f32.to_bits(),
        })
        .collect();
    let q = "t".to_string();
    let out = s.search(&name, &q, &bits(&[0.0]), None, &ranking).unwrap();
    assert_eq!(out.len(), 10);
}

#[test]
fn queries_against_missing_tables_fail() {
    let mut s = Store::new();
    let name = "never_created".to_string();
    let q = "x".to_string();
    assert!(matches!(
        s.search(&name, &q, &bits(&[0.0]), Some(5), &vec![]),
        Err(StoreError::NotFound)
    ));
    assert!(matches!(s.view_table(&name, 5), Err(StoreError::NotFound)));
    assert_eq!(s.open_table(&name), Err(StoreError::NotFound));
    assert_eq!(s.row_count(&name), Err(StoreError::NotFound));
    assert_eq!(s.has_text_index(&name), Err(StoreError::NotFound));
    // creating some other table changes none of that
    assert_eq!(s.create_empty_table(&"other".to_string(), 2, true), Ok(()));
    assert!(matches!(s.view_table(&name, 5), Err(StoreError::NotFound)));
}

#[test]
fn create_twice_reports_already_exists() {
    let mut s = Store::new();
    let name = "docs".to_string();
    assert_eq!(s.create_empty_table(&name, 4, true), Ok(()));
    assert_eq!(
        s.create_empty_table(&name, 4, true),
        Err(StoreError::AlreadyExists)
    );
    assert_eq!(
        s.create_empty_table(&name, 7, true),
        Err(StoreError::AlreadyExists)
    );
}

#[test]
fn failed_index_build_leaves_unindexed_table() {
    let mut s = Store::new();
    let name = "docs".to_string();
    assert_eq!(
        s.create_empty_table(&name, 4, false),
        Err(StoreError::IndexError)
    );
    assert!(s.table_exists(&name));
    assert_eq!(s.has_text_index(&name), Ok(false));
}

#[test]
fn failed_index_build_aborts_first_insert() {
    let mut s = Store::new();
    let name = "docs".to_string();
    let batch = vec![chunk("a.md", "alpha", &[], &[0.1])];
    assert_eq!(
        s.insert_chunks(&name, &batch, 1, 11, false),
        Err(StoreError::IndexError)
    );
    assert!(s.table_exists(&name));
    assert_eq!(s.row_count(&name), Ok(0));
}

#[test]
fn width_change_is_rejected_at_the_engine() {
    let mut s = Store::new();
    let name = "docs".to_string();
    assert_eq!(s.create_empty_table(&name, 3, true), Ok(()));
    let batch = vec![chunk("a.md", "alpha", &[], &[0.1, 0.2, 0.3, 0.4])];
    assert_eq!(
        s.insert_chunks(&name, &batch, 4, 11, true),
        Err(StoreError::StorageEngineError)
    );
    assert_eq!(s.row_count(&name), Ok(0));
}

#[test]
fn ranking_beyond_the_rows_fails_the_whole_call() {
    let mut s = Store::new();
    let name = "docs".to_string();
    let batch = vec![chunk("a.md", "alpha", &[], &[0.1])];
    assert_eq!(s.insert_chunks(&name, &batch, 1, 11, true), Ok(1));
    let ranking = vec![
        SearchHit {
            row: 0,
            score: 0.9f32.to_bits(),
        },
        SearchHit {
            row: 7,
            score: 0.8f32.to_bits(),
        },
    ];
    let q = "alpha".to_string();
    assert!(matches!(
        s.search(&name, &q, &bits(&[0.1]), Some(5), &ranking),
        Err(StoreError::StorageEngineError)
    ));
}

#[test]
fn nonpositive_width_insert_creates_nothing() {
    let mut s = Store::new();
    let name = "docs".to_string();
    let batch = vec![chunk("a.md", "alpha", &[], &[])];
    assert_eq!(
        s.insert_chunks(&name, &batch, 0, 11, true),
        Err(StoreError::InvalidInput)
    );
    assert!(!s.table_exists(&name));
    assert_eq!(
        s.insert_chunks(&name, &batch, -2, 11, true),
        Err(StoreError::InvalidInput)
    );
    assert!(!s.table_exists(&name));
}

#[test]
fn empty_batch_still_creates_the_table() {
    let mut s = Store::new();
    let name = "docs".to_string();
    let batch: Vec<Chunk> = vec![];
    assert_eq!(s.insert_chunks(&name, &batch, 2, 11, true), Ok(0));
    assert!(s.table_exists(&name));
    assert_eq!(s.row_count(&name), Ok(0));
    assert_eq!(s.view_table(&name, 5).unwrap().len(), 0);
}

#[test]
fn row_ids_are_deterministic_in_their_inputs() {
    let a = chunk("a.md", "alpha", &[], &[0.1]);
    let id1 = chunk_row_id(&a, 123456789, 0);
    let id2 = chunk_row_id(&a, 123456789, 0);
    assert_eq!(id1, id2);

    let batch = vec![
        chunk("a.md", "alpha", &[], &[0.1]),
        chunk("b.md", "beta", &[], &[0.2]),
    ];
    let ids = assign_ids(&batch, 123456789);
    assert_eq!(ids.len(), 2);
    assert_eq!(ids[0], chunk_row_id(&batch[0], 123456789, 0));
    assert_eq!(ids[1], chunk_row_id(&batch[1], 123456789, 1));
}

#[test]
fn concrete_scenario_docs_table() {
    let mut s = Store::new();
    let name = "docs".to_string();
    assert_eq!(s.create_empty_table(&name, 4, true), Ok(()));
    let batch = vec![chunk("a.md", "hello world", &["b1"], &[1.0, 0.0, 0.0, 0.0])];
    assert_eq!(s.insert_chunks(&name, &batch, 4, 42, true), Ok(1));
    assert!(s.table_exists(&name));

    let q = "hello".to_string();
    let ranking = vec![SearchHit {
        row: 0,
        score: 0.99f32.to_bits(),
    }];
    let out = s
        .search(&name, &q, &bits(&[1.0, 0.0, 0.0, 0.0]), Some(1), &ranking)
        .unwrap();
    assert_eq!(out.len(), 1);
    assert_eq!(out[0].file_path, "a.md");
    assert!(out[0].score.is_some());
}
