use utopia::error::AppError;
use utopia::json::{Json, Member};
use utopia::vector_index::{
    build, distance, drop_index, index_name, relaxed_order, request, request_after_status,
    same_dims, KnownIndexes, RequestStep, Target, JOB_KIND, MAX_DIMS, RELAXED_ORDER,
    SERIAL_BUILD, SERIAL_BUILD_RESET,
};

#[test]
fn the_index_name_carries_table_column_and_dims() {
    assert_eq!(
        index_name(Target::Chunks, 1024),
        "chunks_embedding_hnsw_1024"
    );
    assert_eq!(
        index_name(Target::EntityProfiles, 768),
        "entities_profile_embedding_hnsw_768"
    );
}

#[test]
fn the_sql_writes_the_dimension_as_a_literal() {
    assert_eq!(
        same_dims("c.embedding", 1024),
        "vector_dims(c.embedding) = 1024"
    );
    assert_eq!(
        distance("c.embedding", 2, 1024),
        "c.embedding::vector(1024) <=> $2::vector(1024)"
    );
}

#[test]
fn a_target_round_trips_through_the_payload() {
    for t in [Target::Chunks, Target::EntityProfiles] {
        assert_eq!(Target::parse(t.key()), Some(t));
    }
    assert_eq!(Target::parse("documents"), None);
}

#[test]
fn a_target_names_its_table_and_column() {
    assert_eq!(Target::Chunks.table(), "chunks");
    assert_eq!(Target::Chunks.column(), "embedding");
    assert_eq!(Target::EntityProfiles.table(), "entities");
    assert_eq!(Target::EntityProfiles.column(), "profile_embedding");
}

#[test]
fn the_first_write_of_a_dimension_asks_and_a_known_one_does_not() {
    let mut known = KnownIndexes::new();
    match request(&known, Target::Chunks, 9) {
        RequestStep::ReadStatus { name } => assert_eq!(name, "chunks_embedding_hnsw_9"),
        _ => panic!("the status has to be read"),
    }
    match request_after_status(&mut known, Target::Chunks, 9, None) {
        RequestStep::Enqueue(job) => {
            assert_eq!(job.kind, JOB_KIND);
            assert_eq!(
                job.payload,
                Json::Object(vec![
                    Member { key: "table".into(), value: Json::Text("chunks".into()) },
                    Member { key: "dims".into(), value: Json::Number("9".into()) },
                ])
            );
        }
        _ => panic!("a job has to be queued"),
    }
    assert!(!known.is_known("chunks_embedding_hnsw_9"));
    assert!(matches!(
        request_after_status(&mut known, Target::Chunks, 9, Some(false)),
        RequestStep::Enqueue(_)
    ));
    assert!(matches!(
        request_after_status(&mut known, Target::Chunks, 9, Some(true)),
        RequestStep::Nothing
    ));
    assert!(known.is_known("chunks_embedding_hnsw_9"));
    assert!(matches!(request(&known, Target::Chunks, 9), RequestStep::Nothing));
    assert!(matches!(
        request(&known, Target::EntityProfiles, 9),
        RequestStep::ReadStatus { .. }
    ));
}

#[test]
fn what_cannot_be_built_is_not_asked_for() {
    let known = KnownIndexes::new();
    assert!(matches!(request(&known, Target::Chunks, 0), RequestStep::Nothing));
    assert!(matches!(request(&known, Target::Chunks, MAX_DIMS + 1), RequestStep::Nothing));
    assert!(matches!(
        request(&known, Target::Chunks, MAX_DIMS),
        RequestStep::ReadStatus { .. }
    ));
}

#[test]
fn a_dimension_that_is_too_wide_is_refused() {
    match build(Target::Chunks, MAX_DIMS + 1) {
        Err(AppError::Validation(m)) => {
            assert_eq!(m, "2001 dims: HNSW on vector holds up to 2000")
        }
        _ => panic!("refused"),
    }
    assert!(matches!(build(Target::Chunks, 0), Err(AppError::Validation(_))));
}

#[test]
fn an_unfinished_index_is_dropped_before_it_is_built() {
    let b = build(Target::Chunks, 1024).unwrap();
    assert_eq!(b.name, "chunks_embedding_hnsw_1024");
    let create = "CREATE INDEX CONCURRENTLY IF NOT EXISTS chunks_embedding_hnsw_1024 ON chunks \
                  USING hnsw ((embedding::vector(1024)) vector_cosine_ops) \
                  WHERE vector_dims(embedding) = 1024";
    let fresh = b.plan(None);
    assert!(fresh.created);
    assert_eq!(fresh.statements, [create]);
    let broken = b.plan(Some(false));
    assert!(broken.created);
    assert_eq!(
        broken.statements,
        ["DROP INDEX CONCURRENTLY IF EXISTS chunks_embedding_hnsw_1024", create]
    );
    let there = b.plan(Some(true));
    assert!(!there.created);
    assert_eq!(there.statements, [create]);
    let mut known = KnownIndexes::new();
    b.finished(&mut known);
    assert!(known.is_known("chunks_embedding_hnsw_1024"));
}

#[test]
fn a_dropped_index_is_forgotten() {
    let mut known = KnownIndexes::new();
    known.remember("chunks_embedding_hnsw_9");
    known.remember("chunks_embedding_hnsw_9");
    known.remember("chunks_embedding_hnsw_8");
    assert_eq!(
        drop_index(&mut known, Target::Chunks, 9),
        "DROP INDEX CONCURRENTLY IF EXISTS chunks_embedding_hnsw_9"
    );
    assert!(!known.is_known("chunks_embedding_hnsw_9"));
    assert!(known.is_known("chunks_embedding_hnsw_8"));
}

#[test]
fn the_scan_is_relaxed_where_the_server_can() {
    assert_eq!(relaxed_order(true), Some(RELAXED_ORDER));
    assert_eq!(RELAXED_ORDER, "SET LOCAL hnsw.iterative_scan = relaxed_order");
    assert_eq!(relaxed_order(false), None);
    assert_eq!(SERIAL_BUILD, "SET max_parallel_maintenance_workers = 0");
    assert_eq!(SERIAL_BUILD_RESET, "RESET max_parallel_maintenance_workers");
}
