use shiromana_cli::engine::{AddResponse, IdListResponse};
use shiromana_cli::ingest::{
    ingest_batch, FileResponse, IngestAction, IngestSession, IngestionOutcome,
};
use shiromana_cli::series::{
    bound_ids, plan_binding, series_resolution_step, sorted_bind_blocked, BindCall, BindPlan,
    SeriesIntent, SeriesStep,
};
use shiromana_cli::resolve::{ResolveAction, ResolveMethod, ResolveSession};
use shiromana_cli::media::MediaType;

fn registered(id: u64) -> IngestionOutcome {
    IngestionOutcome::Registered { id }
}

fn duplicate(id: u64) -> IngestionOutcome {
    IngestionOutcome::Duplicate { id }
}

fn failed(file: &str, cause: &str) -> IngestionOutcome {
    IngestionOutcome::Failed { file: file.to_string(), cause: cause.to_string() }
}

#[test]
fn ingestion_reconciles_a_duplicate_in_input_order() {
    let files = vec!["a.png".to_string(), "b.png".to_string(), "c.png".to_string()];
    let mut s = IngestSession::new(files, None, None, None);
    match s.next_action() {
        IngestAction::AddFile { file, .. } => assert_eq!(file, "a.png"),
        _ => panic!("expected a registration request"),
    }
    s.on_add_response(AddResponse::Added { id: 10 });
    match s.next_action() {
        IngestAction::AddFile { file, .. } => assert_eq!(file, "b.png"),
        _ => panic!("expected a registration request"),
    }
    s.on_add_response(AddResponse::AlreadyExists { hash: "cafe".to_string() });
    match s.next_action() {
        IngestAction::QueryHash { hash } => assert_eq!(hash, "cafe"),
        _ => panic!("expected a recovery query"),
    }
    s.on_recovery_response(IdListResponse::Ids { ids: vec![5] });
    s.on_add_response(AddResponse::Added { id: 11 });
    assert!(s.is_done());
    assert!(matches!(s.next_action(), IngestAction::Done));
    let outcomes = s.into_outcomes();
    assert_eq!(outcomes, vec![registered(10), duplicate(5), registered(11)]);
}

#[test]
fn ingestion_failure_does_not_stop_the_batch() {
    let files = vec!["a".to_string(), "b".to_string()];
    let mut s = IngestSession::new(files, Some(MediaType::Image), None, None);
    s.on_add_response(AddResponse::Failed { cause: "disk full".to_string() });
    s.on_add_response(AddResponse::Added { id: 3 });
    assert!(s.is_done());
    assert_eq!(s.into_outcomes(), vec![failed("a", "disk full"), registered(3)]);
}

#[test]
fn ingestion_failed_recovery_becomes_a_failure() {
    let files = vec!["a".to_string()];
    let mut s = IngestSession::new(files, None, None, None);
    s.on_add_response(AddResponse::AlreadyExists { hash: "beef".to_string() });
    s.on_recovery_response(IdListResponse::QueryFailed { cause: "query broke".to_string() });
    assert!(s.is_done());
    assert_eq!(s.into_outcomes(), vec![failed("a", "query broke")]);
}

#[test]
fn ingestion_empty_recovery_becomes_a_failure() {
    let files = vec!["a".to_string()];
    let mut s = IngestSession::new(files, None, None, None);
    s.on_add_response(AddResponse::AlreadyExists { hash: "beef".to_string() });
    s.on_recovery_response(IdListResponse::Ids { ids: Vec::new() });
    let outcomes = s.into_outcomes();
    assert!(matches!(&outcomes[0], IngestionOutcome::Failed { file, .. } if file == "a"));
}

#[test]
fn title_and_comment_apply_only_to_single_file_batches() {
    let one = IngestSession::new(
        vec!["a".to_string()],
        None,
        Some("title".to_string()),
        Some("comment".to_string()),
    );
    assert_eq!(one.title, Some("title".to_string()));
    assert_eq!(one.comment, Some("comment".to_string()));
    let two = IngestSession::new(
        vec!["a".to_string(), "b".to_string()],
        None,
        Some("title".to_string()),
        Some("comment".to_string()),
    );
    assert!(two.title.is_none());
    assert!(two.comment.is_none());
}

#[test]
fn sorted_bind_with_a_failure_is_skipped() {
    let outcomes = vec![registered(1), failed("b", "broken"), duplicate(5)];
    assert!(sorted_bind_blocked(&outcomes, true));
    assert_eq!(plan_binding(&outcomes, true), BindPlan::Skipped);
}

#[test]
fn unsorted_bind_drops_failures_and_keeps_order() {
    let outcomes = vec![registered(1), failed("b", "broken"), duplicate(5)];
    assert!(!sorted_bind_blocked(&outcomes, false));
    assert_eq!(bound_ids(&outcomes), vec![1, 5]);
    match plan_binding(&outcomes, false) {
        BindPlan::Calls { calls } => {
            assert_eq!(
                calls,
                vec![
                    BindCall { id: 1, position: None, use_default_order: true },
                    BindCall { id: 5, position: None, use_default_order: true },
                ]
            );
        },
        BindPlan::Skipped => panic!("an unsorted bind is never skipped"),
    }
}

#[test]
fn sorted_bind_assigns_positions_in_order() {
    let outcomes = vec![registered(7), duplicate(3), registered(9)];
    match plan_binding(&outcomes, true) {
        BindPlan::Calls { calls } => {
            assert_eq!(
                calls,
                vec![
                    BindCall { id: 7, position: Some(0), use_default_order: false },
                    BindCall { id: 3, position: Some(1), use_default_order: false },
                    BindCall { id: 9, position: Some(2), use_default_order: false },
                ]
            );
        },
        BindPlan::Skipped => panic!("nothing failed, so nothing is skipped"),
    }
}

#[test]
fn series_intent_resolves_one_step_at_a_time() {
    assert_eq!(series_resolution_step(&SeriesIntent::NoSeries, false), SeriesStep::NoBinding);
    let existing = SeriesIntent::Existing { uuid: "u-1".to_string() };
    assert_eq!(
        series_resolution_step(&existing, true),
        SeriesStep::UseExisting { uuid: "u-1".to_string() }
    );
    let fresh = SeriesIntent::NewByName { name: "trip".to_string(), allow_prompt: true };
    assert_eq!(
        series_resolution_step(&fresh, false),
        SeriesStep::CreateNamed { name: "trip".to_string() }
    );
    assert_eq!(series_resolution_step(&fresh, true), SeriesStep::PromptForName);
    let no_prompt = SeriesIntent::NewByName { name: "trip".to_string(), allow_prompt: false };
    assert_eq!(
        series_resolution_step(&no_prompt, true),
        SeriesStep::CreateNamed { name: "trip".to_string() }
    );
}

#[test]
fn identifier_match_wins_over_a_filename_of_digits() {
    let mut s = ResolveSession::new("42", 32);
    assert_eq!(s.next_action(), Some(ResolveAction::FetchById { id: 42 }));
    s.on_media_lookup(true);
    assert_eq!(s.next_action(), None);
    let r = s.into_resolution().unwrap();
    assert_eq!(r.method, Some(ResolveMethod::Identifier));
    assert_eq!(r.ids, vec![42]);
}

#[test]
fn hash_length_query_falls_to_the_hash_stage() {
    let hex = "deadbeefdeadbeefdeadbeefdeadbeefdeadbeefdeadbeefdeadbeefdeadbeef";
    assert_eq!(hex.len(), 64);
    let mut s = ResolveSession::new(hex, 32);
    assert_eq!(s.next_action(), Some(ResolveAction::QueryByHash { hash: hex.to_string() }));
    s.on_hash_query(IdListResponse::Ids { ids: vec![7, 8] });
    let r = s.into_resolution().unwrap();
    assert_eq!(r.method, Some(ResolveMethod::Hash));
    assert_eq!(r.ids, vec![7]);
}

#[test]
fn sixty_four_digits_overflow_and_still_reach_the_hash_stage() {
    let digits = "1111111111111111111111111111111111111111111111111111111111111111";
    let s = ResolveSession::new(digits, 32);
    assert_eq!(s.next_action(), Some(ResolveAction::QueryByHash { hash: digits.to_string() }));
}

#[test]
fn filename_lookup_returns_all_matches_in_engine_order() {
    let mut s = ResolveSession::new("photo.png", 32);
    assert_eq!(
        s.next_action(),
        Some(ResolveAction::QueryByFilename { name: "photo.png".to_string() })
    );
    s.on_filename_query(IdListResponse::Ids { ids: vec![3, 9] });
    let r = s.into_resolution().unwrap();
    assert_eq!(r.method, Some(ResolveMethod::Filename));
    assert_eq!(r.ids, vec![3, 9]);
}

#[test]
fn missed_identifier_falls_to_hash_then_filename() {
    let mut s = ResolveSession::new("12", 1);
    assert_eq!(s.next_action(), Some(ResolveAction::FetchById { id: 12 }));
    s.on_media_lookup(false);
    assert_eq!(s.next_action(), Some(ResolveAction::QueryByHash { hash: "12".to_string() }));
    s.on_hash_query(IdListResponse::Ids { ids: Vec::new() });
    assert_eq!(s.next_action(), Some(ResolveAction::QueryByFilename { name: "12".to_string() }));
    s.on_filename_query(IdListResponse::QueryFailed { cause: "broken".to_string() });
    let r = s.into_resolution().unwrap();
    assert_eq!(r.method, None);
    assert!(r.ids.is_empty());
}

#[test]
fn query_is_trimmed_before_every_attempt() {
    let s = ResolveSession::new("  42  ", 32);
    assert_eq!(s.next_action(), Some(ResolveAction::FetchById { id: 42 }));
    let t = ResolveSession::new(" ab ", 1);
    assert_eq!(t.next_action(), Some(ResolveAction::QueryByHash { hash: "ab".to_string() }));
}

#[test]
fn nothing_matched_resolves_to_an_empty_result() {
    let mut s = ResolveSession::new("nowhere", 32);
    s.on_filename_query(IdListResponse::Ids { ids: Vec::new() });
    let r = s.into_resolution().unwrap();
    assert_eq!(r.method, None);
    assert!(r.ids.is_empty());
}

fn plain(add: AddResponse) -> FileResponse {
    FileResponse { add, recovery: None }
}

fn recovered(hash: &str, ids: Vec<u64>) -> FileResponse {
    FileResponse {
        add: AddResponse::AlreadyExists { hash: hash.to_string() },
        recovery: Some(IdListResponse::Ids { ids }),
    }
}

#[test]
fn batch_with_a_duplicate_in_the_middle_keeps_every_position() {
    let files = vec!["a".to_string(), "b".to_string(), "c".to_string(), "d".to_string()];
    let responses = vec![
        plain(AddResponse::Added { id: 21 }),
        recovered("abcd", vec![4, 9]),
        plain(AddResponse::Added { id: 22 }),
        plain(AddResponse::Added { id: 23 }),
    ];
    let outcomes = ingest_batch(files, None, None, None, responses);
    assert_eq!(outcomes, vec![registered(21), duplicate(4), registered(22), registered(23)]);
}

#[test]
fn batch_failures_keep_their_file_and_place() {
    let files = vec!["a".to_string(), "b".to_string()];
    let responses = vec![
        plain(AddResponse::Failed { cause: "disk full".to_string() }),
        plain(AddResponse::Added { id: 1 }),
    ];
    let outcomes = ingest_batch(files, Some(MediaType::Image), None, None, responses);
    assert_eq!(outcomes, vec![failed("a", "disk full"), registered(1)]);
}

#[test]
fn three_file_batch_without_series_in_one_run() {
    let files = vec!["p1.png".to_string(), "p2.png".to_string(), "p3.png".to_string()];
    let responses = vec![
        plain(AddResponse::Added { id: 1 }),
        plain(AddResponse::Added { id: 2 }),
        recovered("feed", vec![5]),
    ];
    let outcomes = ingest_batch(files, None, None, None, responses);
    assert_eq!(outcomes, vec![registered(1), registered(2), duplicate(5)]);
    assert_eq!(series_resolution_step(&SeriesIntent::NoSeries, false), SeriesStep::NoBinding);
    match plan_binding(&outcomes, false) {
        BindPlan::Calls { calls } => assert_eq!(calls.len(), 3),
        BindPlan::Skipped => panic!("nothing failed, so nothing is skipped"),
    }
}

#[test]
fn three_files_without_series_register_and_deduplicate_in_order() {
    let files = vec!["p1.png".to_string(), "p2.png".to_string(), "p3.png".to_string()];
    let mut s = IngestSession::new(files, None, None, None);
    s.on_add_response(AddResponse::Added { id: 1 });
    s.on_add_response(AddResponse::Added { id: 2 });
    s.on_add_response(AddResponse::AlreadyExists { hash: "feed".to_string() });
    s.on_recovery_response(IdListResponse::Ids { ids: vec![5] });
    assert!(s.is_done());
    let outcomes = s.into_outcomes();
    assert_eq!(outcomes, vec![registered(1), registered(2), duplicate(5)]);
    assert_eq!(series_resolution_step(&SeriesIntent::NoSeries, false), SeriesStep::NoBinding);
}
