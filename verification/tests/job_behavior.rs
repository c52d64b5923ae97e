use pocket_harness::jobs::{prompt_preview, JobState, JobStore, JobStoreError};

#[test]
fn does_not_start_second_job_when_thread_is_already_running() {
    let mut store = JobStore::new(5, 10);
    let first = store.enqueue("main", "echo", "first").unwrap();
    let second = store.enqueue("main", "echo", "second").unwrap();

    assert_eq!(store.start_next("main").unwrap().id, first.id);
    assert!(store.start_next("main").is_none());
    assert_eq!(store.queued_for_thread("main")[0].id, second.id);
}

#[test]
fn can_cancel_running_job_and_then_start_next() {
    let mut store = JobStore::new(5, 10);
    let first = store.enqueue("main", "echo", "first").unwrap();
    let second = store.enqueue("main", "echo", "second").unwrap();

    store.start_next("main").unwrap();
    let receipt = store.cancel_running("main").unwrap();

    assert_eq!(receipt.job_id, first.id);
    assert_eq!(receipt.state, JobState::Canceled);
    assert_eq!(store.start_next("main").unwrap().id, second.id);
}

#[test]
fn finishing_unknown_job_reports_error() {
    let mut store = JobStore::new(5, 10);

    assert_eq!(
        store.finish("missing", JobState::Succeeded, "done"),
        Err(JobStoreError::UnknownJob("missing".to_string()))
    );
}

#[test]
fn cancel_without_running_job_reports_error() {
    let mut store = JobStore::new(5, 10);

    assert_eq!(
        store.cancel_running("main"),
        Err(JobStoreError::NoRunningJob("main".to_string()))
    );
}

#[test]
fn prompt_preview_is_normalized_and_truncated() {
    let mut store = JobStore::new(5, 10);
    let long_prompt = format!("hello\n{}\tgoodbye", "x".repeat(200));
    let job = store.enqueue("main", "echo", &long_prompt).unwrap();

    assert!(!job.prompt_preview.contains('\n'));
    assert!(!job.prompt_preview.contains('\t'));
    assert!(job.prompt_preview.len() <= 120);
    assert!(job.prompt_preview.ends_with("..."));
}

#[test]
fn queues_starts_finishes_and_records_receipts() {
    let mut store = JobStore::new(2, 10);
    let job = store.enqueue("main", "echo", "hello").unwrap();

    assert_eq!(store.queued_for_thread("main").len(), 1);
    let running = store.start_next("main").unwrap();
    assert_eq!(running.id, job.id);
    assert!(store.running_for_thread("main").is_some());

    let receipt = store
        .finish(&job.id, JobState::Succeeded, "done")
        .expect("finish running job");

    assert_eq!(receipt.state, JobState::Succeeded);
    assert_eq!(store.receipts().len(), 1);
    assert!(store.running_for_thread("main").is_none());
}

#[test]
fn enforces_queue_depth_and_receipt_retention() {
    let mut store = JobStore::new(1, 1);
    let first = store.enqueue("main", "echo", "first").unwrap();
    assert!(store.enqueue("main", "echo", "second").is_err());

    store.start_next("main").unwrap();
    store
        .finish(&first.id, JobState::Succeeded, "first")
        .unwrap();

    let second = store.enqueue("main", "echo", "second").unwrap();
    store.start_next("main").unwrap();
    store
        .finish(&second.id, JobState::Failed, "second")
        .unwrap();

    let receipts = store.receipts();
    assert_eq!(receipts.len(), 1);
    assert_eq!(receipts[0].job_id, second.id);
}

#[test]
fn full_queue_reports_its_thread() {
    let mut store = JobStore::new(1, 5);
    store.enqueue("main", "echo", "first").unwrap();
    let error = store.enqueue("main", "echo", "second").unwrap_err();
    assert_eq!(error, JobStoreError::QueueFull("main".to_string()));
    assert_eq!(error.message(), "queue for thread `main` is full");
    assert_eq!(
        JobStoreError::UnknownJob("x".to_string()).message(),
        "unknown running job `x`"
    );
    assert_eq!(
        JobStoreError::NoRunningJob("main".to_string()).message(),
        "thread `main` has no running job"
    );
}

#[test]
fn canceled_receipt_carries_the_parent_message_and_sequence() {
    let mut store = JobStore::new(5, 10);
    let job = store.enqueue("main", "echo", "work").unwrap();
    assert_eq!(job.created_sequence, 1);
    assert_eq!(job.id.len(), 36);
    store.start_next("main").unwrap();
    let receipt = store.cancel_running("main").unwrap();
    assert_eq!(receipt.message, "canceled by parent gateway");
    assert_eq!(receipt.sequence, 2);
    assert_eq!(receipt.thread_id, "main");
    assert_eq!(receipt.connector, "echo");
}

#[test]
fn threads_queue_independently() {
    let mut store = JobStore::new(1, 5);
    let a = store.enqueue("a", "echo", "one").unwrap();
    let b = store.enqueue("b", "echo", "two").unwrap();
    assert_eq!(store.start_next("b").unwrap().id, b.id);
    assert_eq!(store.start_next("a").unwrap().id, a.id);
    assert!(store.queued_for_thread("a").is_empty());
}

#[test]
fn prompt_preview_collapses_whitespace() {
    assert_eq!(prompt_preview("  hello \n\t world  "), "hello world");
    assert_eq!(prompt_preview(""), "");
    let long = "y".repeat(130);
    let preview = prompt_preview(&long);
    assert_eq!(preview.len(), 120);
    assert_eq!(&preview[..117], &long[..117]);
    assert!(preview.ends_with("..."));
}

fn is_uuid_v4_text(s: &str) -> bool {
    let c: Vec<char> = s.chars().collect();
    c.len() == 36
        && c.iter().enumerate().all(|(i, ch)| {
            if [8, 13, 18, 23].contains(&i) {
                *ch == '-'
            } else {
                ch.is_ascii_digit() || ('a'..='f').contains(ch)
            }
        })
        && c[14] == '4'
        && ['8', '9', 'a', 'b'].contains(&c[19])
}

#[test]
fn job_ids_are_distinct_random_uuids() {
    let mut store = JobStore::new(5, 10);
    let first = store.enqueue("main", "echo", "one").unwrap();
    let second = store.enqueue("main", "echo", "two").unwrap();
    assert!(is_uuid_v4_text(&first.id), "{}", first.id);
    assert!(is_uuid_v4_text(&second.id), "{}", second.id);
    assert_ne!(first.id, second.id);
}

#[test]
fn receipts_name_the_thread_the_job_ran_on_in_sequence_order() {
    let mut store = JobStore::new(5, 10);
    let a = store.enqueue("alpha", "echo", "one").unwrap();
    store.enqueue("beta", "echo", "two").unwrap();
    store.start_next("alpha").unwrap();
    store.start_next("beta").unwrap();
    let first = store.finish(&a.id, JobState::Succeeded, "done").unwrap();
    let second = store.cancel_running("beta").unwrap();
    assert_eq!(first.thread_id, "alpha");
    assert_eq!(second.thread_id, "beta");
    let receipts = store.receipts();
    assert_eq!(receipts.len(), 2);
    assert!(receipts[0].sequence < receipts[1].sequence);
    assert_eq!(receipts[1].sequence, second.sequence);
}

#[test]
fn queued_and_running_jobs_never_share_an_identifier() {
    let mut store = JobStore::new(5, 10);
    store.enqueue("main", "echo", "first").unwrap();
    store.enqueue("main", "echo", "second").unwrap();
    store.enqueue("side", "echo", "third").unwrap();
    store.start_next("main").unwrap();
    store.start_next("side").unwrap();

    let running = [
        store.running_for_thread("main").unwrap().id.clone(),
        store.running_for_thread("side").unwrap().id.clone(),
    ];
    let queued = store.queued_for_thread("main");
    assert_eq!(queued.len(), 1);
    assert!(!running.contains(&queued[0].id));
    assert!(store.queued_for_thread("side").is_empty());
    assert_ne!(running[0], running[1]);
}
