use load0::records::{compute_stats, is_eligible, select_unsettled, Bundle};
use load0::settle::{
    acquire_transition, apply_attempt, chunk_count, commit_of_outcome, commit_settled,
    poll_transition, task_step, AcquireAction, AttemptOutcome, PermitOutcome, PollAction,
    SettleStep, SettlementSemaphore, TaskEvent, TaskState,
};

fn record(id: u32, hash: &str, size: u32, settled: bool) -> Bundle {
    Bundle {
        id,
        optimistic_hash: hash.to_string(),
        bundle_txid: "0x0000000000000000000000000000000000000000".to_string(),
        data_size: size,
        is_settled: settled,
        content_type: "application/octet-stream".to_string(),
    }
}

#[test]
fn nine_megabytes_need_three_chunks() {
    assert_eq!(chunk_count(9_000_000), 3);
    assert_eq!(chunk_count(0), 0);
    assert_eq!(chunk_count(1), 1);
    assert_eq!(chunk_count(4_194_304), 1);
    assert_eq!(chunk_count(4_194_305), 2);
}

#[test]
fn zero_size_records_are_never_selected() {
    let table = vec![
        record(1, "0xaaa", 0, false),
        record(2, "0xbbb", 10, false),
        record(3, "0xccc", 0, false),
        record(4, "0xddd", 7, true),
        record(5, "0xeee", 3, false),
    ];
    let selected = select_unsettled(&table, 5);
    assert_eq!(selected.len(), 2);
    assert_eq!(selected[0].optimistic_hash, "0xbbb");
    assert_eq!(selected[1].optimistic_hash, "0xeee");
    for b in &selected {
        assert!(is_eligible(b));
    }
}

#[test]
fn selection_respects_the_batch_limit_and_order() {
    let table = vec![
        record(1, "0xa", 1, false),
        record(2, "0xb", 1, false),
        record(3, "0xc", 1, false),
    ];
    let selected = select_unsettled(&table, 2);
    assert_eq!(selected.len(), 2);
    assert_eq!(selected[0].id, 1);
    assert_eq!(selected[1].id, 2);
}

#[test]
fn empty_poll_sleeps_and_workable_head_acquires() {
    let nothing: Vec<Bundle> = Vec::new();
    assert!(matches!(poll_transition(&nothing), PollAction::SleepLong));

    let zero_head = vec![record(1, "0xz", 0, false)];
    assert!(matches!(poll_transition(&zero_head), PollAction::SleepLong));

    let work = vec![record(1, "0xw", 9, false), record(2, "0xv", 4, false)];
    match poll_transition(&work) {
        PollAction::TryAcquire(b) => assert_eq!(b.optimistic_hash, "0xw"),
        PollAction::SleepLong => panic!("expected an acquire attempt"),
    }
}

#[test]
fn permit_timeout_sheds_load() {
    let b = record(1, "0xw", 9, false);
    assert!(matches!(
        acquire_transition(PermitOutcome::TimedOut, b),
        AcquireAction::SleepMedium
    ));
    let b = record(1, "0xw", 9, false);
    match acquire_transition(PermitOutcome::Acquired, b) {
        AcquireAction::Spawn(s) => assert_eq!(s.optimistic_hash, "0xw"),
        AcquireAction::SleepMedium => panic!("expected a spawn"),
    }
}

#[test]
fn task_runs_strictly_sequentially_to_settlement() {
    let s = TaskState::Fetching;
    let s = task_step(s, TaskEvent::Fetched(9_000_000));
    assert!(matches!(s, TaskState::Building(3)));
    let s = task_step(s, TaskEvent::StepSucceeded);
    assert!(matches!(s, TaskState::Propagating(3)));
    let s = task_step(s, TaskEvent::StepSucceeded);
    assert!(matches!(s, TaskState::Finalizing(3)));
    let s = task_step(s, TaskEvent::Finalized("0xfinal".to_string()));
    match s {
        TaskState::Done(AttemptOutcome::Settled(txid)) => assert_eq!(txid, "0xfinal"),
        _ => panic!("expected a settled outcome"),
    }
}

#[test]
fn empty_payload_is_a_no_op_success() {
    let s = task_step(TaskState::Fetching, TaskEvent::Fetched(0));
    match s {
        TaskState::Done(outcome) => {
            assert!(matches!(outcome, AttemptOutcome::Skipped));
            assert!(commit_of_outcome(outcome).is_none());
        }
        _ => panic!("expected the task to be done"),
    }
}

#[test]
fn finalize_failure_commits_nothing() {
    let s = task_step(TaskState::Finalizing(3), TaskEvent::StepErrored);
    let outcome = match s {
        TaskState::Done(outcome) => outcome,
        _ => panic!("expected the task to be done"),
    };
    assert!(matches!(
        outcome,
        AttemptOutcome::StepFailed(SettleStep::Finalize)
    ));

    let before = record(7, "0xabc", 12, false);
    let after = apply_attempt(&before, &outcome);
    assert!(!after.is_settled);
    assert_eq!(after.bundle_txid, before.bundle_txid);
    assert_eq!(after.optimistic_hash, before.optimistic_hash);

    assert!(commit_of_outcome(outcome).is_none());
}

#[test]
fn fetch_failure_aborts_without_commit() {
    let s = task_step(TaskState::Fetching, TaskEvent::FetchErrored);
    let outcome = match s {
        TaskState::Done(outcome) => outcome,
        _ => panic!("expected the task to be done"),
    };
    assert!(matches!(outcome, AttemptOutcome::FetchFailed));
    let before = record(3, "0xfff", 6, false);
    let after = apply_attempt(&before, &outcome);
    assert!(!after.is_settled);
    assert!(commit_of_outcome(outcome).is_none());
}

#[test]
fn build_and_propagate_failures_name_their_step() {
    let s = task_step(TaskState::Building(2), TaskEvent::StepErrored);
    assert!(matches!(
        s,
        TaskState::Done(AttemptOutcome::StepFailed(SettleStep::Build))
    ));
    let s = task_step(TaskState::Propagating(2), TaskEvent::StepErrored);
    assert!(matches!(
        s,
        TaskState::Done(AttemptOutcome::StepFailed(SettleStep::Propagate))
    ));
}

#[test]
fn commit_for_an_unknown_handle_changes_nothing() {
    let mut table = vec![record(1, "0xaaa", 1, false), record(2, "0xbbb", 2, false)];
    commit_settled(&mut table, &"0xzzz".to_string(), &"0xtx".to_string());
    assert!(!table[0].is_settled);
    assert!(!table[1].is_settled);
    assert_eq!(table[0].bundle_txid, record(1, "0xaaa", 1, false).bundle_txid);
}

#[test]
fn settled_outcome_writes_flag_and_txid() {
    let before = record(7, "0xabc", 12, false);
    let outcome = AttemptOutcome::Settled("0xtx".to_string());
    let after = apply_attempt(&before, &outcome);
    assert!(after.is_settled);
    assert_eq!(after.bundle_txid, "0xtx");
    assert_eq!(after.data_size, before.data_size);

    match commit_of_outcome(outcome) {
        Some(txid) => assert_eq!(txid, "0xtx"),
        None => panic!("expected a commit"),
    }
}

#[test]
fn commit_touches_only_the_named_record() {
    let mut table = vec![
        record(1, "0xaaa", 0, false),
        record(2, "0xbbb", 10, false),
        record(3, "0xccc", 5, false),
    ];
    commit_settled(&mut table, &"0xbbb".to_string(), &"0xtx9".to_string());
    assert!(!table[0].is_settled);
    assert!(table[1].is_settled);
    assert_eq!(table[1].bundle_txid, "0xtx9");
    assert!(!table[2].is_settled);
    assert_eq!(table[0].bundle_txid, record(1, "0xaaa", 0, false).bundle_txid);
}

#[test]
fn semaphore_of_two_admits_two_concurrent_tasks() {
    let mut sem = SettlementSemaphore::new(2);
    assert!(sem.try_acquire());
    assert!(sem.try_acquire());
    // no third task starts until a permit is released
    assert!(!sem.try_acquire());
    sem.release();
    assert!(sem.try_acquire());
}

#[test]
fn stats_count_records_settled_and_sizes() {
    let table = vec![
        record(1, "0xaaa", 10, true),
        record(2, "0xbbb", 20, false),
        record(3, "0xccc", 30, true),
    ];
    let stats = compute_stats(&table);
    assert_eq!(stats.bundles_count, 3);
    assert_eq!(stats.settled_count, 2);
    assert_eq!(stats.total_data_size, 60);
}
