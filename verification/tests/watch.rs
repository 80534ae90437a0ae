use swarmotterd::admission::TorrentAddMutationOutcome;
use swarmotterd::error::CoreError;
use swarmotterd::hash::InfoHash;
use swarmotterd::torrent::TorrentState;
use swarmotterd::watch::{
    changed_fingerprint, import_result, judge_watch_attempt, watch_event_name, FileFingerprint,
    ImportOutcome, ImportResult, ObservationKey, PostAction, ScanSummary, ScannedFile,
    WatchLedger, MAX_IMPORT_HISTORY,
};

fn key(root: &str, relative_path: &str) -> ObservationKey {
    ObservationKey { root: root.to_string(), relative_path: relative_path.to_string() }
}

fn version(length: u64) -> FileFingerprint {
    FileFingerprint { length, modified_nanos: 5, inode: 9 }
}

fn result(path: &str, outcome: ImportOutcome) -> ImportResult {
    let attempt = match outcome {
        ImportOutcome::Imported => Ok(inserted()),
        ImportOutcome::Duplicate => Ok(TorrentAddMutationOutcome::Duplicate { hash: hash() }),
        ImportOutcome::PermanentFailure => Err(CoreError::Parse("broken".to_string())),
        ImportOutcome::TransientFailure => Err(CoreError::Storage("busy".to_string())),
    };
    let error = attempt.as_ref().err().map(|_| "failed".to_string());
    import_result(path.to_string(), &judge_watch_attempt(None, &attempt), error, None)
}

fn inserted() -> TorrentAddMutationOutcome {
    TorrentAddMutationOutcome::Inserted { hash: hash(), state: TorrentState::Queued }
}

fn hash() -> InfoHash {
    InfoHash::from_bytes(&[3; 20])
}

fn scan(ledger: &mut WatchLedger, files: &[(&str, &str, u64)], roots: &[&str]) -> Vec<String> {
    let roots: Vec<String> = roots.iter().map(|root| root.to_string()).collect();
    ledger.begin_scan(&roots);
    let mut ripe = Vec::new();
    for (root, name, length) in files {
        if ledger.observe_watch_file(&key(root, name), version(*length)) {
            ripe.push(name.to_string());
        }
    }
    ledger.end_scan(&ScanSummary {
        scanned: roots.clone(),
        roots,
        incomplete: Vec::new(),
        seen: files.iter().map(|(root, name, _)| key(root, name)).collect(),
    });
    ripe
}

#[test]
fn watch_partial_copy_and_read_time_change_reset_without_terminal_result() {
    let mut ledger = WatchLedger::new();
    let name = "a-partial.torrent";
    assert!(scan(&mut ledger, &[("/w", name, 10)], &["/w"]).is_empty());
    assert!(scan(&mut ledger, &[("/w", name, 20)], &["/w"]).is_empty());
    assert_eq!(scan(&mut ledger, &[("/w", name, 20)], &["/w"]), vec![name]);
    let done = result("/w/a-partial.torrent", ImportOutcome::Imported);
    ledger.finish_watch_attempt(&key("/w", name), version(20), done);
    assert_eq!(ledger.imports.len(), 1);

    let changing = "z-changing.torrent";
    let files = [("/w", name, 20), ("/w", changing, 30)];
    assert!(scan(&mut ledger, &files, &["/w"]).is_empty());
    assert_eq!(scan(&mut ledger, &files, &["/w"]), vec![changing]);
    assert_eq!(changed_fingerprint(version(30), version(44)), Some(version(44)));
    ledger.note_changed_watch_file(&key("/w", changing), version(44));
    assert_eq!(ledger.imports.len(), 1);

    let files = [("/w", name, 20), ("/w", changing, 44)];
    assert_eq!(scan(&mut ledger, &files, &["/w"]), vec![changing]);
    let done = result("/w/z-changing.torrent", ImportOutcome::Imported);
    ledger.finish_watch_attempt(&key("/w", changing), version(44), done);
    assert_eq!(ledger.imports.len(), 2);
    assert!(ledger.imports.iter().all(|result| result.success));
}

#[test]
fn watch_leave_processes_each_fingerprint_once_and_status_excludes_it() {
    let mut ledger = WatchLedger::new();
    let name = "leave.torrent";
    let file = |length: u64| vec![ScannedFile { key: key("/w", name), fingerprint: version(length) }];
    scan(&mut ledger, &[("/w", name, 10)], &["/w"]);
    assert_eq!(ledger.pending_torrent_files(&file(10)), 1);
    assert!(ledger.imports.is_empty());
    assert_eq!(scan(&mut ledger, &[("/w", name, 10)], &["/w"]), vec![name]);
    let done = result("/w/leave.torrent", ImportOutcome::Imported);
    ledger.finish_watch_attempt(&key("/w", name), version(10), done);
    assert!(scan(&mut ledger, &[("/w", name, 10)], &["/w"]).is_empty());
    assert_eq!(ledger.imports.len(), 1);
    assert_eq!(ledger.pending_torrent_files(&file(10)), 0);

    assert!(scan(&mut ledger, &[("/w", name, 25)], &["/w"]).is_empty());
    assert_eq!(ledger.imports.len(), 1);
    assert_eq!(ledger.pending_torrent_files(&file(25)), 1);
    assert_eq!(scan(&mut ledger, &[("/w", name, 25)], &["/w"]), vec![name]);
    let done = result("/w/leave.torrent", ImportOutcome::Imported);
    ledger.finish_watch_attempt(&key("/w", name), version(25), done);
    assert!(scan(&mut ledger, &[("/w", name, 25)], &["/w"]).is_empty());
    assert_eq!(ledger.imports.len(), 2);
    assert_eq!(ledger.pending_torrent_files(&file(25)), 0);
}

#[test]
fn watch_restart_duplicate_runs_success_action_once_without_mutation() {
    let attempt =
        judge_watch_attempt(Some(hash()), &Ok(TorrentAddMutationOutcome::Duplicate { hash: hash() }));
    assert_eq!(attempt.outcome, ImportOutcome::Duplicate);
    assert_eq!(attempt.action, Some(PostAction::AfterImport));
    let shown = import_result("/w/duplicate.torrent".to_string(), &attempt, None, None);
    assert!(shown.success);
    assert!(shown.duplicate);
    assert_eq!(shown.info_hash_hex, Some(hash().to_hex()));
    assert_eq!(shown.outcome.as_str(), "duplicate");
    assert_eq!(shown.post_action_error, None);
    assert_eq!(watch_event_name(&shown), "watch_folder_imported");
    let mut ledger = WatchLedger::new();
    let name = "duplicate.torrent";
    scan(&mut ledger, &[("/w", name, 10)], &["/w"]);
    assert!(ledger.imports.is_empty());
    assert_eq!(scan(&mut ledger, &[("/w", name, 10)], &["/w"]), vec![name]);
    ledger.finish_watch_attempt(&key("/w", name), version(10), shown);
    assert_eq!(ledger.imports.len(), 1);
    assert!(scan(&mut ledger, &[("/w", name, 10)], &["/w"]).is_empty());
    assert_eq!(ledger.imports.len(), 1);
}

#[test]
fn watch_permanent_failure_moves_while_transient_stays_and_retries() {
    let permanent =
        judge_watch_attempt(None, &Err(CoreError::MalformedTorrent("bad".to_string())));
    assert_eq!(permanent.outcome, ImportOutcome::PermanentFailure);
    assert_eq!(permanent.action, Some(PostAction::AfterFailure));
    assert_eq!(permanent.info_hash, None);
    let transient =
        judge_watch_attempt(Some(hash()), &Err(CoreError::Storage("busy".to_string())));
    assert_eq!(transient.outcome, ImportOutcome::TransientFailure);
    assert_eq!(transient.action, None);
    assert_eq!(transient.info_hash, Some(hash()));

    let mut ledger = WatchLedger::new();
    let files = [("/w", "a-bad.torrent", 10), ("/w", "b-good.torrent", 10)];
    assert!(scan(&mut ledger, &files, &["/w"]).is_empty());
    assert_eq!(scan(&mut ledger, &files, &["/w"]), vec!["a-bad.torrent", "b-good.torrent"]);
    let failed = result("/w/a-bad.torrent", ImportOutcome::PermanentFailure);
    assert_eq!(watch_event_name(&failed), "watch_folder_failed");
    assert_eq!(failed.outcome.as_str(), "permanent_failure");
    ledger.finish_watch_attempt(&key("/w", "a-bad.torrent"), version(10), failed);
    let busy = result("/w/b-good.torrent", ImportOutcome::TransientFailure);
    assert_eq!(watch_event_name(&busy), "watch_folder_failed");
    assert_eq!(busy.outcome.as_str(), "transient_failure");
    ledger.finish_watch_attempt(&key("/w", "b-good.torrent"), version(10), busy);
    assert_eq!(ledger.imports.len(), 2);
    assert_eq!(ledger.imports[0].outcome, ImportOutcome::PermanentFailure);
    assert_eq!(ledger.imports[1].outcome, ImportOutcome::TransientFailure);
    assert_eq!(scan(&mut ledger, &files, &["/w"]), vec!["b-good.torrent"]);
    let done = result("/w/b-good.torrent", ImportOutcome::Imported);
    ledger.finish_watch_attempt(&key("/w", "b-good.torrent"), version(10), done);
    assert_eq!(ledger.imports.len(), 3);
    assert_eq!(ledger.imports[2].outcome, ImportOutcome::Imported);
}

#[test]
fn watch_destination_collision_preserves_both_files_and_processes_once() {
    let attempt =
        judge_watch_attempt(Some(hash()), &Ok(inserted()));
    let shown = import_result(
        "/w/collision.torrent".to_string(),
        &attempt,
        None,
        Some("destination exists".to_string()),
    );
    assert_eq!(shown.outcome, ImportOutcome::Imported);
    assert_eq!(shown.outcome.as_str(), "imported");
    assert!(shown.success);
    assert!(shown.post_action_error.is_some());
    let mut ledger = WatchLedger::new();
    let files = [("/w", "collision.torrent", 10)];
    scan(&mut ledger, &files, &["/w"]);
    assert_eq!(scan(&mut ledger, &files, &["/w"]).len(), 1);
    ledger.finish_watch_attempt(&key("/w", "collision.torrent"), version(10), shown);
    assert!(scan(&mut ledger, &files, &["/w"]).is_empty());
    assert_eq!(ledger.imports.len(), 1);
}

#[test]
fn watch_observations_prune_disappeared_files_and_removed_roots() {
    let mut ledger = WatchLedger::new();
    scan(&mut ledger, &[("/w", "observed.torrent", 10)], &["/w"]);
    assert_eq!(ledger.observations.len(), 1);
    scan(&mut ledger, &[], &["/w"]);
    assert!(ledger.observations.is_empty());
    scan(&mut ledger, &[("/w", "observed.torrent", 11)], &["/w"]);
    assert_eq!(ledger.observations.len(), 1);
    scan(&mut ledger, &[], &[]);
    assert!(ledger.observations.is_empty());
}

#[test]
fn overlapping_watch_roots_have_distinct_composite_observation_keys() {
    let mut ledger = WatchLedger::new();
    let files = [("/w", "nested/shared.torrent", 10), ("/w/nested", "shared.torrent", 10)];
    scan(&mut ledger, &files, &["/w", "/w/nested"]);
    assert_eq!(ledger.observations.len(), 2);
    assert_ne!(ledger.observations[0].key.root, ledger.observations[1].key.root);
}

#[test]
fn concurrent_manual_watch_scans_produce_one_terminal_result() {
    let mut ledger = WatchLedger::new();
    let files = [("/w", "single.torrent", 10)];
    scan(&mut ledger, &files, &["/w"]);
    assert_eq!(scan(&mut ledger, &files, &["/w"]).len(), 1);
    let done = result("/w/single.torrent", ImportOutcome::Imported);
    ledger.finish_watch_attempt(&key("/w", "single.torrent"), version(10), done);
    assert!(scan(&mut ledger, &files, &["/w"]).is_empty());
    assert_eq!(ledger.imports.len(), 1);
}

#[test]
fn incomplete_watch_root_scan_retains_prior_observations() {
    let mut ledger = WatchLedger::new();
    let files = [("/w", "retained.torrent", 10)];
    scan(&mut ledger, &files, &["/w"]);
    assert_eq!(ledger.observations.len(), 1);
    let roots = vec!["/w".to_string()];
    ledger.begin_scan(&roots);
    ledger.end_scan(&ScanSummary {
        roots: roots.clone(),
        scanned: Vec::new(),
        incomplete: roots,
        seen: Vec::new(),
    });
    assert_eq!(ledger.observations.len(), 1);
    assert_eq!(scan(&mut ledger, &files, &["/w"]), vec!["retained.torrent"]);
    let done = result("/w/retained.torrent", ImportOutcome::Imported);
    ledger.finish_watch_attempt(&key("/w", "retained.torrent"), version(10), done);
    assert_eq!(ledger.imports.len(), 1);
}

#[test]
fn watch_history_evicts_oldest_entry_at_ten_thousand_and_one() {
    let mut ledger = WatchLedger::new();
    for index in 0..=MAX_IMPORT_HISTORY {
        ledger.record_watch_import(ImportResult {
            path: format!("/watch/{index}.torrent"),
            success: false,
            info_hash_hex: None,
            error: Some("generated history entry".to_string()),
            duplicate: false,
            post_action_error: None,
            outcome: ImportOutcome::TransientFailure,
        });
    }
    assert_eq!(ledger.imports.len(), MAX_IMPORT_HISTORY);
    assert_eq!(ledger.imports.first().unwrap().path, "/watch/1.torrent");
    assert_eq!(
        ledger.imports.last().unwrap().path,
        format!("/watch/{}.torrent", MAX_IMPORT_HISTORY)
    );
}

#[test]
fn the_newest_result_of_a_folder_is_shown() {
    let mut ledger = WatchLedger::new();
    ledger.record_watch_import(result("/w/one.torrent", ImportOutcome::Imported));
    ledger.record_watch_import(result("/w/two.torrent", ImportOutcome::Duplicate));
    ledger.record_watch_import(result("/other/three.torrent", ImportOutcome::Imported));
    assert_eq!(ledger.last_result("/w").unwrap().path, "/w/two.torrent");
    assert!(ledger.last_result("/none").is_none());
}

#[test]
fn an_unchanged_version_is_not_reported_as_changed() {
    assert_eq!(changed_fingerprint(version(3), version(3)), None);
}
