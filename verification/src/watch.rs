//! Watched folders: which files are ripe to be taken in, and what became of those that were.
use crate::admission::TorrentAddMutationOutcome;
use crate::error::{is_permanent_watch_error, CoreError};
use crate::hash::InfoHash;
use crate::paths::split_components;
use crate::text::same_text;
use vstd::prelude::*;

verus! {

/// How many results are remembered.
pub const MAX_IMPORT_HISTORY: usize = 10_000;

/// What tells one version of a file from another.
#[derive(Clone, Copy, PartialEq, Eq, Structural, Debug)]
pub struct FileFingerprint {
    pub length: u64,
    pub modified_nanos: u64,
    pub inode: u64,
}

/// A file in a watched folder.
#[derive(Debug)]
pub struct ObservationKey {
    pub root: String,
    pub relative_path: String,
}

/// A file in a watched folder as a value.
pub struct KeyView {
    pub root: Seq<char>,
    pub relative_path: Seq<char>,
}

impl View for ObservationKey {
    type V = KeyView;

    open spec fn view(&self) -> KeyView {
        KeyView { root: self.root@, relative_path: self.relative_path@ }
    }
}

impl Clone for ObservationKey {
    fn clone(&self) -> (copy: ObservationKey)
        ensures
            copy == *self,
    {
        ObservationKey { root: self.root.clone(), relative_path: self.relative_path.clone() }
    }
}

/// What was seen of a file.
#[derive(Clone, Copy, PartialEq, Eq, Structural, Debug)]
pub struct WatchObservation {
    pub fingerprint: FileFingerprint,
    /// How many scans in a row found this version.
    pub stable_scans: usize,
    /// The version that was dealt with for good.
    pub processed_fingerprint: Option<FileFingerprint>,
}

/// A version that was seen for the first time.
pub open spec fn first_sight(fingerprint: FileFingerprint) -> WatchObservation {
    WatchObservation { fingerprint, stable_scans: 1, processed_fingerprint: None }
}

/// What is known of a file after a scan found it.
pub open spec fn seen_again(
    before: Option<WatchObservation>,
    fingerprint: FileFingerprint,
) -> WatchObservation {
    match before {
        Some(observation) => if observation.fingerprint == fingerprint {
            WatchObservation {
                stable_scans: if observation.stable_scans < usize::MAX {
                    (observation.stable_scans + 1) as usize
                } else {
                    usize::MAX
                },
                ..observation
            }
        } else {
            first_sight(fingerprint)
        },
        None => first_sight(fingerprint),
    }
}

/// The version was found by two scans in a row and was not dealt with yet.
pub open spec fn is_ripe(observation: WatchObservation) -> bool {
    observation.stable_scans >= 2 && observation.processed_fingerprint != Some(
        observation.fingerprint,
    )
}

/// How taking a file in went.
#[derive(Clone, Copy, PartialEq, Eq, Structural, Debug)]
pub enum ImportOutcome {
    Imported,
    Duplicate,
    PermanentFailure,
    TransientFailure,
}

impl ImportOutcome {
    /// The name of the outcome.
    pub fn as_str(&self) -> (name: &'static str)
        ensures
            name@ == match self {
                ImportOutcome::Imported => "imported"@,
                ImportOutcome::Duplicate => "duplicate"@,
                ImportOutcome::PermanentFailure => "permanent_failure"@,
                ImportOutcome::TransientFailure => "transient_failure"@,
            },
    {
        match self {
            ImportOutcome::Imported => "imported",
            ImportOutcome::Duplicate => "duplicate",
            ImportOutcome::PermanentFailure => "permanent_failure",
            ImportOutcome::TransientFailure => "transient_failure",
        }
    }

    /// The torrent is there, now or already.
    pub open spec fn succeeded(self) -> bool {
        self == ImportOutcome::Imported || self == ImportOutcome::Duplicate
    }
}

/// The outcome that an attempt counts as.
pub open spec fn attempt_outcome(result: Result<TorrentAddMutationOutcome, CoreError>) -> ImportOutcome {
    match result {
        Ok(TorrentAddMutationOutcome::Inserted { .. }) => ImportOutcome::Imported,
        Ok(TorrentAddMutationOutcome::Duplicate { .. }) => ImportOutcome::Duplicate,
        Err(error) => if error@.kind == crate::error::ErrorKind::Bencode || error@.kind
            == crate::error::ErrorKind::MalformedTorrent || error@.kind
            == crate::error::ErrorKind::InvalidInfoHash || error@.kind
            == crate::error::ErrorKind::Parse {
            ImportOutcome::PermanentFailure
        } else {
            ImportOutcome::TransientFailure
        },
    }
}

/// What is done with a file that was dealt with.
#[derive(Clone, Copy, PartialEq, Eq, Structural, Debug)]
pub enum PostAction {
    AfterImport,
    AfterFailure,
}

/// What is remembered of an attempt.
#[derive(Debug)]
pub struct ImportResult {
    pub path: String,
    pub success: bool,
    pub info_hash_hex: Option<String>,
    pub error: Option<String>,
    pub duplicate: bool,
    pub post_action_error: Option<String>,
    pub outcome: ImportOutcome,
}

impl Clone for ImportResult {
    fn clone(&self) -> (copy: ImportResult)
        ensures
            copy == *self,
    {
        ImportResult {
            path: self.path.clone(),
            success: self.success,
            info_hash_hex: match &self.info_hash_hex {
                Some(hex) => Some(hex.clone()),
                None => None,
            },
            error: match &self.error {
                Some(error) => Some(error.clone()),
                None => None,
            },
            duplicate: self.duplicate,
            post_action_error: match &self.post_action_error {
                Some(error) => Some(error.clone()),
                None => None,
            },
            outcome: self.outcome,
        }
    }
}

/// An attempt that ended.
#[derive(Debug)]
pub struct Attempt {
    pub outcome: ImportOutcome,
    /// What is to be done with the file.
    pub action: Option<PostAction>,
    pub info_hash: Option<InfoHash>,
}

/// What is to be done with the file after an attempt.
pub open spec fn action_after(outcome: ImportOutcome) -> Option<PostAction> {
    match outcome {
        ImportOutcome::Imported | ImportOutcome::Duplicate => Some(PostAction::AfterImport),
        ImportOutcome::PermanentFailure => Some(PostAction::AfterFailure),
        ImportOutcome::TransientFailure => None,
    }
}

/// Judges an attempt to take a file in. The first argument is the torrent that the file holds,
/// where that is known.
pub fn judge_watch_attempt(
    parsed_hash: Option<InfoHash>,
    result: &Result<TorrentAddMutationOutcome, CoreError>,
) -> (attempt: Attempt)
    ensures
        attempt.outcome == attempt_outcome(*result),
        attempt.action == action_after(attempt.outcome),
        attempt.info_hash == match *result {
            Ok(TorrentAddMutationOutcome::Inserted { hash, .. }) => Some(hash),
            Ok(TorrentAddMutationOutcome::Duplicate { hash }) => Some(hash),
            Err(_) => parsed_hash,
        },
{
    match result {
        Ok(TorrentAddMutationOutcome::Inserted { hash, .. }) => Attempt {
            outcome: ImportOutcome::Imported,
            action: Some(PostAction::AfterImport),
            info_hash: Some(*hash),
        },
        Ok(TorrentAddMutationOutcome::Duplicate { hash }) => Attempt {
            outcome: ImportOutcome::Duplicate,
            action: Some(PostAction::AfterImport),
            info_hash: Some(*hash),
        },
        Err(error) => if is_permanent_watch_error(error) {
            Attempt {
                outcome: ImportOutcome::PermanentFailure,
                action: Some(PostAction::AfterFailure),
                info_hash: parsed_hash,
            }
        } else {
            Attempt {
                outcome: ImportOutcome::TransientFailure,
                action: None,
                info_hash: parsed_hash,
            }
        },
    }
}

/// What is remembered of an attempt.
pub fn import_result(
    path: String,
    attempt: &Attempt,
    error: Option<String>,
    post_action_error: Option<String>,
) -> (result: ImportResult)
    ensures
        result == (ImportResult {
            path,
            success: attempt.outcome.succeeded(),
            info_hash_hex: result.info_hash_hex,
            error,
            duplicate: attempt.outcome == ImportOutcome::Duplicate,
            post_action_error,
            outcome: attempt.outcome,
        }),
        crate::config::text_of(result.info_hash_hex) == match attempt.info_hash {
            Some(hash) => Some(crate::hash::hex(hash)),
            None => None,
        },
{
    ImportResult {
        path,
        success: matches!(attempt.outcome, ImportOutcome::Imported | ImportOutcome::Duplicate),
        info_hash_hex: match attempt.info_hash {
            Some(hash) => Some(hash.to_hex()),
            None => None,
        },
        error,
        duplicate: matches!(attempt.outcome, ImportOutcome::Duplicate),
        post_action_error,
        outcome: attempt.outcome,
    }
}

/// The name of the event that tells of an attempt.
pub fn watch_event_name(result: &ImportResult) -> (name: &'static str)
    ensures
        name@ == if result.success {
            "watch_folder_imported"@
        } else {
            "watch_folder_failed"@
        },
{
    if result.success {
        "watch_folder_imported"
    } else {
        "watch_folder_failed"
    }
}

/// The version of a file that differs from the expected one, if it does.
pub fn changed_fingerprint(expected: FileFingerprint, found: FileFingerprint) -> (changed: Option<
    FileFingerprint,
>)
    ensures
        changed == if found == expected {
            None
        } else {
            Some(found)
        },
{
    if found == expected {
        None
    } else {
        Some(found)
    }
}

/// A file and what was seen of it.
#[derive(Debug)]
pub struct Observed {
    pub key: ObservationKey,
    pub seen: WatchObservation,
}

/// What is known of watched folders.
#[derive(Debug)]
pub struct WatchLedger {
    pub observations: Vec<Observed>,
    pub imports: Vec<ImportResult>,
}

/// A list holds a file.
pub open spec fn lists_file(observations: Seq<Observed>, key: KeyView) -> bool {
    exists|k: int| 0 <= k < observations.len() && (#[trigger] observations[k]).key@ == key
}

/// Where a list holds a file.
pub open spec fn place_of_file(observations: Seq<Observed>, key: KeyView) -> int {
    choose|k: int| 0 <= k < observations.len() && (#[trigger] observations[k]).key@ == key
}

/// No file is listed twice.
pub open spec fn files_differ(observations: Seq<Observed>) -> bool {
    forall|i: int, k: int|
        0 <= i < k < observations.len() ==> (#[trigger] observations[i]).key@ != (
        #[trigger] observations[k]).key@
}

/// What was seen of each file of a list.
pub open spec fn observation_map(observations: Seq<Observed>) -> Map<KeyView, WatchObservation> {
    Map::new(
        |key: KeyView| lists_file(observations, key),
        |key: KeyView| observations[place_of_file(observations, key)].seen,
    )
}

/// What is known of watched folders as a value.
pub struct LedgerView {
    pub observations: Map<KeyView, WatchObservation>,
    pub imports: Seq<ImportResult>,
}

impl View for WatchLedger {
    type V = LedgerView;

    open spec fn view(&self) -> LedgerView {
        LedgerView {
            observations: observation_map(self.observations@),
            imports: self.imports@,
        }
    }
}

proof fn lemma_file_place(observations: Seq<Observed>, k: int)
    requires
        files_differ(observations),
        0 <= k < observations.len(),
    ensures
        observation_map(observations).dom().contains(observations[k].key@),
        place_of_file(observations, observations[k].key@) == k,
        observation_map(observations)[observations[k].key@] == observations[k].seen,
{
    let place = place_of_file(observations, observations[k].key@);
    assert(observations[place].key@ == observations[k].key@);
}

proof fn lemma_file_changed(before: Seq<Observed>, after: Seq<Observed>, at: int)
    requires
        files_differ(before),
        0 <= at < before.len(),
        after.len() == before.len(),
        after[at].key == before[at].key,
        forall|k: int| 0 <= k < before.len() && k != at ==> #[trigger] after[k] == before[k],
    ensures
        files_differ(after),
        observation_map(after) == observation_map(before).insert(before[at].key@, after[at].seen),
{
    assert forall|k: int| 0 <= k < after.len() implies (#[trigger] after[k]).key
        == before[k].key by {}
    assert forall|i: int, k: int| 0 <= i < k < after.len() implies (#[trigger] after[i]).key@ != (
    #[trigger] after[k]).key@ by {
        assert(before[i].key@ != before[k].key@);
    }
    assert forall|key: KeyView| true implies #[trigger] lists_file(after, key) == lists_file(
        before,
        key,
    ) by {
        if lists_file(before, key) {
            assert(after[place_of_file(before, key)].key@ == key);
        }
        if lists_file(after, key) {
            assert(before[place_of_file(after, key)].key@ == key);
        }
    }
    lemma_file_place(after, at);
    assert forall|key: KeyView| lists_file(before, key) && key != before[at].key@ implies
        observation_map(after)[key] == observation_map(before)[key] by {
        let k = place_of_file(before, key);
        assert(after[k] == before[k]);
        lemma_file_place(before, k);
        lemma_file_place(after, k);
    }
    assert(observation_map(after) =~= observation_map(before).insert(
        before[at].key@,
        after[at].seen,
    ));
}

proof fn lemma_file_added(before: Seq<Observed>, added: Observed)
    requires
        files_differ(before),
        !lists_file(before, added.key@),
    ensures
        files_differ(before.push(added)),
        observation_map(before.push(added)) == observation_map(before).insert(
            added.key@,
            added.seen,
        ),
{
    let after = before.push(added);
    assert forall|i: int, k: int| 0 <= i < k < after.len() implies (#[trigger] after[i]).key@ != (
    #[trigger] after[k]).key@ by {
        assert(after[i] == before[i]);
    }
    assert forall|key: KeyView| true implies #[trigger] lists_file(after, key) == (lists_file(
        before,
        key,
    ) || key == added.key@) by {
        if lists_file(before, key) {
            assert(after[place_of_file(before, key)].key@ == key);
        }
        assert(after[before.len() as int] == added);
        if lists_file(after, key) && key != added.key@ {
            assert(before[place_of_file(after, key)].key@ == key);
        }
    }
    lemma_file_place(after, before.len() as int);
    assert forall|key: KeyView| lists_file(before, key) implies observation_map(after)[key]
        == observation_map(before)[key] by {
        let k = place_of_file(before, key);
        assert(after[k] == before[k]);
        lemma_file_place(before, k);
        lemma_file_place(after, k);
    }
    assert(observation_map(after) =~= observation_map(before).insert(added.key@, added.seen));
}

fn holds(texts: &Vec<String>, text: &str) -> (found: bool)
    ensures
        found == crate::paths::lists_text(texts@, text@),
{
    let mut i: usize = 0;
    while i < texts.len()
        invariant
            i <= texts@.len(),
            forall|k: int| 0 <= k < i ==> (#[trigger] texts@[k])@ != text@,
        decreases texts@.len() - i,
    {
        if same_text(texts[i].as_str(), text) {
            assert(texts@[i as int]@ == text@);
            return true;
        }
        i = i + 1;
    }
    false
}

/// A file is among others.
pub open spec fn lists_key(keys: Seq<ObservationKey>, key: KeyView) -> bool {
    exists|k: int| 0 <= k < keys.len() && (#[trigger] keys[k])@ == key
}

fn same_key(a: &ObservationKey, b: &ObservationKey) -> (same: bool)
    ensures
        same == (a@ == b@),
{
    same_text(a.root.as_str(), b.root.as_str()) && same_text(
        a.relative_path.as_str(),
        b.relative_path.as_str(),
    )
}

fn holds_key(keys: &Vec<ObservationKey>, key: &ObservationKey) -> (found: bool)
    ensures
        found == lists_key(keys@, key@),
{
    let mut i: usize = 0;
    while i < keys.len()
        invariant
            i <= keys@.len(),
            forall|k: int| 0 <= k < i ==> (#[trigger] keys@[k])@ != key@,
        decreases keys@.len() - i,
    {
        if same_key(&keys[i], key) {
            assert(keys@[i as int]@ == key@);
            return true;
        }
        i = i + 1;
    }
    false
}

/// What a scan of the folders found.
#[derive(Debug)]
pub struct ScanSummary {
    /// The folders that are configured.
    pub roots: Vec<String>,
    /// The folders that were read.
    pub scanned: Vec<String>,
    /// The folders that could not be read.
    pub incomplete: Vec<String>,
    /// The files that were found.
    pub seen: Vec<ObservationKey>,
}

/// Whether a file is remembered when a scan ends: always where its folder could not be read or
/// was not scanned, else if it was found.
pub open spec fn outlives_scan(summary: ScanSummary, key: KeyView) -> bool {
    crate::paths::lists_text(summary.incomplete@, key.root) || !crate::paths::lists_text(summary.scanned@, key.root) || lists_key(
        summary.seen@,
        key,
    )
}

impl WatchLedger {
    /// No file is listed twice.
    pub open spec fn wf(&self) -> bool {
        files_differ(self.observations@)
    }

    /// A ledger that knows nothing.
    pub fn new() -> (ledger: WatchLedger)
        ensures
            ledger.wf(),
            ledger@ == (LedgerView {
                observations: Map::<KeyView, WatchObservation>::empty(),
                imports: Seq::<ImportResult>::empty(),
            }),
    {
        let ledger: WatchLedger = WatchLedger { observations: Vec::new(), imports: Vec::new() };
        assert(ledger@.observations =~= Map::<KeyView, WatchObservation>::empty());
        ledger
    }

    fn position(&self, key: &ObservationKey) -> (position: Option<usize>)
        ensures
            position matches Some(k) ==> k < self.observations@.len()
                && self.observations@[k as int].key@ == key@,
            position.is_none() ==> !lists_file(self.observations@, key@),
    {
        let mut i: usize = 0;
        while i < self.observations.len()
            invariant
                i <= self.observations@.len(),
                forall|k: int| 0 <= k < i ==> (#[trigger] self.observations@[k]).key@ != key@,
            decreases self.observations@.len() - i,
        {
            if same_key(&self.observations[i].key, key) {
                return Some(i);
            }
            i = i + 1;
        }
        None
    }

    /// Takes in that a scan found a file, and returns whether the file is ripe to be taken in.
    pub fn observe_watch_file(&mut self, key: &ObservationKey, fingerprint: FileFingerprint) -> (
        ripe: bool)
        requires
            old(self).wf(),
        ensures
            final(self).wf(),
            ({
                let before = old(self)@.observations;
                let after = seen_again(
                    if before.dom().contains(key@) {
                        Some(before[key@])
                    } else {
                        None
                    },
                    fingerprint,
                );
                &&& final(self)@ == (LedgerView {
                    observations: before.insert(key@, after),
                    ..old(self)@
                })
                &&& ripe == is_ripe(after)
            }),
    {
        match self.position(key) {
            Some(position) => {
                let ghost before = self.observations@;
                proof {
                    lemma_file_place(before, position as int);
                }
                let mut seen: WatchObservation = self.observations[position].seen;
                if seen.fingerprint == fingerprint {
                    if seen.stable_scans < usize::MAX {
                        seen.stable_scans = seen.stable_scans + 1;
                    }
                } else {
                    seen = WatchObservation {
                        fingerprint,
                        stable_scans: 1,
                        processed_fingerprint: None,
                    };
                }
                self.observations[position].seen = seen;
                proof {
                    lemma_file_changed(before, self.observations@, position as int);
                }
                seen.stable_scans >= 2 && seen.processed_fingerprint != Some(fingerprint)
            },
            None => {
                let ghost before = self.observations@;
                let added: Observed = Observed {
                    key: key.clone(),
                    seen: WatchObservation {
                        fingerprint,
                        stable_scans: 1,
                        processed_fingerprint: None,
                    },
                };
                proof {
                    lemma_file_added(before, added);
                }
                self.observations.push(added);
                false
            },
        }
    }

    /// Takes in that a file changed while it was read.
    pub fn note_changed_watch_file(&mut self, key: &ObservationKey, fingerprint: FileFingerprint)
        requires
            old(self).wf(),
        ensures
            final(self).wf(),
            final(self)@ == (LedgerView {
                observations: if old(self)@.observations.dom().contains(key@) {
                    old(self)@.observations.insert(key@, first_sight(fingerprint))
                } else {
                    old(self)@.observations
                },
                ..old(self)@
            }),
    {
        match self.position(key) {
            Some(position) => {
                let ghost before = self.observations@;
                proof {
                    lemma_file_place(before, position as int);
                }
                self.observations[position].seen = WatchObservation {
                    fingerprint,
                    stable_scans: 1,
                    processed_fingerprint: None,
                };
                proof {
                    lemma_file_changed(before, self.observations@, position as int);
                }
            },
            None => {},
        }
    }

    /// Takes in how an attempt on a version of a file ended: but for a failure that may pass, the
    /// version is dealt with for good. The result is remembered.
    pub fn finish_watch_attempt(
        &mut self,
        key: &ObservationKey,
        fingerprint: FileFingerprint,
        result: ImportResult,
    )
        requires
            old(self).wf(),
        ensures
            final(self).wf(),
            final(self)@ == (LedgerView {
                observations: settled(old(self)@.observations, key@, fingerprint, result.outcome),
                imports: remembered(old(self)@.imports, result),
            }),
    {
        let processed: bool = !matches!(result.outcome, ImportOutcome::TransientFailure);
        if processed {
            match self.position(key) {
                Some(position) => {
                    let ghost before = self.observations@;
                    proof {
                        lemma_file_place(before, position as int);
                    }
                    let mut seen: WatchObservation = self.observations[position].seen;
                    if seen.fingerprint == fingerprint {
                        seen.processed_fingerprint = Some(fingerprint);
                        self.observations[position].seen = seen;
                        proof {
                            lemma_file_changed(before, self.observations@, position as int);
                        }
                    }
                },
                None => {},
            }
        }
        self.record_watch_import(result);
    }

    /// Remembers a result, and forgets the oldest where there are too many.
    pub fn record_watch_import(&mut self, result: ImportResult)
        requires
            old(self).wf(),
        ensures
            final(self).wf(),
            final(self)@ == (LedgerView {
                imports: remembered(old(self)@.imports, result),
                ..old(self)@
            }),
    {
        let ghost before = self.imports@;
        let ghost mut dropped: int = 0;
        while self.imports.len() >= MAX_IMPORT_HISTORY
            invariant
                0 <= dropped <= before.len(),
                self.imports@ == before.skip(dropped),
                self.observations@ == old(self).observations@,
                dropped > 0 ==> before.len() - dropped + 1 >= MAX_IMPORT_HISTORY,
            decreases self.imports@.len(),
        {
            let _ = self.imports.remove(0);
            proof {
                dropped = dropped + 1;
            }
            assert(self.imports@ =~= before.skip(dropped));
        }
        self.imports.push(result);
        assert(self.imports@ =~= remembered(before, result));
    }

    fn retain(&mut self, first: Option<&Vec<String>>, last: Option<&ScanSummary>)
        requires
            old(self).wf(),
        ensures
            final(self).wf(),
            final(self).imports@ == old(self).imports@,
            final(self)@.observations == old(self)@.observations.restrict(
                Set::new(|key: KeyView| stays(first, last, key)),
            ),
    {
        let mut observations: Vec<Observed> = Vec::new();
        std::mem::swap(&mut self.observations, &mut observations);
        let ghost all = observations@;
        let ghost mut done: int = 0;
        assert(observation_map(self.observations@) =~= Map::<KeyView, WatchObservation>::empty());
        assert(observation_map(all.take(0)) =~= Map::<KeyView, WatchObservation>::empty());
        assert(observation_map(all.take(0)).restrict(
            Set::new(|key: KeyView| stays(first, last, key)),
        ) =~= Map::<KeyView, WatchObservation>::empty());
        for observed in it: observations
            invariant
                it.seq() == all,
                files_differ(all),
                files_differ(self.observations@),
                self.imports@ == old(self).imports@,
                forall|key: KeyView| #[trigger]
                    lists_file(self.observations@, key) ==> lists_file(
                        all.take(it.index() as int),
                        key,
                    ),
                observation_map(self.observations@) == observation_map(
                    all.take(it.index() as int),
                ).restrict(Set::new(|key: KeyView| stays(first, last, key))),
        {
            let ghost at = it.index() as int;
            let ghost kept = self.observations@;
            let ghost keep = Set::new(|key: KeyView| stays(first, last, key));
            let stay: bool = match first {
                Some(roots) => holds(roots, observed.key.root.as_str()),
                None => true,
            } && match last {
                Some(summary) => holds(&summary.incomplete, observed.key.root.as_str()) || !holds(
                    &summary.scanned,
                    observed.key.root.as_str(),
                ) || holds_key(&summary.seen, &observed.key),
                None => true,
            };
            proof {
                assert(stay == stays(first, last, observed.key@));
                assert(all.take(at + 1) =~= all.take(at).push(all[at]));
                if lists_file(all.take(at), observed.key@) {
                    let k = place_of_file(all.take(at), observed.key@);
                    assert(all[k].key@ == all[at].key@);
                }
                assert forall|i: int, k: int| 0 <= i < k < at implies (
                #[trigger] all.take(at)[i]).key@ != (#[trigger] all.take(at)[k]).key@ by {
                    assert(all[i].key@ != all[k].key@);
                }
                lemma_file_added(all.take(at), observed);
                if stay {
                    lemma_file_added(kept, observed);
                }
            }
            let ghost value = observed;
            if stay {
                self.observations.push(observed);
            }
            proof {
                let before = observation_map(all.take(at));
                let after = observation_map(all.take(at + 1));
                assert(after == before.insert(value.key@, value.seen));
                assert forall|key: KeyView| #[trigger]
                    lists_file(self.observations@, key) implies lists_file(
                    all.take(at + 1),
                    key,
                ) by {
                    assert(observation_map(self.observations@).dom().contains(key));
                    assert(after.dom().contains(key) || observation_map(kept).dom().contains(key));
                    if observation_map(kept).dom().contains(key) {
                        assert(lists_file(kept, key));
                        assert(lists_file(all.take(at), key));
                        assert(before.dom().contains(key));
                        assert(after.dom().contains(key));
                    }
                }
                assert(observation_map(self.observations@) =~= after.restrict(keep));
            }
        }
        assert(all.take(all.len() as int) =~= all);
    }

    /// Begins a scan: files of folders that are no longer watched are forgotten.
    pub fn begin_scan(&mut self, roots: &Vec<String>)
        requires
            old(self).wf(),
        ensures
            final(self).wf(),
            final(self)@ == (LedgerView {
                observations: old(self)@.observations.restrict(
                    Set::new(|key: KeyView| crate::paths::lists_text(roots@, key.root)),
                ),
                ..old(self)@
            }),
    {
        self.retain(Some(roots), None);
        assert(self@.observations =~= old(self)@.observations.restrict(
            Set::new(|key: KeyView| crate::paths::lists_text(roots@, key.root)),
        ));
    }

    /// Ends a scan: files that are gone are forgotten.
    pub fn end_scan(&mut self, summary: &ScanSummary)
        requires
            old(self).wf(),
        ensures
            final(self).wf(),
            final(self)@ == (LedgerView {
                observations: old(self)@.observations.restrict(
                    Set::new(|key: KeyView| outlives_scan(*summary, key)),
                ),
                ..old(self)@
            }),
    {
        self.retain(None, Some(summary));
        assert(self@.observations =~= old(self)@.observations.restrict(
            Set::new(|key: KeyView| outlives_scan(*summary, key)),
        ));
    }
}

/// Whether a file is kept at the beginning or the end of a scan.
pub open spec fn stays(
    first: Option<&Vec<String>>,
    last: Option<&ScanSummary>,
    key: KeyView,
) -> bool {
    &&& first matches Some(roots) ==> crate::paths::lists_text(roots@, key.root)
    &&& last matches Some(summary) ==> outlives_scan(*summary, key)
}

/// The results that are remembered after one more: the newest.
pub open spec fn remembered(imports: Seq<ImportResult>, result: ImportResult) -> Seq<ImportResult> {
    let all = imports.push(result);
    if all.len() > MAX_IMPORT_HISTORY {
        all.skip(all.len() - MAX_IMPORT_HISTORY)
    } else {
        all
    }
}

/// What is known of files after an attempt on a version of one.
pub open spec fn settled(
    observations: Map<KeyView, WatchObservation>,
    key: KeyView,
    fingerprint: FileFingerprint,
    outcome: ImportOutcome,
) -> Map<KeyView, WatchObservation> {
    if outcome != ImportOutcome::TransientFailure && observations.dom().contains(key)
        && observations[key].fingerprint == fingerprint {
        observations.insert(
            key,
            WatchObservation {
                processed_fingerprint: Some(fingerprint),
                ..observations[key]
            },
        )
    } else {
        observations
    }
}

/// A file is ripe only when a scan finds the version that the scan before found.
pub proof fn changed_files_are_not_ripe(
    before: Option<WatchObservation>,
    fingerprint: FileFingerprint,
)
    requires
        is_ripe(seen_again(before, fingerprint)),
    ensures
        before matches Some(observation) && observation.fingerprint == fingerprint,
{
}

/// A version that was dealt with for good is never ripe again, however often scans find it.
pub proof fn settled_files_are_not_tried_again(
    observations: Map<KeyView, WatchObservation>,
    key: KeyView,
    outcome: ImportOutcome,
    scans: nat,
)
    requires
        observations.dom().contains(key),
        outcome != ImportOutcome::TransientFailure,
    ensures
        !is_ripe(
            seen_often(
                settled(observations, key, observations[key].fingerprint, outcome)[key],
                observations[key].fingerprint,
                scans,
            ),
        ),
{
    lemma_settled_stays(
        settled(observations, key, observations[key].fingerprint, outcome)[key],
        observations[key].fingerprint,
        scans,
    );
}

/// What is known of a file after scans found the same version again and again.
pub open spec fn seen_often(
    observation: WatchObservation,
    fingerprint: FileFingerprint,
    scans: nat,
) -> WatchObservation
    decreases scans,
{
    if scans == 0 {
        observation
    } else {
        seen_again(
            Some(seen_often(observation, fingerprint, (scans - 1) as nat)),
            fingerprint,
        )
    }
}

proof fn lemma_settled_stays(
    observation: WatchObservation,
    fingerprint: FileFingerprint,
    scans: nat,
)
    requires
        observation.fingerprint == fingerprint,
        observation.processed_fingerprint == Some(fingerprint),
    ensures
        seen_often(observation, fingerprint, scans).fingerprint == fingerprint,
        seen_often(observation, fingerprint, scans).processed_fingerprint == Some(fingerprint),
    decreases scans,
{
    if scans > 0 {
        lemma_settled_stays(observation, fingerprint, (scans - 1) as nat);
    }
}

/// A file that a scan found, and its version.
#[derive(Debug)]
pub struct ScannedFile {
    pub key: ObservationKey,
    pub fingerprint: FileFingerprint,
}

/// Whether a file that was found is still to be dealt with.
pub open spec fn is_pending(observations: Map<KeyView, WatchObservation>) -> spec_fn(
    ScannedFile,
) -> bool {
    |file: ScannedFile|
        !(observations.dom().contains(file.key@) && observations[file.key@].fingerprint
            == file.fingerprint && observations[file.key@].processed_fingerprint == Some(
            file.fingerprint,
        ))
}

/// The path lies at or below a directory.
pub open spec fn lies_below(path: Seq<char>, root: Seq<char>) -> bool {
    let inner = crate::paths::components(path);
    let outer = crate::paths::components(root);
    &&& outer.len() <= inner.len()
    &&& inner.take(outer.len() as int) == outer
    &&& if crate::paths::is_absolute(root) {
        crate::paths::is_absolute(path)
    } else {
        !crate::paths::is_absolute(path) || outer.len() == 0
    }
}

impl WatchLedger {
    /// How many of the files that were found are still to be dealt with.
    pub fn pending_torrent_files(&self, files: &Vec<ScannedFile>) -> (count: usize)
        requires
            self.wf(),
        ensures
            count == crate::stats::count_of(files@, is_pending(self@.observations)),
    {
        let mut count: usize = 0;
        let mut i: usize = 0;
        assert(files@.take(0) =~= Seq::<ScannedFile>::empty());
        while i < files.len()
            invariant
                self.wf(),
                i <= files@.len(),
                count <= i,
                count == crate::stats::count_of(
                    files@.take(i as int),
                    is_pending(self@.observations),
                ),
            decreases files@.len() - i,
        {
            assert(files@.take(i + 1).drop_last() =~= files@.take(i as int));
            let file: &ScannedFile = &files[i];
            let pending: bool = match self.position(&file.key) {
                Some(position) => {
                    proof {
                        lemma_file_place(self.observations@, position as int);
                    }
                    let seen: WatchObservation = self.observations[position].seen;
                    !(seen.fingerprint == file.fingerprint) || seen.processed_fingerprint != Some(
                        file.fingerprint,
                    )
                },
                None => true,
            };
            if pending {
                count = count + 1;
            }
            i = i + 1;
        }
        assert(files@.take(i as int) =~= files@);
        count
    }

    /// The newest result for a file of a folder.
    pub fn last_result(&self, root: &str) -> (last: Option<ImportResult>)
        ensures
            last matches Some(result) ==> exists|k: int|
                0 <= k < self.imports@.len() && #[trigger] self.imports@[k] == result && lies_below(
                    result.path@,
                    root@,
                ) && forall|later: int|
                    k < later < self.imports@.len() ==> !lies_below(
                        (#[trigger] self.imports@[later]).path@,
                        root@,
                    ),
            last.is_none() ==> forall|k: int|
                0 <= k < self.imports@.len() ==> !lies_below(
                    (#[trigger] self.imports@[k]).path@,
                    root@,
                ),
    {
        let mut i: usize = self.imports.len();
        while i > 0
            invariant
                i <= self.imports@.len(),
                forall|k: int|
                    i <= k < self.imports@.len() ==> !lies_below(
                        (#[trigger] self.imports@[k]).path@,
                        root@,
                    ),
            decreases i,
        {
            i = i - 1;
            if path_lies_below(self.imports[i].path.as_str(), root) {
                return Some(self.imports[i].clone());
            }
        }
        None
    }
}

fn path_lies_below(path: &str, root: &str) -> (below: bool)
    ensures
        below == lies_below(path@, root@),
{
    let inner: Vec<String> = split_components(path);
    let outer: Vec<String> = split_components(root);
    let ghost inside = crate::paths::components(path@);
    let ghost outside = crate::paths::components(root@);
    assert(inner@.len() == inside.len()) by {
        assert(crate::config::texts_of(inner@).len() == inner@.len());
    }
    assert(outer@.len() == outside.len()) by {
        assert(crate::config::texts_of(outer@).len() == outer@.len());
    }
    if outer.len() > inner.len() {
        return false;
    }
    let mut i: usize = 0;
    while i < outer.len()
        invariant
            i <= outer@.len() <= inner@.len(),
            inside == crate::paths::components(path@),
            outside == crate::paths::components(root@),
            crate::config::texts_of(inner@) == inside,
            crate::config::texts_of(outer@) == outside,
            outer@.len() == outside.len(),
            inner@.len() == inside.len(),
            forall|k: int| 0 <= k < i ==> inside[k] == #[trigger] outside[k],
        decreases outer@.len() - i,
    {
        assert(inside[i as int] == inner@[i as int]@);
        assert(outside[i as int] == outer@[i as int]@);
        if !same_text(inner[i].as_str(), outer[i].as_str()) {
            assert(inside.take(outside.len() as int)[i as int] != outside[i as int]);
            return false;
        }
        i = i + 1;
    }
    assert(inside.take(outside.len() as int) =~= outside);
    if crate::paths::begins_at_root(root) {
        crate::paths::begins_at_root(path)
    } else {
        !crate::paths::begins_at_root(path) || outer.len() == 0
    }
}

/// A file is ripe once two scans in a row found the same version of it, unless that version was
/// dealt with. One sight is not enough, and a change starts the count anew.
pub proof fn files_ripen_by_standing_still(
    before: Option<WatchObservation>,
    first: FileFingerprint,
    second: FileFingerprint,
)
    requires
        before matches Some(observation) ==> observation.fingerprint != first,
    ensures
        !is_ripe(seen_again(before, first)),
        is_ripe(seen_again(Some(seen_again(before, first)), first)),
        second != first ==> !is_ripe(seen_again(Some(seen_again(before, first)), second)),
        seen_again(before, first).fingerprint == first,
        seen_again(before, first).stable_scans == 1,
{
}

/// Once a version was dealt with for good it is not ripe; after a failure that may pass it is
/// tried again. No other file is touched.
pub proof fn attempts_settle_their_file(
    observations: Map<KeyView, WatchObservation>,
    key: KeyView,
    outcome: ImportOutcome,
    other: KeyView,
)
    requires
        observations.dom().contains(key),
        other != key,
    ensures
        ({
            let fingerprint = observations[key].fingerprint;
            let after = settled(observations, key, fingerprint, outcome);
            &&& outcome == ImportOutcome::TransientFailure ==> after == observations
            &&& outcome != ImportOutcome::TransientFailure ==> !is_ripe(after[key])
                && after[key].fingerprint == fingerprint && after[key].processed_fingerprint
                == Some(fingerprint) && after[key].stable_scans == observations[key].stable_scans
            &&& after.dom() == observations.dom()
            &&& observations.dom().contains(other) ==> after[other] == observations[other]
        }),
        forall|changed: FileFingerprint|
            changed != observations[key].fingerprint ==> #[trigger] settled(
                observations,
                key,
                changed,
                outcome,
            ) == observations,
{
    assert(settled(observations, key, observations[key].fingerprint, outcome).dom()
        =~= observations.dom());
}

/// An attempt came to what its result says: taken in, known already, hopeless for a file that is no
/// torrent, and worth another try for every other error. A file that was taken in or known is
/// cleared away as imported, a hopeless one as failed, and one that is tried again stays.
pub proof fn attempts_are_judged_by_their_result(
    result: Result<TorrentAddMutationOutcome, CoreError>,
)
    ensures
        ({
            let outcome = attempt_outcome(result);
            &&& result matches Ok(TorrentAddMutationOutcome::Inserted { .. }) ==> outcome
                == ImportOutcome::Imported
            &&& result matches Ok(TorrentAddMutationOutcome::Duplicate { .. }) ==> outcome
                == ImportOutcome::Duplicate
            &&& result matches Err(error) ==> (error is Bencode || error is MalformedTorrent
                || error is InvalidInfoHash || error is Parse) ==> outcome
                == ImportOutcome::PermanentFailure
            &&& result matches Err(error) ==> (error is Storage || error is NetworkBlocked
                || error is Internal || error is InvalidConfig || error is NotFound
                || error is DuplicateTorrent || error is InvalidArgument) ==> outcome
                == ImportOutcome::TransientFailure
            &&& outcome.succeeded() == result.is_ok()
            &&& action_after(outcome).is_none() == (outcome == ImportOutcome::TransientFailure)
            &&& (action_after(outcome) == Some(PostAction::AfterImport)) == result.is_ok()
            &&& (action_after(outcome) == Some(PostAction::AfterFailure)) == (outcome
                == ImportOutcome::PermanentFailure)
        }),
{
    match result {
        Ok(TorrentAddMutationOutcome::Inserted { hash, state }) => {},
        Ok(TorrentAddMutationOutcome::Duplicate { hash }) => {},
        Err(error) => {},
    }
}

/// The newest results are remembered in order, ten thousand at most: the newest is the last, and
/// what is forgotten is the oldest.
pub proof fn the_newest_results_are_remembered(
    imports: Seq<ImportResult>,
    result: ImportResult,
    back: int,
)
    requires
        imports.len() <= 10_000,
    ensures
        ({
            let after = remembered(imports, result);
            &&& after.last() == result
            &&& after.len() <= 10_000
            &&& imports.len() < 10_000 ==> after == imports.push(result)
            &&& imports.len() == 10_000 ==> after.len() == 10_000
            &&& 0 < back < after.len() ==> after[after.len() - 1 - back] == imports[imports.len()
                - back]
        }),
{
}

/// A file is forgotten at the end of a scan only where its folder was scanned to the end and the
/// file was not found there.
pub proof fn only_missing_files_are_forgotten(summary: ScanSummary, key: KeyView)
    ensures
        ({
            let scanned = exists|k: int|
                0 <= k < summary.scanned@.len() && (#[trigger] summary.scanned@[k])@ == key.root;
            let broken = exists|k: int|
                0 <= k < summary.incomplete@.len() && (#[trigger] summary.incomplete@[k])@
                    == key.root;
            let seen = exists|k: int|
                0 <= k < summary.seen@.len() && (#[trigger] summary.seen@[k])@ == key;
            !outlives_scan(summary, key) <==> scanned && !broken && !seen
        }),
{
}

/// A file is pending unless just this version of it was dealt with.
pub proof fn pending_files_are_not_dealt_with(
    observations: Map<KeyView, WatchObservation>,
    file: ScannedFile,
)
    ensures
        !observations.dom().contains(file.key@) ==> is_pending(observations)(file),
        observations.dom().contains(file.key@) && observations[file.key@].processed_fingerprint
            != Some(file.fingerprint) ==> is_pending(observations)(file),
        observations.dom().contains(file.key@) && observations[file.key@].fingerprint
            == file.fingerprint && observations[file.key@].processed_fingerprint == Some(
            file.fingerprint,
        ) ==> !is_pending(observations)(file),
{
}

/// A path lies below itself and below every path that its components begin with; a path that begins
/// at the root does not lie below one that does not, unless that is empty.
pub proof fn paths_lie_below_their_beginnings(path: Seq<char>, root: Seq<char>, i: int)
    ensures
        lies_below(path, path),
        lies_below(path, root) && 0 <= i < crate::paths::components(root).len()
            ==> crate::paths::components(path).len() > i && crate::paths::components(path)[i]
            == crate::paths::components(root)[i],
        crate::paths::components(path).len() < crate::paths::components(root).len() ==> !lies_below(
            path,
            root,
        ),
        lies_below(path, root) && root.len() > 0 && root[0] == '/' ==> path.len() > 0 && path[0]
            == '/',
        lies_below(path, root) && lies_below(root, path) ==> crate::paths::components(path)
            == crate::paths::components(root),
{
    let inner = crate::paths::components(path);
    let outer = crate::paths::components(root);
    assert(inner.take(inner.len() as int) =~= inner);
    if lies_below(path, root) && 0 <= i < outer.len() {
        assert(inner.take(outer.len() as int)[i] == inner[i]);
    }
    if lies_below(path, root) && lies_below(root, path) {
        assert(inner.take(outer.len() as int) =~= inner);
    }
}

/// Finding the same version once more never lowers the count of sights, and forgets nothing of what
/// was done with it.
pub proof fn sights_add_up(observation: WatchObservation)
    ensures
        ({
            let after = seen_again(Some(observation), observation.fingerprint);
            &&& after.stable_scans >= observation.stable_scans
            &&& observation.stable_scans < usize::MAX ==> after.stable_scans
                == observation.stable_scans + 1
            &&& after.processed_fingerprint == observation.processed_fingerprint
            &&& after.fingerprint == observation.fingerprint
        }),
{
}

} // verus!
