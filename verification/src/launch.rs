//! The life of an engine task, from its start to its end.
use crate::clock::Tick;
use crate::config::Config;
use crate::effects::{Effect, TorrentEventKind};
use crate::engine::EngineState;
use crate::error::CoreError;
use crate::fleet::FleetView;
use crate::hash::InfoHash;
use crate::network::NetworkHealth;
use crate::runtime::DaemonRuntime;
use crate::start::{EngineStart, StartStep};
use crate::torrent::TorrentState;
use vstd::prelude::*;

verus! {

/// How an engine task ended.
#[derive(Debug)]
pub enum EngineEnd {
    /// The containment gate closed.
    Cancelled,
    /// It returned a report.
    Ended(EngineState),
    /// It returned an error, which is also given in words.
    Failed { error: CoreError, rendered: String },
}

/// The first refusal in a list of verdicts.
pub open spec fn first_refusal(verdicts: Seq<Option<String>>) -> Option<String>
    decreases verdicts.len(),
{
    if verdicts.len() == 0 {
        None
    } else {
        match verdicts[0] {
            Some(refusal) => Some(refusal),
            None => first_refusal(verdicts.skip(1)),
        }
    }
}

fn find_refusal(verdicts: &Vec<Option<String>>) -> (refusal: Option<&String>)
    ensures
        match refusal {
            Some(refusal) => first_refusal(verdicts@) == Some(*refusal),
            None => first_refusal(verdicts@).is_none(),
        },
{
    let mut i: usize = 0;
    assert(verdicts@.skip(0) =~= verdicts@);
    while i < verdicts.len()
        invariant
            i <= verdicts@.len(),
            first_refusal(verdicts@) == first_refusal(verdicts@.skip(i as int)),
        decreases verdicts@.len() - i,
    {
        assert(verdicts@.skip(i as int).skip(1) =~= verdicts@.skip(i + 1));
        if let Some(refusal) = &verdicts[i] {
            return Some(refusal);
        }
        i = i + 1;
    }
    None
}

/// An engine task ended as it did.
pub open spec fn task_ended(
    found: FleetView,
    fleet: FleetView,
    hash: InfoHash,
    needs_metadata: bool,
    end: EngineEnd,
    remove_completed: bool,
    now_seconds: u64,
    now: Tick,
    asked: Seq<Effect>,
    told: Seq<Effect>,
) -> bool {
    match end {
        EngineEnd::Cancelled => {
            &&& fleet == found.engine_cancelled(hash, needs_metadata)
            &&& told == asked
        },
        EngineEnd::Ended(result) => crate::engine::engine_finished(
            found,
            fleet,
            hash,
            result,
            remove_completed,
            now_seconds,
            now,
            asked,
            told,
        ),
        EngineEnd::Failed { error, rendered } => {
            &&& fleet == found.engine_failed(hash, needs_metadata, error@, rendered, now)
            &&& told == asked + found.engine_failure_effects(hash, needs_metadata, error@)
        },
    }
}

impl DaemonRuntime {
    /// The first step of starting an engine for a torrent, under the network and the
    /// configuration as they are.
    pub fn start_engine_while_transition_locked(
        &mut self,
        hash: InfoHash,
        effects: &mut Vec<Effect>,
    ) -> (step: StartStep)
        requires
            old(self).wf(),
        ensures
            final(self).wf(),
            *final(self) == (DaemonRuntime { fleet: final(self).fleet, ..*old(self) }),
            crate::start::engine_begun(
                old(self).fleet@,
                final(self).fleet@,
                step,
                hash,
                old(self).network_health,
                old(self).config,
                old(self).surroundings.fallback_dir@,
                old(self).surroundings.built_in_peer_limit,
                old(effects)@,
                final(effects)@,
            ),
    {
        self.fleet.begin_engine(
            hash,
            &self.network_health,
            &self.config,
            self.surroundings.fallback_dir.as_str(),
            self.surroundings.built_in_peer_limit,
            effects,
        )
    }

    /// The second step: the directories were checked, each refusal in words, and then the layout
    /// of the files. A torrent that was paused in the meantime is left alone. Else the first
    /// refusal stands; without one the task is entered, and it may run if the torrent is still to
    /// download.
    pub fn launch_engine(
        &mut self,
        start: &EngineStart,
        storage: &Vec<Option<String>>,
        layout: &Option<String>,
        effects: &mut Vec<Effect>,
    ) -> (run: bool)
        requires
            old(self).wf(),
        ensures
            final(self).wf(),
            *final(self) == (DaemonRuntime { fleet: final(self).fleet, ..*old(self) }),
            old(self).fleet@.is_paused(start.hash) ==> {
                &&& !run
                &&& final(self).fleet@ == old(self).fleet@
                &&& final(effects)@ == old(effects)@
            },
            !old(self).fleet@.is_paused(start.hash) ==> match (first_refusal(storage@), *layout) {
                (Some(refusal), _) => {
                    &&& !run
                    &&& final(self).fleet@ == old(self).fleet@.storage_refused(start.hash, refusal)
                    &&& final(effects)@ == old(effects)@ + crate::start::told_if(
                        true,
                        TorrentEventKind::Failed,
                        start.hash,
                        TorrentState::StorageError,
                    )
                },
                (None, Some(refusal)) => {
                    &&& !run
                    &&& final(self).fleet@ == old(self).fleet@.storage_refused(start.hash, refusal)
                    &&& final(effects)@ == old(effects)@ + crate::start::told_if(
                        true,
                        TorrentEventKind::Changed,
                        start.hash,
                        TorrentState::StorageError,
                    )
                },
                (None, None) => {
                    &&& run == old(self).fleet@.may_retry(start.hash)
                    &&& final(self).fleet@ == old(self).fleet@.engine_entered(
                        start.hash,
                        start.needs_metadata,
                    )
                    &&& final(effects)@ == old(effects)@ + old(self).fleet@.engine_entry_effects(
                        start.hash,
                        start.needs_metadata,
                    )
                },
            },
    {
        if self.fleet.is_paused(&start.hash) {
            return false;
        }
        if let Some(refusal) = find_refusal(storage) {
            self.fleet.refuse_engine(start.hash, refusal, TorrentEventKind::Failed, effects);
            return false;
        }
        if let Some(refusal) = layout {
            self.fleet.refuse_engine(start.hash, refusal, TorrentEventKind::Changed, effects);
            return false;
        }
        self.fleet.admit_engine(start.hash, start.needs_metadata, effects)
    }

    /// The last step: takes in how an engine task ended, and takes the task out.
    pub fn engine_task_finished(
        &mut self,
        hash: InfoHash,
        needs_metadata: bool,
        end: EngineEnd,
        now_seconds: u64,
        now: Tick,
        effects: &mut Vec<Effect>,
    )
        requires
            old(self).wf(),
        ensures
            final(self).wf(),
            *final(self) == (DaemonRuntime { fleet: final(self).fleet, ..*old(self) }),
            task_ended(
                old(self).fleet@,
                final(self).fleet@,
                hash,
                needs_metadata,
                end,
                old(self).selfish_completion_enabled,
                now_seconds,
                now,
                old(effects)@,
                final(effects)@,
            ),
    {
        match end {
            EngineEnd::Cancelled => {
                self.fleet.cancel_engine(hash, needs_metadata);
            },
            EngineEnd::Ended(result) => {
                self.fleet.finish_engine(
                    hash,
                    result,
                    self.selfish_completion_enabled,
                    now_seconds,
                    now,
                    effects,
                );
            },
            EngineEnd::Failed { error, rendered } => {
                self.fleet.fail_engine(hash, needs_metadata, &error, &rendered, now, effects);
            },
        }
    }
}

/// While containment forbids traffic no engine starts: there is no task to launch, and nothing
/// but the torrent's own standing changes. It is shown as blocked unless it is paused or has a
/// task, which is left alone then.
pub proof fn forbidden_traffic_starts_nothing(
    found: FleetView,
    fleet: FleetView,
    step: StartStep,
    hash: InfoHash,
    health: NetworkHealth,
    cfg: Config,
    fallback_dir: Seq<char>,
    built_in_peer_limit: usize,
    asked: Seq<Effect>,
    told: Seq<Effect>,
)
    requires
        !health.permits(),
        crate::start::engine_begun(
            found,
            fleet,
            step,
            hash,
            health,
            cfg,
            fallback_dir,
            built_in_peer_limit,
            asked,
            told,
        ),
    ensures
        !(step is Check),
        fleet == (FleetView { registry: fleet.registry, ..found }),
        found.registry.dom().contains(hash) ==> if found.is_paused(hash)
            || found.engines.dom().contains(hash) {
            fleet.registry[hash] == found.registry[hash]
        } else {
            fleet.registry[hash].state == TorrentState::NetworkBlocked
        },
        forall|other: InfoHash|
            other != hash && found.registry.dom().contains(other) ==> #[trigger] fleet.registry[other]
                == found.registry[other],
{
}

/// Starting a torrent that is paused or has a task does nothing, whatever the network path is.
pub proof fn idle_starts_change_nothing(
    found: FleetView,
    fleet: FleetView,
    step: StartStep,
    hash: InfoHash,
    health: NetworkHealth,
    cfg: Config,
    fallback_dir: Seq<char>,
    built_in_peer_limit: usize,
    asked: Seq<Effect>,
    told: Seq<Effect>,
)
    requires
        found.is_paused(hash) || found.engines.dom().contains(hash),
        crate::start::engine_begun(
            found,
            fleet,
            step,
            hash,
            health,
            cfg,
            fallback_dir,
            built_in_peer_limit,
            asked,
            told,
        ),
    ensures
        !(step is Check),
        fleet == found,
        told == asked,
{
}

/// However an engine task ended, it does not stand in the way of the next one, and the tasks of
/// other torrents go on.
pub proof fn ended_tasks_make_room(
    found: FleetView,
    fleet: FleetView,
    hash: InfoHash,
    needs_metadata: bool,
    end: EngineEnd,
    remove_completed: bool,
    now_seconds: u64,
    now: Tick,
    asked: Seq<Effect>,
    told: Seq<Effect>,
)
    requires
        task_ended(
            found,
            fleet,
            hash,
            needs_metadata,
            end,
            remove_completed,
            now_seconds,
            now,
            asked,
            told,
        ),
    ensures
        fleet.engines == found.engines.remove(hash),
        fleet.rate_samples == found.rate_samples,
{
}

/// The first place that refuses a start is the one that is heard; nothing refuses where all agree.
pub proof fn the_first_refusal_is_heard(verdicts: Seq<Option<String>>, first: int)
    requires
        0 <= first <= verdicts.len(),
        forall|i: int| 0 <= i < first ==> (#[trigger] verdicts[i]).is_none(),
        first < verdicts.len() ==> verdicts[first].is_some(),
    ensures
        first == verdicts.len() ==> first_refusal(verdicts).is_none(),
        first < verdicts.len() ==> first_refusal(verdicts) == verdicts[first],
    decreases first,
{
    if first > 0 {
        let rest = verdicts.skip(1);
        assert(verdicts[0].is_none());
        assert forall|i: int| 0 <= i < first - 1 implies (#[trigger] rest[i]).is_none() by {
            assert(rest[i] == verdicts[i + 1]);
        }
        if first < verdicts.len() {
            assert(rest[first - 1] == verdicts[first]);
        }
        the_first_refusal_is_heard(rest, first - 1);
    }
}

/// A task that was cancelled ends without a word; one that ended or failed has uploads and the queue
/// looked at last.
pub proof fn cancelled_tasks_end_silently(
    found: FleetView,
    fleet: FleetView,
    hash: InfoHash,
    needs_metadata: bool,
    end: EngineEnd,
    remove_completed: bool,
    now_seconds: u64,
    now: Tick,
    asked: Seq<Effect>,
    told: Seq<Effect>,
)
    requires
        task_ended(
            found,
            fleet,
            hash,
            needs_metadata,
            end,
            remove_completed,
            now_seconds,
            now,
            asked,
            told,
        ),
    ensures
        end is Cancelled ==> told == asked,
        !(end is Cancelled) ==> told.len() >= asked.len() + 2 && told.last() == (
        Effect::ReconcileQueue { delay: 0 }) && told[told.len() - 2] == Effect::ReconcileSeeders,
{
}

} // verus!
