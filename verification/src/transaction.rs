//! Changes of the configuration, step by step.
use crate::config::{data_plane_config_changed, Config};
use crate::effects::Effect;
use crate::error::{CoreError, ErrorKind, ErrorView};
use crate::fleet::FleetView;
use crate::hash::InfoHash;
use crate::index::HashIndex;
use crate::livework::LivePeerWorkSnapshot;
use crate::network::NetworkHealth;
use crate::reconfigure::{
    keep_auth_token, Before, PeerBudgetStage, PeerBudgetUpdate, Rebuild,
};
use crate::runtime::DaemonRuntime;
use crate::seeding::SeedDecision;
use crate::start::StartStep;
use crate::torrent::Torrent;
use vstd::prelude::*;

verus! {

/// A change of the peer budgets and the stage it has reached.
#[derive(Debug)]
pub struct PeerBudgetChange {
    pub update: PeerBudgetUpdate,
    pub stage: PeerBudgetStage,
    /// What is to work under the new configuration.
    pub rebuild: Rebuild,
    /// Whether the configuration is kept in a file.
    pub persists: bool,
}

impl PeerBudgetChange {
    /// The change is under way, and installed once the old sessions have ended.
    pub open spec fn wf(&self) -> bool {
        &&& self.update.held_permits.per_torrent.wf()
        &&& self.update.installed == (self.stage != PeerBudgetStage::Draining)
        &&& self.stage != PeerBudgetStage::Committed
        &&& self.stage != PeerBudgetStage::RolledBack
    }
}

/// What is to be done next in a change of the peer budgets.
#[derive(Debug)]
pub enum ChangeStep {
    /// Set up work under the new configuration, and check it.
    SetUp(PeerBudgetChange),
    /// Let the daemon follow the configuration, and check the work once more.
    Check(PeerBudgetChange),
    /// Write the configuration to its file.
    Write(PeerBudgetChange),
    /// Nothing: the change holds.
    Committed,
    /// Set up what worked before the change.
    SetBack(LivePeerWorkSnapshot),
}

/// What a change of the peer budgets comes to after a stage succeeded or failed.
pub open spec fn change_advanced(
    found: DaemonRuntime,
    change: PeerBudgetChange,
    succeeded: bool,
    runtime: DaemonRuntime,
    step: ChangeStep,
    asked: Seq<Effect>,
    told: Seq<Effect>,
) -> bool {
    let stage = crate::reconfigure::stage_after(change.stage, succeeded, change.persists);
    match stage {
        PeerBudgetStage::Rebuilding => {
            &&& step matches ChangeStep::SetUp(after)
            &&& after.stage == stage
            &&& after.persists == change.persists
            &&& crate::reconfigure::change_installed(
                found,
                change.update,
                runtime,
                after.update,
                after.rebuild,
                asked,
                told,
            )
        },
        PeerBudgetStage::Verifying => {
            &&& step == ChangeStep::Check(PeerBudgetChange { stage, ..change })
            &&& runtime == found
            &&& told == asked
        },
        PeerBudgetStage::Persisting => {
            &&& step == ChangeStep::Write(PeerBudgetChange { stage, ..change })
            &&& runtime == found
            &&& told == asked
        },
        PeerBudgetStage::Committed => {
            &&& step == ChangeStep::Committed
            &&& runtime == (DaemonRuntime {
                selfish_completion_enabled: found.config.torrent.selfish,
                ..found
            })
            &&& told == asked.push(Effect::SweepCompleted)
        },
        _ => {
            &&& step == ChangeStep::SetBack(change.update.live)
            &&& crate::reconfigure::change_undone(found, change.update, runtime, asked, told)
        },
    }
}

/// What is said where not exactly that works which is to work at a stage of a change.
pub open spec fn change_fault(
    runtime: DaemonRuntime,
    change: PeerBudgetChange,
    desired: Seq<InfoHash>,
    expected: Seq<InfoHash>,
) -> Option<ErrorView> {
    match change.rebuild {
        Rebuild::Nothing => if runtime.fleet.engines.seq().len() == 0
            && runtime.fleet.seeders.seq().len() == 0 {
            None
        } else {
            Some(
                ErrorView {
                    kind: ErrorKind::Internal,
                    message: if change.stage == PeerBudgetStage::Rebuilding {
                        "peer tasks remained live after blocked configuration install"@
                    } else {
                        "peer tasks started after blocked configuration reconstruction"@
                    },
                },
            )
        },
        Rebuild::Live => runtime.fleet.missing_work(change.update.live),
        Rebuild::Eligible => runtime.fleet.misplaced_work(desired, expected),
    }
}

impl DaemonRuntime {
    /// Takes a change of the peer budgets one stage further, or undoes it. Each stage but the
    /// first is reached only when the one before it succeeded: the old sessions have ended, the
    /// work was set up, it was checked once more, and the configuration was written.
    pub fn apply_peer_budget_runtime_update(
        &mut self,
        change: PeerBudgetChange,
        succeeded: bool,
        effects: &mut Vec<Effect>,
    ) -> (step: ChangeStep)
        requires
            old(self).wf(),
            change.wf(),
        ensures
            final(self).wf(),
            change_advanced(
                *old(self),
                change,
                succeeded,
                *final(self),
                step,
                old(effects)@,
                final(effects)@,
            ),
            step matches ChangeStep::SetUp(after) ==> after.wf(),
            step matches ChangeStep::Check(after) ==> after.wf(),
            step matches ChangeStep::Write(after) ==> after.wf(),
            step matches ChangeStep::SetUp(after) ==> forall|before: Before| #[trigger]
                change.update.remembers(*old(self), before) ==> after.update.remembers(
                    *final(self),
                    before,
                ),
    {
        let stage: PeerBudgetStage = change.stage.advance(succeeded, change.persists);
        let PeerBudgetChange { update, rebuild, persists, .. } = change;
        match stage {
            PeerBudgetStage::Rebuilding => {
                let mut update: PeerBudgetUpdate = update;
                let rebuild: Rebuild = self.install_peer_budget_update(&mut update, effects);
                ChangeStep::SetUp(PeerBudgetChange { update, stage, rebuild, persists })
            },
            PeerBudgetStage::Verifying => {
                ChangeStep::Check(PeerBudgetChange { update, stage, rebuild, persists })
            },
            PeerBudgetStage::Persisting => {
                ChangeStep::Write(PeerBudgetChange { update, stage, rebuild, persists })
            },
            PeerBudgetStage::Committed => {
                self.commit_peer_budget_update(effects);
                ChangeStep::Committed
            },
            _ => ChangeStep::SetBack(self.roll_back_peer_budget_update(update, effects)),
        }
    }

    /// Checks what works at a stage of a change of the peer budgets, given the torrents that
    /// should download and those that may upload.
    pub fn verify_peer_budget_change(
        &self,
        change: &PeerBudgetChange,
        desired: &Vec<InfoHash>,
        expected: &Vec<InfoHash>,
    ) -> (outcome: Result<(), CoreError>)
        requires
            self.wf(),
        ensures
            outcome.is_ok() == change_fault(*self, *change, desired@, expected@).is_none(),
            outcome matches Err(error) ==> change_fault(*self, *change, desired@, expected@)
                == Some(error@),
    {
        match change.rebuild {
            Rebuild::Nothing => self.fleet.verify_nothing_works(
                if change.stage == PeerBudgetStage::Rebuilding {
                    "peer tasks remained live after blocked configuration install"
                } else {
                    "peer tasks started after blocked configuration reconstruction"
                },
            ),
            Rebuild::Live => self.fleet.verify_live_peer_work(&change.update.live),
            Rebuild::Eligible => self.fleet.verify_eligible_peer_work(desired, expected),
        }
    }

    /// Puts a new configuration in force that keeps the peer budgets. Where it changes how tasks
    /// reach the network or their files, every task ends first.
    pub fn replace_config(
        &mut self,
        next: Config,
        next_health: &NetworkHealth,
        decisions: &HashIndex<SeedDecision>,
        effects: &mut Vec<Effect>,
    )
        requires
            old(self).wf(),
            decisions.wf(),
        ensures
            final(self).wf(),
            *final(self) == (DaemonRuntime {
                config: crate::reconfigure::token_kept(next, old(self).config),
                selfish_completion_enabled: next.torrent.selfish,
                fleet: final(self).fleet,
                gate: final(self).gate,
                ..*old(self)
            }),
            if crate::config::data_plane_differs(old(self).config, next) {
                crate::reconfigure::ended_for_replacement(
                    old(self).fleet@,
                    old(self).gate@,
                    final(self).fleet@,
                    final(self).gate@,
                    *next_health,
                    decisions@,
                    old(effects)@,
                    final(effects)@,
                )
            } else {
                &&& final(self).fleet == old(self).fleet
                &&& final(self).gate == old(self).gate
                &&& final(effects)@ == old(effects)@
            },
    {
        let mut next: Config = next;
        keep_auth_token(&mut next, &self.config);
        if data_plane_config_changed(&self.config, &next) {
            self.stop_for_replacement(next_health, decisions, effects);
        }
        self.install_config(next);
    }
}

/// Whatever stage of a change fails, and whatever the daemon did meanwhile, the daemon is put
/// back to what it was before the change.
pub proof fn failed_changes_are_undone(
    found: DaemonRuntime,
    change: PeerBudgetChange,
    before: Before,
    runtime: DaemonRuntime,
    step: ChangeStep,
    asked: Seq<Effect>,
    told: Seq<Effect>,
)
    requires
        change.wf(),
        change.update.remembers(found, before),
        change_advanced(found, change, false, runtime, step, asked, told),
    ensures
        exists|hashes: Seq<InfoHash>|
            crate::reconfigure::put_back(
                before,
                (#[trigger] found.fleet@.all_stopped(hashes)).registry,
                runtime,
            ),
{
    let hashes = choose|hashes: Seq<InfoHash>|
        {
            let stopped = #[trigger] found.fleet@.all_stopped(hashes);
            forall|before: Before| #[trigger]
                change.update.remembers(found, before) ==> crate::reconfigure::put_back(
                    before,
                    stopped.registry,
                    runtime,
                )
        };
    assert(crate::reconfigure::put_back(
        before,
        found.fleet@.all_stopped(hashes).registry,
        runtime,
    ));
}

/// No stage of a change, whether it succeeds or fails, touches the queue: its order, and the
/// torrents that pass its limits, stay what they were.
pub proof fn changes_keep_the_queue(
    found: DaemonRuntime,
    change: PeerBudgetChange,
    succeeded: bool,
    runtime: DaemonRuntime,
    step: ChangeStep,
    asked: Seq<Effect>,
    told: Seq<Effect>,
)
    requires
        change.wf(),
        change_advanced(found, change, succeeded, runtime, step, asked, told),
    ensures
        runtime.fleet@.queue == found.fleet@.queue,
{
    if crate::reconfigure::stage_after(change.stage, succeeded, change.persists)
        == PeerBudgetStage::RolledBack {
        crate::reconfigure::undoing_keeps_the_queue(found, change.update, runtime, asked, told);
    }
}

/// Setting work up touches the queue in none of its steps: neither making a torrent ready, nor
/// starting its engine or being refused that, nor starting its upload or being refused that.
pub proof fn setting_up_keeps_the_queue(
    found: FleetView,
    begun: FleetView,
    step: StartStep,
    hash: InfoHash,
    torrent: Torrent,
    health: NetworkHealth,
    cfg: Config,
    fallback_dir: Seq<char>,
    built_in_peer_limit: usize,
    needs_metadata: bool,
    announcing: bool,
    refusal: String,
    asked: Seq<Effect>,
    told: Seq<Effect>,
)
    requires
        crate::start::engine_begun(
            found,
            begun,
            step,
            hash,
            health,
            cfg,
            fallback_dir,
            built_in_peer_limit,
            asked,
            told,
        ),
    ensures
        begun.queue == found.queue,
        found.with(hash, torrent).queue == found.queue,
        found.engine_entered(hash, needs_metadata).queue == found.queue,
        found.storage_refused(hash, refusal).queue == found.queue,
        found.upload_begun(hash).queue == found.queue,
        found.upload_refused(hash).queue == found.queue,
        found.upload_started(hash, announcing).queue == found.queue,
{
}

/// A change that was begun and then failed at any stage leaves the queue's order, and the
/// torrents that pass its limits, as they were, unless something else moved them meanwhile.
pub proof fn failed_changes_leave_the_queue_alone(
    first: DaemonRuntime,
    begun: DaemonRuntime,
    update: PeerBudgetUpdate,
    health: NetworkHealth,
    found: DaemonRuntime,
    change: PeerBudgetChange,
    runtime: DaemonRuntime,
    step: ChangeStep,
    asked: Seq<Effect>,
    told: Seq<Effect>,
    asked_last: Seq<Effect>,
    told_last: Seq<Effect>,
)
    requires
        crate::reconfigure::change_begun(first, begun, update, health, asked, told),
        found.fleet@.queue.order == begun.fleet@.queue.order,
        found.fleet@.queue.bypass == begun.fleet@.queue.bypass,
        change.wf(),
        change_advanced(found, change, false, runtime, step, asked_last, told_last),
    ensures
        runtime.fleet@.queue.order == first.fleet@.queue.order,
        runtime.fleet@.queue.bypass == first.fleet@.queue.bypass,
{
    crate::reconfigure::beginning_keeps_the_queue(first, begun, update, health, asked, told);
    changes_keep_the_queue(found, change, false, runtime, step, asked_last, told_last);
}

/// The configuration is written only after the work under it was checked twice, and a change
/// holds only after that, or where there is no file to write.
pub proof fn changes_hold_only_when_proven(stage: PeerBudgetStage, succeeded: bool, persists: bool)
    requires
        stage != PeerBudgetStage::Committed,
    ensures
        crate::reconfigure::stage_after(stage, succeeded, persists) == PeerBudgetStage::Persisting
            ==> succeeded && persists && stage == PeerBudgetStage::Verifying,
        crate::reconfigure::stage_after(stage, succeeded, persists) == PeerBudgetStage::Committed
            ==> succeeded && (stage == PeerBudgetStage::Persisting || (!persists && stage
            == PeerBudgetStage::Verifying)),
{
}

/// Under a path that is lost nothing may work: a change is at fault exactly where a task is left.
/// Under an open path it is at fault where the work that is owed is not there.
pub proof fn changes_are_judged_by_what_works(
    runtime: DaemonRuntime,
    change: PeerBudgetChange,
    desired: Seq<InfoHash>,
    expected: Seq<InfoHash>,
)
    ensures
        change.rebuild == Rebuild::Nothing ==> change_fault(
            runtime,
            change,
            desired,
            expected,
        ).is_none() == (runtime.fleet.engines.seq().len() == 0 && runtime.fleet.seeders.seq().len()
            == 0),
        change.rebuild == Rebuild::Live ==> change_fault(runtime, change, desired, expected)
            == runtime.fleet.missing_work(change.update.live),
        change.rebuild == Rebuild::Eligible ==> change_fault(runtime, change, desired, expected)
            == runtime.fleet.misplaced_work(desired, expected),
{
}

} // verus!
