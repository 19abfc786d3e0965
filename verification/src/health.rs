//! Health monitoring: the background-scheduler state machine that probes a
//! snapshot of targets on a fixed interval, the update messages it emits,
//! and the orchestrator step that applies an update to the host registry.
//!
//! The monitor's decisions are a function of its state: the caller runs the
//! clock, the channel, and the network attempts, asks `next_action` what to
//! do, and hands outcomes back through `record_result`.
use vstd::prelude::*;
use vstd::string::*;

use crate::manager::{ServerManager, conn_views, registry_wf};
use crate::models::{ConnView, HealthStatus, ServerConnection};
use crate::ssh::{
    ConnectionTestResult, ResultView, TcpProbeOutcome, classify_quick_check, quick_result_spec,
    sat_inc,
};
use crate::text::str_eq;

verus! {

/// One health assessment of one target, tagged with its id, delivered from
/// the background task to the orchestrator.
#[derive(Debug)]
pub struct HealthUpdate {
    pub server_id: String,
    pub result: ConnectionTestResult,
}

/// Mathematical image of an update message.
#[verifier::ext_equal]
pub struct UpdateView {
    pub server_id: Seq<char>,
    pub result: ResultView,
}

impl View for HealthUpdate {
    type V = UpdateView;

    open spec fn view(&self) -> UpdateView {
        UpdateView { server_id: self.server_id@, result: self.result@ }
    }
}

impl Clone for HealthUpdate {
    fn clone(&self) -> (r: Self)
        ensures
            r@ == self@,
    {
        let r = HealthUpdate { server_id: self.server_id.clone(), result: self.result.clone() };
        proof {
            assert(r@ =~= self@);
        }
        r
    }
}

/// What the background loop should do next.
#[derive(Debug, Clone, Copy, PartialEq, Eq, Structural)]
pub enum MonitorAction {
    /// The monitor is stopped: produce nothing, exit the loop.
    Halt,
    /// The current sweep is finished: wait for the next interval tick.
    WaitTick,
    /// Probe the target at this index of the snapshot, short budget.
    ProbeTarget(usize),
}

/// The health-monitoring scheduler: a snapshot of targets, a running flag,
/// and the position of the sweep in progress.
#[derive(Debug)]
pub struct HealthMonitor {
    pub check_interval_secs: u64,
    pub running: bool,
    pub targets: Vec<ServerConnection>,
    pub next_index: usize,
}

/// Mathematical image of the scheduler state.
#[verifier::ext_equal]
pub struct MonitorView {
    pub check_interval_secs: u64,
    pub running: bool,
    pub targets: Seq<ConnView>,
    pub next_index: usize,
}

impl View for HealthMonitor {
    type V = MonitorView;

    open spec fn view(&self) -> MonitorView {
        MonitorView {
            check_interval_secs: self.check_interval_secs,
            running: self.running,
            targets: conn_views(self.targets@),
            next_index: self.next_index,
        }
    }
}

/// The monitor's next step: nothing once stopped, the next unprobed target
/// of the sweep, or a wait for the next tick.
pub open spec fn next_action_spec(m: MonitorView) -> MonitorAction {
    if !m.running {
        MonitorAction::Halt
    } else if m.next_index < m.targets.len() {
        MonitorAction::ProbeTarget(m.next_index)
    } else {
        MonitorAction::WaitTick
    }
}

/// Once the monitor is stopped it is silent: its next action is to halt,
/// and no step that emits an update message applies (`record_result`
/// demands a running monitor), so no further update is produced.
pub proof fn lemma_no_updates_after_stop(m: MonitorView)
    requires
        !m.running,
    ensures
        next_action_spec(m) is Halt,
{
}

impl HealthMonitor {
    /// A stopped monitor with an empty snapshot and the given interval
    /// between sweeps.
    pub fn new(check_interval_seconds: u64) -> (r: Self)
        ensures
            r@.check_interval_secs == check_interval_seconds,
            r@.running == false,
            r@.targets.len() == 0,
            r@.next_index == 0,
    {
        let r = HealthMonitor {
            check_interval_secs: check_interval_seconds,
            running: false,
            targets: Vec::new(),
            next_index: 0,
        };
        proof {
            assert(r@.targets =~= Seq::<ConnView>::empty());
        }
        r
    }

    /// Starts monitoring a snapshot of the target list: the snapshot is
    /// owned, so later registry edits do not reach it until a restart.
    pub fn start(&mut self, servers: Vec<ServerConnection>)
        ensures
            final(self)@.running == true,
            final(self)@.targets == conn_views(servers@),
            final(self)@.next_index == 0,
            final(self)@.check_interval_secs == old(self)@.check_interval_secs,
    {
        self.running = true;
        self.targets = servers;
        self.next_index = 0;
    }

    /// Clears the running flag. The loop observes it at tick and
    /// per-target boundaries, so cancellation latency is bounded by one
    /// in-flight probe, not instantaneous.
    pub fn stop(&mut self)
        ensures
            final(self)@.running == false,
            final(self)@.targets == old(self)@.targets,
            final(self)@.next_index == old(self)@.next_index,
            final(self)@.check_interval_secs == old(self)@.check_interval_secs,
    {
        self.running = false;
    }

    /// Records that the update channel's receiving end is gone: the loop
    /// exits early rather than probe for nobody.
    pub fn channel_closed(&mut self)
        ensures
            final(self)@.running == false,
            final(self)@.targets == old(self)@.targets,
            final(self)@.next_index == old(self)@.next_index,
            final(self)@.check_interval_secs == old(self)@.check_interval_secs,
    {
        self.running = false;
    }

    /// What the background loop should do next.
    pub fn next_action(&self) -> (r: MonitorAction)
        ensures
            r == next_action_spec(self@),
    {
        if !self.running {
            MonitorAction::Halt
        } else if self.next_index < self.targets.len() {
            MonitorAction::ProbeTarget(self.next_index)
        } else {
            MonitorAction::WaitTick
        }
    }

    /// Begins a new sweep over the snapshot at an interval tick.
    pub fn begin_tick(&mut self)
        requires
            old(self)@.running,
        ensures
            final(self)@.running == true,
            final(self)@.targets == old(self)@.targets,
            final(self)@.next_index == 0,
            final(self)@.check_interval_secs == old(self)@.check_interval_secs,
    {
        self.next_index = 0;
    }

    /// Classifies the probe outcome for the current target of the sweep,
    /// advances the sweep, and returns the update message to deliver,
    /// tagged with the target's id.
    pub fn record_result(&mut self, outcome: &TcpProbeOutcome, latency_ms: u64) -> (r:
        HealthUpdate)
        requires
            old(self)@.running,
            old(self)@.next_index < old(self)@.targets.len(),
        ensures
            r@.server_id == old(self)@.targets[old(self)@.next_index as int].id,
            r@.result == quick_result_spec(
                old(self)@.targets[old(self)@.next_index as int],
                outcome@,
                latency_ms,
            ),
            final(self)@.running == old(self)@.running,
            final(self)@.targets == old(self)@.targets,
            final(self)@.next_index == old(self)@.next_index + 1,
            final(self)@.check_interval_secs == old(self)@.check_interval_secs,
    {
        let i: usize = self.next_index;
        let n: usize = self.targets.len();
        let result = classify_quick_check(&self.targets[i], outcome, latency_ms);
        let server_id = self.targets[i].id.clone();
        self.next_index = i + 1;
        proof {
            assert((self.targets@[i as int])@ == self@.targets[i as int]);
        }
        HealthUpdate { server_id, result }
    }

    /// Classifies an immediate out-of-band probe outcome for one target,
    /// independent of the schedule.
    pub fn check_server_now(&self, server: &ServerConnection, outcome: &TcpProbeOutcome,
        latency_ms: u64) -> (r: ConnectionTestResult)
        ensures
            r@ == quick_result_spec(server@, outcome@, latency_ms),
    {
        classify_quick_check(server, outcome, latency_ms)
    }
}

/// The notification shown when a reachable host stops answering.
pub open spec fn went_offline_msg(name: Seq<char>) -> Seq<char> {
    "⚠️ "@ + name + " went offline"@
}

/// The notification shown when an unreachable host answers again.
pub open spec fn back_online_msg(name: Seq<char>) -> Seq<char> {
    "✅ "@ + name + " is back online"@
}

/// A host record after a probe result is applied: classification and
/// latency taken over, the matching counter advanced, everything else as
/// it was. The last-connected stamp comes from the clock, so only its
/// presence is stated.
pub open spec fn stats_applied(c_old: ConnView, c_new: ConnView, res: ResultView) -> bool {
    &&& crate::models::same_target(c_new, c_old)
    &&& c_new.health_status == res.status
    &&& c_new.security_status == res.security_status
    &&& c_new.active_sessions == c_old.active_sessions
    &&& c_new.stats.latency_ms == res.latency_ms
    &&& c_new.stats.last_connected_ms is Some
    &&& c_new.stats.latency_history == c_old.stats.latency_history
    &&& c_new.stats.total_session_secs == c_old.stats.total_session_secs
    &&& c_new.stats.average_session_secs == c_old.stats.average_session_secs
    &&& c_new.stats.peak_usage_hour == c_old.stats.peak_usage_hour
    &&& c_new.stats.connection_count == if res.status is Online {
        sat_inc(c_old.stats.connection_count)
    } else {
        c_old.stats.connection_count
    }
    &&& c_new.stats.failed_attempts == if res.status is Offline {
        sat_inc(c_old.stats.failed_attempts)
    } else {
        c_old.stats.failed_attempts
    }
}

/// A notification is owed exactly when the update crosses the
/// online/offline boundary: a host not previously offline goes offline, or
/// an offline host comes back online.
pub open spec fn boundary_crossed(old_status: HealthStatus, new_status: HealthStatus) -> bool {
    ||| (new_status is Offline && !(old_status is Offline))
    ||| (new_status is Online && old_status is Offline)
}

impl ServerManager {
    /// Applies one monitor update to the registry: the named host's record
    /// absorbs the probe result, and a user-visible notification is
    /// returned exactly when the host's state crossed the online/offline
    /// boundary. An update for an unknown id changes nothing.
    pub fn apply_health_update(&mut self, update: &HealthUpdate) -> (r: Option<String>)
        ensures
            !(exists|i: int|
                0 <= i < old(self)@.connections.len() && (#[trigger] old(self)@.connections[i]).id == update@.server_id) ==> *final(self) == *old(self) && r
                is None,
            (exists|i: int|
                0 <= i < old(self)@.connections.len() && (#[trigger] old(self)@.connections[i]).id == update@.server_id) ==> exists|i: int|
                {
                    &&& 0 <= i < old(self)@.connections.len()
                    &&& (#[trigger] old(self)@.connections[i]).id == update@.server_id
                    &&& final(self)@.connections.len() == old(self)@.connections.len()
                    &&& forall|k: int|
                        0 <= k < old(self)@.connections.len() && k != i ==> final(self)@.connections[k] == old(self)@.connections[k]
                    &&& stats_applied(
                        old(self)@.connections[i],
                        final(self)@.connections[i],
                        update@.result,
                    )
                    &&& (r is Some <==> boundary_crossed(
                        old(self)@.connections[i].health_status,
                        update@.result.status,
                    ))
                    &&& (update@.result.status is Offline && !(old(
                        self,
                    )@.connections[i].health_status is Offline) ==> ({
                        &&& r matches Some(m)
                        &&& m@ == went_offline_msg(old(self)@.connections[i].name)
                    }))
                    &&& (update@.result.status is Online && old(
                        self,
                    )@.connections[i].health_status is Offline ==> ({
                        &&& r matches Some(m)
                        &&& m@ == back_online_msg(old(self)@.connections[i].name)
                    }))
                },
            final(self)@.selected_index == old(self)@.selected_index,
            final(self)@.filter == old(self)@.filter,
            final(self)@.show_only_online == old(self)@.show_only_online,
            final(self)@.connection_history == old(self)@.connection_history,
            final(self)@.active_session_count == old(self)@.active_session_count,
            registry_wf(old(self)@) ==> registry_wf(final(self)@),
    {
        let n: usize = self.connections.len();
        let mut i: usize = 0;
        while i < n
            invariant
                0 <= i <= n == self.connections@.len(),
                *self == *old(self),
                forall|k: int|
                    0 <= k < i ==> (#[trigger] self@.connections[k]).id != update@.server_id,
            decreases n - i,
        {
            if str_eq(self.connections[i].id.as_str(), update.server_id.as_str()) {
                proof {
                    assert((self.connections@[i as int])@ == self@.connections[i as int]);
                    assert(old(self)@.connections[i as int].id == update@.server_id);
                }
                let mut c = self.connections[i].clone();
                let old_status = c.health_status;
                update.result.update_server_stats(&mut c);
                let notification: Option<String> = match (update.result.status, old_status) {
                    (HealthStatus::Offline, HealthStatus::Offline) => None,
                    (HealthStatus::Offline, _) => {
                        proof {
                            reveal_strlit(" went offline");
                        }
                        let mut m = String::from_str("⚠️ ");
                        m.append(self.connections[i].name.as_str());
                        m.append(" went offline");
                        Some(m)
                    },
                    (HealthStatus::Online, HealthStatus::Offline) => {
                        proof {
                            reveal_strlit(" is back online");
                        }
                        let mut m = String::from_str("✅ ");
                        m.append(self.connections[i].name.as_str());
                        m.append(" is back online");
                        Some(m)
                    },
                    _ => None,
                };
                self.connections.set(i, c);
                proof {
                    assert(final(self)@.connections[i as int] == c@);
                    assert(stats_applied(
                        old(self)@.connections[i as int],
                        final(self)@.connections[i as int],
                        update@.result,
                    ));
                    assert(forall|k: int|
                        0 <= k < old(self)@.connections.len() && k != i ==> final(self)@.connections[k] == old(self)@.connections[k]);
                    if registry_wf(old(self)@) {
                        assert forall|a: int, b: int| 0 <= a < b < final(self)@.connections.len() implies (#[trigger] final(self)@.connections[a]).id
                            != (#[trigger] final(self)@.connections[b]).id by {}
                        assert forall|a: int, b: int|
                            0 <= a < final(self)@.connections.len() && 0 <= b < final(self)@.connections[a].active_sessions.len() implies (#[trigger] final(self)@.connections[a].active_sessions[b]).server_name == final(self)@.connections[a].name by {
                            if a != i {
                                assert(final(self)@.connections[a] == old(self)@.connections[a]);
                            } else {
                                assert(final(self)@.connections[a].active_sessions == old(self)@.connections[a].active_sessions);
                                assert(final(self)@.connections[a].name == old(self)@.connections[a].name);
                            }
                        }
                    }
                }
                return notification;
            }
            i = i + 1;
        }
        None
    }
}

} // verus!
