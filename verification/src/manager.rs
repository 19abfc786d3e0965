//! The host registry: the in-memory store of remote-host records, the
//! live-session bookkeeping reconciled against process state, and targeted
//! and bulk termination.
use vstd::prelude::*;
use vstd::seq_lib::*;
use vstd::string::*;

use crate::models::{
    ConnView, ConnectionHistoryEntry, HealthStatus, HistoryView, ServerConnection, SessionInfo,
    SessionView, now_millis, same_target, session_views,
};
use crate::ssh::sat_inc;
use crate::text::{
    chars_le, contains_chars, contains_seq, dec_str, lemma_lex_total, lex_le,
    lower_of, lowercase, str_eq, string_to_chars, u64_to_string,
};

verus! {

/// The images of a record sequence.
pub open spec fn conn_views(v: Seq<ServerConnection>) -> Seq<ConnView> {
    Seq::new(v.len(), |i: int| v[i]@)
}

/// The images of a history sequence.
pub open spec fn history_views(v: Seq<ConnectionHistoryEntry>) -> Seq<HistoryView> {
    Seq::new(v.len(), |i: int| v[i]@)
}

/// The registry of configured hosts and their live sessions.
#[derive(Debug)]
pub struct ServerManager {
    pub connections: Vec<ServerConnection>,
    pub selected_index: usize,
    pub filter: String,
    pub show_only_online: bool,
    pub connection_history: Vec<ConnectionHistoryEntry>,
    pub active_session_count: usize,
}

/// Mathematical image of the registry.
#[verifier::ext_equal]
pub struct ManagerView {
    pub connections: Seq<ConnView>,
    pub selected_index: usize,
    pub filter: Seq<char>,
    pub show_only_online: bool,
    pub connection_history: Seq<HistoryView>,
    pub active_session_count: usize,
}

impl View for ServerManager {
    type V = ManagerView;

    open spec fn view(&self) -> ManagerView {
        ManagerView {
            connections: conn_views(self.connections@),
            selected_index: self.selected_index,
            filter: self.filter@,
            show_only_online: self.show_only_online,
            connection_history: history_views(self.connection_history@),
            active_session_count: self.active_session_count,
        }
    }
}

/// Host ids are unique and stable.
pub open spec fn ids_unique(conns: Seq<ConnView>) -> bool {
    forall|i: int, j: int| 0 <= i < j < conns.len() ==> conns[i].id != conns[j].id
}

/// Every tracked session is a complete entry naming its owning host.
pub open spec fn sessions_well_formed(conns: Seq<ConnView>) -> bool {
    forall|i: int, j: int|
        0 <= i < conns.len() && 0 <= j < conns[i].active_sessions.len()
            ==> (#[trigger] conns[i].active_sessions[j]).server_name == conns[i].name
}

/// The registry invariant: unique ids and well-formed session entries.
pub open spec fn registry_wf(m: ManagerView) -> bool {
    ids_unique(m.connections) && sessions_well_formed(m.connections)
}

/// Total number of live sessions across all hosts.
pub open spec fn total_sessions(conns: Seq<ConnView>) -> int
    decreases conns.len(),
{
    if conns.len() == 0 {
        0
    } else {
        total_sessions(conns.drop_last()) + conns.last().active_sessions.len()
    }
}

/// Some host tracks a session with this process id.
pub open spec fn has_session_pid(conns: Seq<ConnView>, pid: u32) -> bool {
    exists|i: int, j: int|
        0 <= i < conns.len() && 0 <= j < conns[i].active_sessions.len()
            && (#[trigger] conns[i].active_sessions[j]).pid == pid
}

/// A host record with the sessions of one process id dropped.
pub open spec fn conn_without_pid(c: ConnView, pid: u32) -> ConnView {
    ConnView { active_sessions: c.active_sessions.filter(|s: SessionView| s.pid != pid), ..c }
}

/// The registry contents after a targeted kill.
pub open spec fn removed_pid(conns: Seq<ConnView>, pid: u32) -> Seq<ConnView> {
    Seq::new(conns.len(), |i: int| conn_without_pid(conns[i], pid))
}

/// A host record with the sessions of every dead process id dropped.
pub open spec fn conn_pruned(c: ConnView, dead: Seq<u32>) -> ConnView {
    ConnView {
        active_sessions: c.active_sessions.filter(|s: SessionView| !dead.contains(s.pid)),
        ..c
    }
}

/// The registry contents after one reconciliation pass against the set of
/// process ids found dead.
pub open spec fn reconciled(conns: Seq<ConnView>, dead: Seq<u32>) -> Seq<ConnView> {
    Seq::new(conns.len(), |i: int| conn_pruned(conns[i], dead))
}

/// The message reported when the system refused to terminate a session.
pub open spec fn kill_failed_msg(pid: u32) -> Seq<char> {
    "Failed to kill session PID "@ + dec_str(pid as int)
}

/// The pids of a session list, in order.
pub open spec fn pids_of_sessions(s: Seq<SessionView>) -> Seq<u32> {
    s.map_values(|x: SessionView| x.pid)
}

/// The pids whose termination request succeeded, in order: `outcomes[k]`
/// reports the request for `pids[k]`.
pub open spec fn killed_pids(pids: Seq<u32>, outcomes: Seq<bool>) -> Seq<u32>
    decreases pids.len(),
{
    if pids.len() == 0 || outcomes.len() == 0 {
        Seq::empty()
    } else if outcomes.last() {
        killed_pids(pids.drop_last(), outcomes.drop_last()).push(pids.last())
    } else {
        killed_pids(pids.drop_last(), outcomes.drop_last())
    }
}

/// How many entries of an outcome list are successes.
pub open spec fn count_true(s: Seq<bool>) -> int
    decreases s.len(),
{
    if s.len() == 0 {
        0
    } else {
        count_true(s.drop_last()) + if s.last() {
            1int
        } else {
            0int
        }
    }
}

/// Filtering by a predicate that every element satisfies keeps the
/// sequence.
proof fn lemma_filter_id<A>(s: Seq<A>, pred: spec_fn(A) -> bool)
    requires
        forall|i: int| 0 <= i < s.len() ==> pred(#[trigger] s[i]),
    ensures
        s.filter(pred) == s,
    decreases s.len(),
{
    reveal(Seq::filter);
    if s.len() > 0 {
        assert(pred(s.last()));
        assert(forall|i: int| 0 <= i < s.drop_last().len() ==> pred(#[trigger] s.drop_last()[i]));
        lemma_filter_id(s.drop_last(), pred);
        assert(s.drop_last().push(s.last()) =~= s);
    }
}

/// Filtering is idempotent.
proof fn lemma_filter_idempotent<A>(s: Seq<A>, pred: spec_fn(A) -> bool)
    ensures
        s.filter(pred).filter(pred) == s.filter(pred),
{
    let f = s.filter(pred);
    assert forall|i: int| 0 <= i < f.len() implies pred(#[trigger] f[i]) by {
        s.lemma_filter_pred(pred, i);
    }
    lemma_filter_id(f, pred);
}

/// Extending a sequence by one element extends its filtered image by that
/// element exactly when it satisfies the predicate.
proof fn lemma_filter_push<A>(s: Seq<A>, pred: spec_fn(A) -> bool, x: A)
    ensures
        s.push(x).filter(pred) == if pred(x) {
            s.filter(pred).push(x)
        } else {
            s.filter(pred)
        },
{
    reveal(Seq::filter);
    assert(s.push(x).drop_last() =~= s);
    assert(s.push(x).last() == x);
}

/// Reconciliation is idempotent: pruning a registry twice against the same
/// dead set gives the same registry as pruning it once.
pub proof fn lemma_reconcile_idempotent(conns: Seq<ConnView>, dead: Seq<u32>)
    ensures
        reconciled(reconciled(conns, dead), dead) == reconciled(conns, dead),
{
    let once = reconciled(conns, dead);
    let twice = reconciled(once, dead);
    assert forall|i: int| 0 <= i < conns.len() implies twice[i] == once[i] by {
        lemma_filter_idempotent(
            conns[i].active_sessions,
            |s: SessionView| !dead.contains(s.pid),
        );
    }
    assert(twice =~= once);
}

/// A registry without the dead pids of a targeted kill is unchanged when
/// the pid was not tracked at all.
pub proof fn lemma_kill_unknown_pid_unchanged(conns: Seq<ConnView>, pid: u32)
    requires
        !has_session_pid(conns, pid),
    ensures
        removed_pid(conns, pid) == conns,
{
    assert forall|i: int| 0 <= i < conns.len() implies removed_pid(conns, pid)[i] == conns[i] by {
        assert(forall|j: int|
            0 <= j < conns[i].active_sessions.len()
                ==> (#[trigger] conns[i].active_sessions[j]).pid != pid);
        lemma_filter_id(conns[i].active_sessions, |s: SessionView| s.pid != pid);
    }
    assert(removed_pid(conns, pid) =~= conns);
}

proof fn lemma_total_sessions_take_step(conns: Seq<ConnView>, i: int)
    requires
        0 <= i < conns.len(),
    ensures
        total_sessions(conns.take(i + 1)) == total_sessions(conns.take(i))
            + conns[i].active_sessions.len(),
{
    assert(conns.take(i + 1).drop_last() =~= conns.take(i));
    assert(conns.take(i + 1).last() == conns[i]);
}

proof fn lemma_total_sessions_nonneg(conns: Seq<ConnView>)
    ensures
        total_sessions(conns) >= 0,
    decreases conns.len(),
{
    if conns.len() > 0 {
        lemma_total_sessions_nonneg(conns.drop_last());
    }
}

proof fn lemma_total_sessions_take_le(conns: Seq<ConnView>, i: int)
    requires
        0 <= i <= conns.len(),
    ensures
        total_sessions(conns.take(i)) <= total_sessions(conns),
    decreases conns.len() - i,
{
    if i == conns.len() {
        assert(conns.take(i) =~= conns);
    } else {
        lemma_total_sessions_take_step(conns, i);
        lemma_total_sessions_take_le(conns, i + 1);
    }
}

/// A registry whose hosts each track no more sessions than another's has
/// no more sessions in total.
proof fn lemma_total_sessions_le(a: Seq<ConnView>, b: Seq<ConnView>)
    requires
        a.len() == b.len(),
        forall|i: int|
            0 <= i < a.len() ==> (#[trigger] a[i]).active_sessions.len()
                <= b[i].active_sessions.len(),
    ensures
        total_sessions(a) <= total_sessions(b),
    decreases a.len(),
{
    if a.len() > 0 {
        assert(forall|i: int|
            0 <= i < a.drop_last().len() ==> (#[trigger] a.drop_last()[i]).active_sessions.len()
                <= b.drop_last()[i].active_sessions.len());
        lemma_total_sessions_le(a.drop_last(), b.drop_last());
    }
}

/// Whether a process id occurs in a list of dead pids.
fn contains_pid(v: &Vec<u32>, pid: u32) -> (r: bool)
    ensures
        r == v@.contains(pid),
{
    let n: usize = v.len();
    let mut i: usize = 0;
    while i < n
        invariant
            0 <= i <= n == v@.len(),
            forall|k: int| 0 <= k < i ==> v@[k] != pid,
        decreases n - i,
    {
        if v[i] == pid {
            return true;
        }
        i = i + 1;
    }
    false
}

impl Default for ServerManager {
    fn default() -> (r: Self)
        ensures
            r@.connections.len() == 0,
            r@.selected_index == 0,
            r@.filter.len() == 0,
            r@.show_only_online == false,
            r@.connection_history.len() == 0,
            r@.active_session_count == 0,
            registry_wf(r@),
    {
        ServerManager {
            connections: Vec::new(),
            selected_index: 0,
            filter: String::new(),
            show_only_online: false,
            connection_history: Vec::new(),
            active_session_count: 0,
        }
    }
}

impl ServerManager {
    /// Adds a host record, or replaces the record carrying the same id.
    /// Only complete records whose sessions name them may enter, so the
    /// registry invariant is preserved.
    pub fn insert_connection(&mut self, conn: ServerConnection)
        requires
            forall|j: int|
                0 <= j < conn@.active_sessions.len()
                    ==> (#[trigger] conn@.active_sessions[j]).server_name == conn@.name,
        ensures
            (exists|i: int|
                0 <= i < old(self)@.connections.len() && (#[trigger] old(self)@.connections[i]).id == conn@.id) ==> exists|i: int|
                {
                    &&& 0 <= i < old(self)@.connections.len()
                    &&& (#[trigger] old(self)@.connections[i]).id == conn@.id
                    &&& final(self)@.connections == old(self)@.connections.update(i, conn@)
                },
            !(exists|i: int|
                0 <= i < old(self)@.connections.len() && (#[trigger] old(self)@.connections[i]).id == conn@.id) ==> final(self)@.connections == old(self)@.connections.push(conn@),
            final(self)@.selected_index == old(self)@.selected_index,
            final(self)@.filter == old(self)@.filter,
            final(self)@.show_only_online == old(self)@.show_only_online,
            final(self)@.connection_history == old(self)@.connection_history,
            final(self)@.active_session_count == old(self)@.active_session_count,
            registry_wf(old(self)@) ==> registry_wf(final(self)@),
    {
        let ghost cv = conn@;
        proof {
            assert(forall|j: int|
                0 <= j < cv.active_sessions.len() ==> (#[trigger] cv.active_sessions[j]).server_name
                    == cv.name);
        }
        let n: usize = self.connections.len();
        let mut i: usize = 0;
        while i < n
            invariant
                0 <= i <= n == self.connections@.len(),
                *self == *old(self),
                cv == conn@,
                forall|j: int|
                    0 <= j < cv.active_sessions.len() ==> (
                    #[trigger] cv.active_sessions[j]).server_name == cv.name,
                forall|k: int| 0 <= k < i ==> (#[trigger] self@.connections[k]).id != conn@.id,
            decreases n - i,
        {
            if str_eq(self.connections[i].id.as_str(), conn.id.as_str()) {
                proof {
                    assert(old(self)@.connections[i as int].id == conn@.id);
                }
                self.connections.set(i, conn);
                proof {
                    assert(self@.connections =~= old(self)@.connections.update(i as int, cv));
                    if registry_wf(old(self)@) {
                        assert forall|a: int, b: int| 0 <= a < b < self@.connections.len() implies (
                        #[trigger] self@.connections[a]).id != (#[trigger] self@.connections[b]).id by {
                            if a != i {
                                assert(self@.connections[a] == old(self)@.connections[a]);
                            }
                            if b != i {
                                assert(self@.connections[b] == old(self)@.connections[b]);
                            }
                        }
                        assert forall|a: int, b: int|
                            0 <= a < self@.connections.len() && 0 <= b < self@.connections[
                        a
                        ].active_sessions.len() implies (#[trigger] self@.connections[
                        a
                        ].active_sessions[b]).server_name == self@.connections[a].name by {
                            if a != i {
                                assert(self@.connections[a] == old(self)@.connections[a]);
                            } else {
                                assert(self@.connections[a] == cv);
                                assert(cv.active_sessions[b].server_name == cv.name);
                            }
                        }
                    }
                }
                return;
            }
            i = i + 1;
        }
        self.connections.push(conn);
        proof {
            assert(self@.connections =~= old(self)@.connections.push(cv));
            if registry_wf(old(self)@) {
                assert forall|a: int, b: int| 0 <= a < b < self@.connections.len() implies (
                #[trigger] self@.connections[a]).id != (#[trigger] self@.connections[b]).id by {
                    if b < self@.connections.len() - 1 {
                        assert(self@.connections[a] == old(self)@.connections[a]);
                        assert(self@.connections[b] == old(self)@.connections[b]);
                    } else {
                        assert(self@.connections[a] == old(self)@.connections[a]);
                        assert(self@.connections[b] == cv);
                    }
                }
                assert forall|a: int, b: int|
                    0 <= a < self@.connections.len() && 0 <= b < self@.connections[
                a
                ].active_sessions.len() implies (#[trigger] self@.connections[a].active_sessions[
                    b
                ]).server_name == self@.connections[a].name by {
                    if a < self@.connections.len() - 1 {
                        assert(self@.connections[a] == old(self)@.connections[a]);
                    } else {
                        assert(self@.connections[a] == cv);
                        assert(cv.active_sessions[b].server_name == cv.name);
                    }
                }
            }
        }
    }

    /// Removes the host record with this id, returning it; an unknown id
    /// leaves the registry unchanged.
    pub fn remove_connection(&mut self, id: &str) -> (r: Option<ServerConnection>)
        ensures
            (exists|i: int|
                0 <= i < old(self)@.connections.len() && (#[trigger] old(self)@.connections[i]).id == id@) ==> exists|i: int|
                {
                    &&& 0 <= i < old(self)@.connections.len()
                    &&& (#[trigger] old(self)@.connections[i]).id == id@
                    &&& r matches Some(c) && c@ == old(self)@.connections[i]
                    &&& final(self)@.connections == old(self)@.connections.remove(i)
                },
            !(exists|i: int|
                0 <= i < old(self)@.connections.len() && (#[trigger] old(self)@.connections[i]).id == id@) ==> r is None && *final(self) == *old(self),
            final(self)@.selected_index == old(self)@.selected_index,
            final(self)@.filter == old(self)@.filter,
            final(self)@.show_only_online == old(self)@.show_only_online,
            final(self)@.connection_history == old(self)@.connection_history,
            final(self)@.active_session_count == old(self)@.active_session_count,
            registry_wf(old(self)@) ==> registry_wf(final(self)@),
    {
        let n: usize = self.connections.len();
        let mut i: usize = 0;
        while i < n
            invariant
                0 <= i <= n == self.connections@.len(),
                *self == *old(self),
                forall|k: int| 0 <= k < i ==> (#[trigger] self@.connections[k]).id != id@,
            decreases n - i,
        {
            if str_eq(self.connections[i].id.as_str(), id) {
                proof {
                    assert(old(self)@.connections[i as int].id == id@);
                }
                let c = self.connections.remove(i);
                proof {
                    assert(c@ == old(self)@.connections[i as int]);
                    assert(self@.connections =~= old(self)@.connections.remove(i as int));
                    if registry_wf(old(self)@) {
                        assert forall|a: int, b: int| 0 <= a < b < self@.connections.len() implies (
                        #[trigger] self@.connections[a]).id != (#[trigger] self@.connections[b]).id by {
                            let a0 = if a < i { a } else { a + 1 };
                            let b0 = if b < i { b } else { b + 1 };
                            assert(self@.connections[a] == old(self)@.connections[a0]);
                            assert(self@.connections[b] == old(self)@.connections[b0]);
                        }
                        assert forall|a: int, b: int|
                            0 <= a < self@.connections.len() && 0 <= b < self@.connections[
                        a
                        ].active_sessions.len() implies (#[trigger] self@.connections[
                        a
                        ].active_sessions[b]).server_name == self@.connections[a].name by {
                            let a0 = if a < i { a } else { a + 1 };
                            assert(self@.connections[a] == old(self)@.connections[a0]);
                        }
                    }
                }
                return Some(c);
            }
            i = i + 1;
        }
        None
    }

    /// Finds the host record with this id.
    pub fn get_connection(&self, id: &str) -> (r: Option<&ServerConnection>)
        ensures
            (exists|i: int|
                0 <= i < self@.connections.len() && (#[trigger] self@.connections[i]).id == id@)
                <==> r is Some,
            r matches Some(c) ==> c@.id == id@ && exists|i: int|
                0 <= i < self@.connections.len() && #[trigger] self@.connections[i] == c@,
    {
        let n: usize = self.connections.len();
        let mut i: usize = 0;
        while i < n
            invariant
                0 <= i <= n == self.connections@.len(),
                forall|k: int| 0 <= k < i ==> (#[trigger] self@.connections[k]).id != id@,
            decreases n - i,
        {
            if str_eq(self.connections[i].id.as_str(), id) {
                proof {
                    assert((self.connections@[i as int])@ == self@.connections[i as int]);
                    assert(self@.connections[i as int].id == id@);
                }
                return Some(&self.connections[i]);
            }
            i = i + 1;
        }
        None
    }

    pub fn connection_count(&self) -> (r: usize)
        ensures
            r == self@.connections.len(),
    {
        self.connections.len()
    }

    /// How many hosts are currently healthy.
    pub fn online_count(&self) -> (r: usize)
        ensures
            r as int == self@.connections.filter(
                |c: ConnView| c.health_status is Online || c.health_status is Warning,
            ).len(),
    {
        let n: usize = self.connections.len();
        let mut count: usize = 0;
        let mut i: usize = 0;
        proof {
            reveal(Seq::filter);
            assert(self@.connections.take(0) =~= Seq::<ConnView>::empty());
        }
        while i < n
            invariant
                0 <= i <= n == self.connections@.len(),
                count as int == self@.connections.take(i as int).filter(
                    |c: ConnView| c.health_status is Online || c.health_status is Warning,
                ).len(),
                count <= i,
            decreases n - i,
    {
            let is_healthy = self.connections[i].is_healthy();
            proof {
                lemma_filter_push(
                    self@.connections.take(i as int),
                    |c: ConnView| c.health_status is Online || c.health_status is Warning,
                    self@.connections[i as int],
                );
                assert(self@.connections.take(i + 1) =~= self@.connections.take(i as int).push(
                    self@.connections[i as int],
                ));
            }
            if is_healthy {
                count = count + 1;
            }
            i = i + 1;
        }
        proof {
            assert(self@.connections.take(n as int) =~= self@.connections);
        }
        count
    }

    /// Prepends a history entry timestamped now, keeping only the newest
    /// fifty entries.
    pub fn add_to_history(&mut self, server_id: String, server_name: String)
        ensures
            final(self)@.connection_history.len() == if old(self)@.connection_history.len() < 50 {
                old(self)@.connection_history.len() + 1
            } else {
                50
            },
            final(self)@.connection_history[0].server_id == server_id@,
            final(self)@.connection_history[0].server_name == server_name@,
            final(self)@.connection_history[0].duration_secs is None,
            forall|k: int|
                1 <= k < final(self)@.connection_history.len()
                    ==> final(self)@.connection_history[k] == old(self)@.connection_history[k - 1],
            final(self)@.connections == old(self)@.connections,
            final(self)@.selected_index == old(self)@.selected_index,
            final(self)@.filter == old(self)@.filter,
            final(self)@.show_only_online == old(self)@.show_only_online,
            final(self)@.active_session_count == old(self)@.active_session_count,
    {
        let now: i64 = now_millis();
        let entry = ConnectionHistoryEntry {
            server_id,
            server_name,
            connected_at_ms: now,
            duration_secs: None,
        };
        self.connection_history.insert(0, entry);
        if self.connection_history.len() > 50 {
            self.connection_history.truncate(50);
        }
    }

    /// Recomputes the cached total of live sessions.
    pub fn update_session_count(&mut self)
        requires
            total_sessions(old(self)@.connections) <= usize::MAX,
        ensures
            final(self)@.active_session_count == total_sessions(old(self)@.connections),
            final(self)@.connections == old(self)@.connections,
            final(self)@.selected_index == old(self)@.selected_index,
            final(self)@.filter == old(self)@.filter,
            final(self)@.show_only_online == old(self)@.show_only_online,
            final(self)@.connection_history == old(self)@.connection_history,
    {
        let n: usize = self.connections.len();
        let mut count: usize = 0;
        let mut i: usize = 0;
        proof {
            assert(self@.connections.take(0) =~= Seq::<ConnView>::empty());
            lemma_total_sessions_nonneg(self@.connections.take(0));
        }
        while i < n
            invariant
                0 <= i <= n == self.connections@.len(),
                total_sessions(self@.connections) <= usize::MAX,
                count as int == total_sessions(self@.connections.take(i as int)),
            decreases n - i,
        {
            proof {
                lemma_total_sessions_take_step(self@.connections, i as int);
                lemma_total_sessions_take_le(self@.connections, i + 1);
            }
            count = count + self.connections[i].session_count();
            i = i + 1;
        }
        proof {
            assert(self@.connections.take(n as int) =~= self@.connections);
        }
        self.active_session_count = count;
    }

    /// Finds a tracked session by process id, as the index of its host and
    /// its position among that host's sessions.
    pub fn get_session_by_pid(&self, pid: u32) -> (r: Option<(usize, usize)>)
        ensures
            r is Some <==> has_session_pid(self@.connections, pid),
            r matches Some((i, j)) ==> {
                &&& 0 <= i < self@.connections.len()
                &&& 0 <= j < self@.connections[i as int].active_sessions.len()
                &&& self@.connections[i as int].active_sessions[j as int].pid == pid
            },
    {
        let n: usize = self.connections.len();
        let mut i: usize = 0;
        while i < n
            invariant
                0 <= i <= n == self.connections@.len(),
                forall|a: int, b: int|
                    0 <= a < i && 0 <= b < self@.connections[a].active_sessions.len() ==> (
                    #[trigger] self@.connections[a].active_sessions[b]).pid != pid,
            decreases n - i,
        {
            let m: usize = self.connections[i].active_sessions.len();
            let mut j: usize = 0;
            while j < m
                invariant
                    0 <= i < n == self.connections@.len(),
                    0 <= j <= m == self@.connections[i as int].active_sessions.len(),
                    forall|b: int|
                        0 <= b < j ==> (
                        #[trigger] self@.connections[i as int].active_sessions[b]).pid != pid,
                decreases m - j,
            {
                if self.connections[i].active_sessions[j].pid == pid {
                    proof {
                        assert(self@.connections[i as int].active_sessions[j as int].pid == pid);
                        assert(has_session_pid(self@.connections, pid));
                    }
                    return Some((i, j));
                }
                j = j + 1;
            }
            i = i + 1;
        }
        proof {
            assert(!has_session_pid(self@.connections, pid));
        }
        None
    }

    /// Applies the outcome of a targeted kill. A refused kill reports
    /// failure and leaves the registry untouched; a successful one drops
    /// every session with that pid and refreshes the session total. A pid
    /// that was never tracked leaves the host records unchanged either way.
    pub fn kill_session(&mut self, pid: u32, os_killed: bool) -> (r: Result<(), String>)
        requires
            total_sessions(old(self)@.connections) <= usize::MAX,
        ensures
            !os_killed ==> ({
                &&& r matches Err(m)
                &&& m@ == kill_failed_msg(pid)
                &&& *final(self) == *old(self)
            }),
            os_killed ==> ({
                &&& r is Ok
                &&& final(self)@.connections == removed_pid(old(self)@.connections, pid)
                &&& final(self)@.active_session_count == total_sessions(
                    removed_pid(old(self)@.connections, pid),
                )
            }),
            final(self)@.selected_index == old(self)@.selected_index,
            final(self)@.filter == old(self)@.filter,
            final(self)@.show_only_online == old(self)@.show_only_online,
            final(self)@.connection_history == old(self)@.connection_history,
            !has_session_pid(old(self)@.connections, pid) ==> final(self)@.connections == old(self)@.connections,
            registry_wf(old(self)@) ==> registry_wf(final(self)@),
    {
        if !os_killed {
            let mut msg = String::from_str("Failed to kill session PID ");
            let p = u64_to_string(pid as u64);
            msg.append(p.as_str());
            return Err(msg);
        }
        let ghost old_conns = self@.connections;
        let n: usize = self.connections.len();
        let mut i: usize = 0;
        while i < n
            invariant
                0 <= i <= n == self.connections@.len(),
                n == old_conns.len(),
                total_sessions(old_conns) <= usize::MAX,
                forall|k: int| i <= k < n ==> (#[trigger] self.connections@[k])@ == old_conns[k],
                forall|k: int|
                    0 <= k < i ==> (#[trigger] self.connections@[k])@ == conn_without_pid(
                        old_conns[k],
                        pid,
                    ),
                self.selected_index == old(self).selected_index,
                self.filter == old(self).filter,
                self.show_only_online == old(self).show_only_online,
                self.connection_history == old(self).connection_history,
                self.active_session_count == old(self).active_session_count,
                old_conns == old(self)@.connections,
            decreases n - i,
        {
            let mut c = self.connections[i].clone();
            proof {
                assert((self.connections@[i as int])@ == old_conns[i as int]);
            }
            let kept = retain_sessions_without_pid(&c.active_sessions, pid);
            c.active_sessions = kept;
            proof {
                assert(c@ =~= conn_without_pid(old_conns[i as int], pid));
            }
            self.connections.set(i, c);
            i = i + 1;
        }
        proof {
            assert(self@.connections =~= removed_pid(old_conns, pid));
            assert forall|k: int| 0 <= k < n implies (#[trigger] self@.connections[
                k
            ]).active_sessions.len() <= old_conns[k].active_sessions.len() by {
                old_conns[k].active_sessions.lemma_filter_len(|s: SessionView| s.pid != pid);
            }
            lemma_total_sessions_le(self@.connections, old_conns);
            if !has_session_pid(old_conns, pid) {
                lemma_kill_unknown_pid_unchanged(old_conns, pid);
            }
            if registry_wf(old(self)@) {
                assert forall|a: int, b: int|
                    0 <= a < self@.connections.len() && 0 <= b < self@.connections[
                    a
                ].active_sessions.len() implies (#[trigger] self@.connections[a].active_sessions[
                    b
                ]).server_name == self@.connections[a].name by {
                    old_conns[a].active_sessions.lemma_filter_pred(
                        |s: SessionView| s.pid != pid,
                        b,
                    );
                    lemma_filter_element_of(
                        old_conns[a].active_sessions,
                        |s: SessionView| s.pid != pid,
                        b,
                    );
                    let sess = self@.connections[a].active_sessions[b];
                    assert(old_conns[a].active_sessions.contains(sess));
                    let j = choose|j: int|
                        0 <= j < old_conns[a].active_sessions.len() && old_conns[
                        a
                    ].active_sessions[j] == sess;
                    assert(old_conns[a].active_sessions[j].server_name == old_conns[a].name);
                }
            }
        }
        self.update_session_count();
        Ok(())
    }

    /// The process ids of every tracked session, host by host: exactly the
    /// pid of each tracked session, in order.
    pub fn collect_session_pids(&self) -> (r: Vec<u32>)
        ensures
            r@ == pids_of_sessions(all_sessions(self@.connections)),
            r@.len() == total_sessions(self@.connections),
    {
        let n: usize = self.connections.len();
        let mut r: Vec<u32> = Vec::new();
        let mut i: usize = 0;
        proof {
            assert(self@.connections.take(0) =~= Seq::<ConnView>::empty());
            lemma_total_sessions_nonneg(self@.connections.take(0));
            assert(r@ =~= pids_of_sessions(all_sessions(self@.connections.take(0))));
        }
        while i < n
            invariant
                0 <= i <= n == self.connections@.len(),
                r@.len() == total_sessions(self@.connections.take(i as int)),
                r@ == pids_of_sessions(all_sessions(self@.connections.take(i as int))),
            decreases n - i,
        {
            let m: usize = self.connections[i].active_sessions.len();
            let mut j: usize = 0;
            proof {
                assert(self@.connections[i as int].active_sessions.take(0) =~= Seq::<
                    SessionView,
                >::empty());
                assert(r@ =~= pids_of_sessions(all_sessions(self@.connections.take(i as int)))
                    + pids_of_sessions(self@.connections[i as int].active_sessions.take(0)));
            }
            while j < m
                invariant
                    0 <= i < n == self.connections@.len(),
                    0 <= j <= m == self@.connections[i as int].active_sessions.len(),
                    r@.len() == total_sessions(self@.connections.take(i as int)) + j,
                    r@ == pids_of_sessions(all_sessions(self@.connections.take(i as int)))
                        + pids_of_sessions(
                        self@.connections[i as int].active_sessions.take(j as int),
                    ),
                decreases m - j,
            {
                let pid = self.connections[i].active_sessions[j].pid;
                r.push(pid);
                proof {
                    assert(self@.connections[i as int].active_sessions[j as int].pid == pid);
                    assert(self@.connections[i as int].active_sessions.take(j + 1)
                        =~= self@.connections[i as int].active_sessions.take(j as int).push(
                        self@.connections[i as int].active_sessions[j as int],
                    ));
                    assert(r@ =~= pids_of_sessions(all_sessions(self@.connections.take(i as int)))
                        + pids_of_sessions(
                        self@.connections[i as int].active_sessions.take(j + 1),
                    ));
                }
                j = j + 1;
            }
            proof {
                lemma_total_sessions_take_step(self@.connections, i as int);
                lemma_all_sessions_take_step(self@.connections, i as int);
                assert(self@.connections[i as int].active_sessions.take(m as int)
                    =~= self@.connections[i as int].active_sessions);
                assert(r@ =~= pids_of_sessions(all_sessions(self@.connections.take(i + 1))));
            }
            i = i + 1;
        }
        proof {
            assert(self@.connections.take(n as int) =~= self@.connections);
        }
        r
    }

    /// Applies the outcomes of a bulk termination: the sessions of every
    /// pid whose request succeeded are dropped, the sessions of every pid
    /// whose request failed stay tracked, and the per-pid outcomes are
    /// tallied into (killed, failed). A failure never aborts the batch.
    pub fn kill_all_sessions(&mut self, pids: &Vec<u32>, outcomes: &Vec<bool>) -> (r: (
        usize,
        usize,
    ))
        requires
            pids@.len() == outcomes@.len(),
            total_sessions(old(self)@.connections) <= usize::MAX,
        ensures
            r.0 as int == count_true(outcomes@),
            r.1 as int == outcomes@.len() - count_true(outcomes@),
            final(self)@.connections == reconciled(
                old(self)@.connections,
                killed_pids(pids@, outcomes@),
            ),
            final(self)@.active_session_count == total_sessions(
                reconciled(old(self)@.connections, killed_pids(pids@, outcomes@)),
            ),
            final(self)@.selected_index == old(self)@.selected_index,
            final(self)@.filter == old(self)@.filter,
            final(self)@.show_only_online == old(self)@.show_only_online,
            final(self)@.connection_history == old(self)@.connection_history,
            registry_wf(old(self)@) ==> registry_wf(final(self)@),
    {
        let n: usize = pids.len();
        let mut succeeded: Vec<u32> = Vec::new();
        let mut i: usize = 0;
        proof {
            assert(pids@.take(0) =~= Seq::<u32>::empty());
            assert(outcomes@.take(0) =~= Seq::<bool>::empty());
            assert(succeeded@ =~= killed_pids(pids@.take(0), outcomes@.take(0)));
        }
        while i < n
            invariant
                0 <= i <= n == pids@.len(),
                n == outcomes@.len(),
                succeeded@ == killed_pids(pids@.take(i as int), outcomes@.take(i as int)),
            decreases n - i,
        {
            proof {
                assert(pids@.take(i + 1).drop_last() =~= pids@.take(i as int));
                assert(outcomes@.take(i + 1).drop_last() =~= outcomes@.take(i as int));
                assert(pids@.take(i + 1).last() == pids@[i as int]);
                assert(outcomes@.take(i + 1).last() == outcomes@[i as int]);
            }
            if outcomes[i] {
                succeeded.push(pids[i]);
            }
            i = i + 1;
        }
        proof {
            assert(pids@.take(n as int) =~= pids@);
            assert(outcomes@.take(n as int) =~= outcomes@);
        }
        let counts = count_outcomes(outcomes);
        self.reconcile_sessions(&succeeded);
        counts
    }

    /// One reconciliation pass: drops every session whose process id was
    /// found dead, and refreshes the session total. Hosts, their order,
    /// and all other fields are untouched.
    pub fn reconcile_sessions(&mut self, dead_pids: &Vec<u32>)
        requires
            total_sessions(old(self)@.connections) <= usize::MAX,
        ensures
            final(self)@.connections == reconciled(old(self)@.connections, dead_pids@),
            final(self)@.active_session_count == total_sessions(
                reconciled(old(self)@.connections, dead_pids@),
            ),
            final(self)@.selected_index == old(self)@.selected_index,
            final(self)@.filter == old(self)@.filter,
            final(self)@.show_only_online == old(self)@.show_only_online,
            final(self)@.connection_history == old(self)@.connection_history,
            registry_wf(old(self)@) ==> registry_wf(final(self)@),
    {
        let ghost old_conns = self@.connections;
        let n: usize = self.connections.len();
        let mut i: usize = 0;
        while i < n
            invariant
                0 <= i <= n == self.connections@.len(),
                n == old_conns.len(),
                total_sessions(old_conns) <= usize::MAX,
                forall|k: int| i <= k < n ==> (#[trigger] self.connections@[k])@ == old_conns[k],
                forall|k: int|
                    0 <= k < i ==> (#[trigger] self.connections@[k])@ == conn_pruned(
                        old_conns[k],
                        dead_pids@,
                    ),
                self.selected_index == old(self).selected_index,
                self.filter == old(self).filter,
                self.show_only_online == old(self).show_only_online,
                self.connection_history == old(self).connection_history,
                self.active_session_count == old(self).active_session_count,
                old_conns == old(self)@.connections,
            decreases n - i,
        {
            let mut c = self.connections[i].clone();
            proof {
                assert((self.connections@[i as int])@ == old_conns[i as int]);
            }
            let kept = retain_live_sessions(&c.active_sessions, dead_pids);
            c.active_sessions = kept;
            proof {
                assert(c@ =~= conn_pruned(old_conns[i as int], dead_pids@));
            }
            self.connections.set(i, c);
            i = i + 1;
        }
        proof {
            assert(self@.connections =~= reconciled(old_conns, dead_pids@));
            assert forall|k: int| 0 <= k < n implies (#[trigger] self@.connections[
                k
            ]).active_sessions.len() <= old_conns[k].active_sessions.len() by {
                old_conns[k].active_sessions.lemma_filter_len(
                    |s: SessionView| !dead_pids@.contains(s.pid),
                );
            }
            lemma_total_sessions_le(self@.connections, old_conns);
            if registry_wf(old(self)@) {
                assert forall|a: int, b: int|
                    0 <= a < self@.connections.len() && 0 <= b < self@.connections[
                    a
                ].active_sessions.len() implies (#[trigger] self@.connections[a].active_sessions[
                    b
                ]).server_name == self@.connections[a].name by {
                    lemma_filter_element_of(
                        old_conns[a].active_sessions,
                        |s: SessionView| !dead_pids@.contains(s.pid),
                        b,
                    );
                    let sess = self@.connections[a].active_sessions[b];
                    assert(old_conns[a].active_sessions.contains(sess));
                    let j = choose|j: int|
                        0 <= j < old_conns[a].active_sessions.len() && old_conns[
                        a
                    ].active_sessions[j] == sess;
                    assert(old_conns[a].active_sessions[j].server_name == old_conns[a].name);
                }
            }
        }
        self.update_session_count();
    }

    /// Marks every host as being re-checked, as an explicit refresh pass
    /// does before probing, and reports how many hosts that is.
    pub fn begin_refresh(&mut self) -> (r: usize)
        ensures
            r == old(self)@.connections.len(),
            final(self)@.connections.len() == old(self)@.connections.len(),
            forall|i: int|
                0 <= i < final(self)@.connections.len() ==> (#[trigger] final(self)@.connections[i]) == (ConnView {
                    health_status: HealthStatus::Connecting,
                    ..old(self)@.connections[i]
                }),
            final(self)@.selected_index == old(self)@.selected_index,
            final(self)@.filter == old(self)@.filter,
            final(self)@.show_only_online == old(self)@.show_only_online,
            final(self)@.connection_history == old(self)@.connection_history,
            final(self)@.active_session_count == old(self)@.active_session_count,
            registry_wf(old(self)@) ==> registry_wf(final(self)@),
    {
        let ghost old_conns = self@.connections;
        let n: usize = self.connections.len();
        let mut i: usize = 0;
        while i < n
            invariant
                0 <= i <= n == self.connections@.len(),
                n == old_conns.len(),
                forall|k: int| i <= k < n ==> (#[trigger] self.connections@[k])@ == old_conns[k],
                forall|k: int|
                    0 <= k < i ==> (#[trigger] self.connections@[k])@ == (ConnView {
                        health_status: HealthStatus::Connecting,
                        ..old_conns[k]
                    }),
                self.selected_index == old(self).selected_index,
                self.filter == old(self).filter,
                self.show_only_online == old(self).show_only_online,
                self.connection_history == old(self).connection_history,
                self.active_session_count == old(self).active_session_count,
                old_conns == old(self)@.connections,
            decreases n - i,
        {
            let mut c = self.connections[i].clone();
            proof {
                assert((self.connections@[i as int])@ == old_conns[i as int]);
            }
            c.health_status = HealthStatus::Connecting;
            proof {
                assert(c@ =~= (ConnView {
                    health_status: HealthStatus::Connecting,
                    ..old_conns[i as int]
                }));
            }
            self.connections.set(i, c);
            i = i + 1;
        }
        n
    }
}

/// An element of a filtered sequence occurs in the original.
proof fn lemma_filter_element_of<A>(s: Seq<A>, pred: spec_fn(A) -> bool, i: int)
    requires
        0 <= i < s.filter(pred).len(),
    ensures
        s.contains(s.filter(pred)[i]),
    decreases s.len(),
{
    reveal(Seq::filter);
    if s.len() > 0 {
        let rest = s.drop_last();
        if pred(s.last()) {
            if i < s.filter(pred).len() - 1 {
                lemma_filter_element_of(rest, pred, i);
                let x = rest.filter(pred)[i];
                let j = choose|j: int| 0 <= j < rest.len() && rest[j] == x;
                assert(s[j] == x);
            } else {
                assert(s[s.len() - 1] == s.filter(pred)[i]);
            }
        } else {
            lemma_filter_element_of(rest, pred, i);
            let x = rest.filter(pred)[i];
            let j = choose|j: int| 0 <= j < rest.len() && rest[j] == x;
            assert(s[j] == x);
        }
    }
}

/// Copies the sessions that do not carry the given pid.
fn retain_sessions_without_pid(sessions: &Vec<SessionInfo>, pid: u32) -> (r: Vec<
    SessionInfo,
>)
    ensures
        session_views(r@) == session_views(sessions@).filter(
            |s: SessionView| s.pid != pid,
        ),
{
    let n: usize = sessions.len();
    let mut r: Vec<SessionInfo> = Vec::new();
    let mut i: usize = 0;
    proof {
        reveal(Seq::filter);
        assert(session_views(sessions@).take(0) =~= Seq::<SessionView>::empty());
        assert(session_views(r@) =~= Seq::<SessionView>::empty());
    }
    while i < n
        invariant
            0 <= i <= n == sessions@.len(),
            session_views(r@) == session_views(sessions@).take(
                i as int,
            ).filter(|s: SessionView| s.pid != pid),
        decreases n - i,
    {
        proof {
            lemma_filter_push(
                session_views(sessions@).take(i as int),
                |s: SessionView| s.pid != pid,
                session_views(sessions@)[i as int],
            );
            assert(session_views(sessions@).take(i + 1)
                =~= session_views(sessions@).take(i as int).push(
                session_views(sessions@)[i as int],
            ));
        }
        if sessions[i].pid != pid {
            r.push(sessions[i].clone());
            proof {
                assert(session_views(r@) =~= session_views(
                    sessions@,
                ).take(i + 1).filter(|s: SessionView| s.pid != pid));
            }
        } else {
            proof {
                assert(session_views(r@) =~= session_views(
                    sessions@,
                ).take(i + 1).filter(|s: SessionView| s.pid != pid));
            }
        }
        i = i + 1;
    }
    proof {
        assert(session_views(sessions@).take(n as int)
            =~= session_views(sessions@));
    }
    r
}

/// Copies the sessions whose process id is not in the dead list.
fn retain_live_sessions(sessions: &Vec<SessionInfo>, dead_pids: &Vec<u32>) -> (r:
    Vec<SessionInfo>)
    ensures
        session_views(r@) == session_views(sessions@).filter(
            |s: SessionView| !dead_pids@.contains(s.pid),
        ),
{
    let n: usize = sessions.len();
    let mut r: Vec<SessionInfo> = Vec::new();
    let mut i: usize = 0;
    proof {
        reveal(Seq::filter);
        assert(session_views(sessions@).take(0) =~= Seq::<SessionView>::empty());
        assert(session_views(r@) =~= Seq::<SessionView>::empty());
    }
    while i < n
        invariant
            0 <= i <= n == sessions@.len(),
            session_views(r@) == session_views(sessions@).take(
                i as int,
            ).filter(|s: SessionView| !dead_pids@.contains(s.pid)),
        decreases n - i,
    {
        proof {
            lemma_filter_push(
                session_views(sessions@).take(i as int),
                |s: SessionView| !dead_pids@.contains(s.pid),
                session_views(sessions@)[i as int],
            );
            assert(session_views(sessions@).take(i + 1)
                =~= session_views(sessions@).take(i as int).push(
                session_views(sessions@)[i as int],
            ));
        }
        let is_dead = contains_pid(dead_pids, sessions[i].pid);
        if !is_dead {
            r.push(sessions[i].clone());
            proof {
                assert(session_views(r@) =~= session_views(
                    sessions@,
                ).take(i + 1).filter(|s: SessionView| !dead_pids@.contains(s.pid)));
            }
        } else {
            proof {
                assert(session_views(r@) =~= session_views(
                    sessions@,
                ).take(i + 1).filter(|s: SessionView| !dead_pids@.contains(s.pid)));
            }
        }
        i = i + 1;
    }
    proof {
        assert(session_views(sessions@).take(n as int)
            =~= session_views(sessions@));
    }
    r
}

/// Tallies a list of per-session kill outcomes into counts of killed and
/// failed, as the bulk-kill summary reports them.
pub fn count_outcomes(outcomes: &Vec<bool>) -> (r: (usize, usize))
    ensures
        r.0 as int == count_true(outcomes@),
        r.1 as int == outcomes@.len() - count_true(outcomes@),
{
    let n: usize = outcomes.len();
    let mut killed: usize = 0;
    let mut i: usize = 0;
    proof {
        assert(outcomes@.take(0) =~= Seq::<bool>::empty());
    }
    while i < n
        invariant
            0 <= i <= n == outcomes@.len(),
            killed as int == count_true(outcomes@.take(i as int)),
            killed <= i,
        decreases n - i,
    {
        proof {
            assert(outcomes@.take(i + 1).drop_last() =~= outcomes@.take(i as int));
            assert(outcomes@.take(i + 1).last() == outcomes@[i as int]);
        }
        if outcomes[i] {
            killed = killed + 1;
        }
        i = i + 1;
    }
    proof {
        assert(outcomes@.take(n as int) =~= outcomes@);
        lemma_count_true_bound(outcomes@);
    }
    (killed, n - killed)
}

proof fn lemma_count_true_bound(s: Seq<bool>)
    ensures
        0 <= count_true(s) <= s.len(),
    decreases s.len(),
{
    if s.len() > 0 {
        lemma_count_true_bound(s.drop_last());
    }
}

/// Every session of every host, in host order.
pub open spec fn all_sessions(conns: Seq<ConnView>) -> Seq<SessionView>
    decreases conns.len(),
{
    if conns.len() == 0 {
        Seq::empty()
    } else {
        all_sessions(conns.drop_last()) + conns.last().active_sessions
    }
}

proof fn lemma_all_sessions_take_step(conns: Seq<ConnView>, i: int)
    requires
        0 <= i < conns.len(),
    ensures
        all_sessions(conns.take(i + 1)) == all_sessions(conns.take(i))
            + conns[i].active_sessions,
{
    assert(conns.take(i + 1).drop_last() =~= conns.take(i));
    assert(conns.take(i + 1).last() == conns[i]);
}

proof fn lemma_total_sessions_update(conns: Seq<ConnView>, i: int, c: ConnView)
    requires
        0 <= i < conns.len(),
    ensures
        total_sessions(conns.update(i, c)) == total_sessions(conns)
            - conns[i].active_sessions.len() + c.active_sessions.len(),
    decreases conns.len(),
{
    if i == conns.len() - 1 {
        assert(conns.update(i, c).drop_last() =~= conns.drop_last());
        assert(conns.update(i, c).last() == c);
    } else {
        assert(conns.update(i, c).drop_last() =~= conns.drop_last().update(i, c));
        assert(conns.update(i, c).last() == conns.last());
        lemma_total_sessions_update(conns.drop_last(), i, c);
    }
}

/// A host record after a successful spawn is registered for it: reachable,
/// its success counter advanced and its last-connected instant stamped,
/// and exactly one new complete session entry carrying the spawned pid.
pub open spec fn launched_conn(c_old: ConnView, c_new: ConnView, pid: u32) -> bool {
    &&& same_target(c_new, c_old)
    &&& c_new.health_status is Online
    &&& c_new.security_status == c_old.security_status
    &&& c_new.stats.connection_count == sat_inc(c_old.stats.connection_count)
    &&& c_new.stats.last_connected_ms is Some
    &&& c_new.stats.latency_ms == c_old.stats.latency_ms
    &&& c_new.stats.latency_history == c_old.stats.latency_history
    &&& c_new.stats.failed_attempts == c_old.stats.failed_attempts
    &&& c_new.stats.total_session_secs == c_old.stats.total_session_secs
    &&& c_new.stats.average_session_secs == c_old.stats.average_session_secs
    &&& c_new.stats.peak_usage_hour == c_old.stats.peak_usage_hour
    &&& c_new.active_sessions.len() == c_old.active_sessions.len() + 1
    &&& c_new.active_sessions.drop_last() == c_old.active_sessions
    &&& c_new.active_sessions.last().pid == pid
    &&& c_new.active_sessions.last().server_name == c_old.name
    &&& c_new.active_sessions.last().window_title == "Ghost SSH: "@ + c_old.name
    &&& c_new.active_sessions.last().is_idle == false
}

impl ServerManager {
    /// Every tracked session, host by host.
    pub fn get_all_sessions(&self) -> (r: Vec<SessionInfo>)
        ensures
            session_views(r@) == all_sessions(self@.connections),
    {
        let n: usize = self.connections.len();
        let mut r: Vec<SessionInfo> = Vec::new();
        let mut i: usize = 0;
        proof {
            assert(self@.connections.take(0) =~= Seq::<ConnView>::empty());
            assert(session_views(r@) =~= Seq::<SessionView>::empty());
        }
        while i < n
            invariant
                0 <= i <= n == self.connections@.len(),
                session_views(r@) == all_sessions(self@.connections.take(i as int)),
            decreases n - i,
        {
            let m: usize = self.connections[i].active_sessions.len();
            let mut j: usize = 0;
            while j < m
                invariant
                    0 <= i < n == self.connections@.len(),
                    0 <= j <= m == self@.connections[i as int].active_sessions.len(),
                    session_views(r@) == all_sessions(self@.connections.take(i as int))
                        + self@.connections[i as int].active_sessions.take(j as int),
                decreases m - j,
            {
                let ghost prev = r@;
                r.push(self.connections[i].active_sessions[j].clone());
                proof {
                    assert(session_views(r@) =~= session_views(prev).push(r@.last()@));
                    assert((self.connections@[i as int])@ == self@.connections[i as int]);
                    assert(self@.connections[i as int].active_sessions[j as int] == (
                    self.connections@[i as int].active_sessions@[j as int])@);
                    assert(self@.connections[i as int].active_sessions.take(j + 1)
                        =~= self@.connections[i as int].active_sessions.take(j as int).push(
                        self@.connections[i as int].active_sessions[j as int],
                    ));
                    assert(session_views(r@) =~= all_sessions(self@.connections.take(i as int))
                        + self@.connections[i as int].active_sessions.take(j + 1));
                }
                j = j + 1;
            }
            proof {
                lemma_all_sessions_take_step(self@.connections, i as int);
                assert(self@.connections[i as int].active_sessions.take(m as int)
                    =~= self@.connections[i as int].active_sessions);
            }
            i = i + 1;
        }
        proof {
            assert(self@.connections.take(n as int) =~= self@.connections);
        }
        r
    }

    /// Registers a successfully spawned session for the named host: marks
    /// it reachable, advances its success counter, stamps the connection
    /// instant, appends the session entry and a history entry, and
    /// refreshes the session total. An unknown id changes nothing.
    pub fn register_spawned_session(&mut self, server_id: &str, pid: u32) -> (r: bool)
        requires
            total_sessions(old(self)@.connections) + 1 <= usize::MAX,
        ensures
            r == exists|i: int|
                0 <= i < old(self)@.connections.len() && (#[trigger] old(self)@.connections[i]).id == server_id@,
            !r ==> *final(self) == *old(self),
            r ==> exists|i: int|
                {
                    &&& 0 <= i < old(self)@.connections.len()
                    &&& (#[trigger] old(self)@.connections[i]).id == server_id@
                    &&& final(self)@.connections.len() == old(self)@.connections.len()
                    &&& forall|k: int|
                        0 <= k < old(self)@.connections.len() && k != i ==> final(self)@.connections[k] == old(self)@.connections[k]
                    &&& launched_conn(old(self)@.connections[i], final(self)@.connections[i], pid)
                    &&& final(self)@.connection_history.len() == if old(
                        self,
                    )@.connection_history.len() < 50 {
                        old(self)@.connection_history.len() + 1
                    } else {
                        50
                    }
                    &&& final(self)@.connection_history[0].server_id == server_id@
                    &&& final(self)@.connection_history[0].server_name == old(self)@.connections[i].name
                    &&& final(self)@.active_session_count == total_sessions(
                        final(self)@.connections,
                    )
                },
            final(self)@.selected_index == old(self)@.selected_index,
            final(self)@.filter == old(self)@.filter,
            final(self)@.show_only_online == old(self)@.show_only_online,
            registry_wf(old(self)@) ==> registry_wf(final(self)@),
    {
        let n: usize = self.connections.len();
        let mut i: usize = 0;
        while i < n
            invariant
                0 <= i <= n == self.connections@.len(),
                *self == *old(self),
                total_sessions(old(self)@.connections) + 1 <= usize::MAX,
                forall|k: int| 0 <= k < i ==> (#[trigger] self@.connections[k]).id != server_id@,
            decreases n - i,
        {
            if str_eq(self.connections[i].id.as_str(), server_id) {
                proof {
                    assert((self.connections@[i as int])@ == self@.connections[i as int]);
                    assert(old(self)@.connections[i as int].id == server_id@);
                }
                let mut c = self.connections[i].clone();
                let name_for_history = c.name.clone();
                let mut title = String::from_str("Ghost SSH: ");
                title.append(c.name.as_str());
                c.health_status = HealthStatus::Online;
                if c.stats.connection_count < u32::MAX {
                    c.stats.connection_count = c.stats.connection_count + 1;
                }
                c.stats.last_connected_ms = Some(now_millis());
                c.add_session(pid, title);
                let ghost cv = c@;
                proof {
                    assert(launched_conn(old(self)@.connections[i as int], cv, pid));
                }
                self.connections.set(i, c);
                proof {
                    assert(self@.connections =~= old(self)@.connections.update(i as int, cv));
                    lemma_total_sessions_update(old(self)@.connections, i as int, cv);
                }
                self.add_to_history(String::from_str(server_id), name_for_history);
                self.update_session_count();
                proof {
                    if registry_wf(old(self)@) {
                        assert forall|a: int, b: int| 0 <= a < b < self@.connections.len() implies (
                        #[trigger] self@.connections[a]).id != (#[trigger] self@.connections[
                        b]).id by {
                            if a != i {
                                assert(self@.connections[a] == old(self)@.connections[a]);
                            }
                            if b != i {
                                assert(self@.connections[b] == old(self)@.connections[b]);
                            }
                        }
                        assert forall|a: int, b: int|
                            0 <= a < self@.connections.len() && 0 <= b < self@.connections[
                        a].active_sessions.len() implies (#[trigger] self@.connections[
                        a].active_sessions[b]).server_name == self@.connections[a].name by {
                            if a != i {
                                assert(self@.connections[a] == old(self)@.connections[a]);
                            } else {
                                assert(self@.connections[a] == cv);
                                if b < cv.active_sessions.len() - 1 {
                                    assert(cv.active_sessions.drop_last()[b] == old(self)@.connections[a].active_sessions[b]);
                                }
                            }
                        }
                    }
                }
                return true;
            }
            i = i + 1;
        }
        false
    }

    /// Records a failed connection attempt for the named host: it is
    /// marked unreachable and its failure counter advances. An unknown id
    /// changes nothing.
    pub fn record_connect_failure(&mut self, server_id: &str) -> (r: bool)
        ensures
            r == exists|i: int|
                0 <= i < old(self)@.connections.len() && (#[trigger] old(self)@.connections[i]).id == server_id@,
            !r ==> *final(self) == *old(self),
            r ==> exists|i: int|
                {
                    &&& 0 <= i < old(self)@.connections.len()
                    &&& (#[trigger] old(self)@.connections[i]).id == server_id@
                    &&& final(self)@.connections == old(self)@.connections.update(
                        i,
                        ConnView {
                            health_status: HealthStatus::Offline,
                            stats: crate::models::StatsView {
                                failed_attempts: sat_inc(
                                    old(self)@.connections[i].stats.failed_attempts,
                                ),
                                ..old(self)@.connections[i].stats
                            },
                            ..old(self)@.connections[i]
                        },
                    )
                },
            final(self)@.selected_index == old(self)@.selected_index,
            final(self)@.filter == old(self)@.filter,
            final(self)@.show_only_online == old(self)@.show_only_online,
            final(self)@.connection_history == old(self)@.connection_history,
            final(self)@.active_session_count == old(self)@.active_session_count,
            registry_wf(old(self)@) ==> registry_wf(final(self)@),
    {
        let n: usize = self.connections.len();
        let mut i: usize = 0;
        while i < n
            invariant
                0 <= i <= n == self.connections@.len(),
                *self == *old(self),
                forall|k: int| 0 <= k < i ==> (#[trigger] self@.connections[k]).id != server_id@,
            decreases n - i,
        {
            if str_eq(self.connections[i].id.as_str(), server_id) {
                proof {
                    assert((self.connections@[i as int])@ == self@.connections[i as int]);
                    assert(old(self)@.connections[i as int].id == server_id@);
                }
                let mut c = self.connections[i].clone();
                c.health_status = HealthStatus::Offline;
                if c.stats.failed_attempts < u32::MAX {
                    c.stats.failed_attempts = c.stats.failed_attempts + 1;
                }
                let ghost cv = c@;
                self.connections.set(i, c);
                proof {
                    assert(cv =~= (ConnView {
                        health_status: HealthStatus::Offline,
                        stats: crate::models::StatsView {
                            failed_attempts: sat_inc(
                                old(self)@.connections[i as int].stats.failed_attempts,
                            ),
                            ..old(self)@.connections[i as int].stats
                        },
                        ..old(self)@.connections[i as int]
                    }));
                    assert(self@.connections =~= old(self)@.connections.update(i as int, cv));
                    if registry_wf(old(self)@) {
                        assert forall|a: int, b: int| 0 <= a < b < self@.connections.len() implies (
                        #[trigger] self@.connections[a]).id != (#[trigger] self@.connections[
                        b]).id by {
                            if a != i {
                                assert(self@.connections[a] == old(self)@.connections[a]);
                            }
                            if b != i {
                                assert(self@.connections[b] == old(self)@.connections[b]);
                            }
                        }
                        assert forall|a: int, b: int|
                            0 <= a < self@.connections.len() && 0 <= b < self@.connections[
                        a].active_sessions.len() implies (#[trigger] self@.connections[
                        a].active_sessions[b]).server_name == self@.connections[a].name by {
                            if a != i {
                                assert(self@.connections[a] == old(self)@.connections[a]);
                            } else {
                                assert(self@.connections[a].active_sessions == old(self)@.connections[a].active_sessions);
                                assert(self@.connections[a].name == old(self)@.connections[a].name);
                            }
                        }
                    }
                }
                return true;
            }
            i = i + 1;
        }
        false
    }
}

/// One host matches the active filter: the lowercased search term occurs in
/// its lowercased name, host or username (an empty term matches all), and,
/// when only reachable hosts are shown, the host is healthy.
pub open spec fn matches_filter(c: ConnView, filter: Seq<char>, show_only_online: bool) -> bool {
    &&& (filter.len() == 0 || contains_seq(lower_of(c.name), lower_of(filter)) || contains_seq(
        lower_of(c.host),
        lower_of(filter),
    ) || contains_seq(lower_of(c.username), lower_of(filter)))
    &&& (!show_only_online || c.health_status is Online || c.health_status is Warning)
}

/// The name of the host an index points at. Kept opaque so that reasoning
/// about orderings of indices does not unfold whole host records.
#[verifier::opaque]
pub open spec fn name_at(conns: Seq<ConnView>, x: usize) -> Seq<char> {
    conns[x as int].name
}

/// Indices sorted by the name of the host they point at.
pub open spec fn sorted_by_name(conns: Seq<ConnView>, r: Seq<usize>) -> bool {
    forall|k: int|
        0 <= k && k + 1 < r.len() ==> lex_le(
            name_at(conns, #[trigger] r[k]),
            name_at(conns, r[k + 1]),
        )
}

/// No index occurs twice.
pub open spec fn distinct_indices(r: Seq<usize>) -> bool {
    forall|k1: int, k2: int| 0 <= k1 < k2 < r.len() ==> r[k1] != r[k2]
}

/// How many hosts match the active filter.
pub open spec fn matching_count(m: ManagerView) -> int {
    m.connections.filter(|c: ConnView| matches_filter(c, m.filter, m.show_only_online)).len()
        as int
}

/// Inserts a fresh index into a name-sorted index list, keeping it sorted.
/// The index must be larger than every present one, so it is genuinely new.
#[verifier::rlimit(100)]
fn insert_sorted_index(conns: &Vec<ServerConnection>, r: &mut Vec<usize>, i: usize)
    requires
        i < conns@.len(),
        forall|k: int| 0 <= k < old(r)@.len() ==> (#[trigger] old(r)@[k]) < i,
        distinct_indices(old(r)@),
        sorted_by_name(conn_views(conns@), old(r)@),
    ensures
        final(r)@.len() == old(r)@.len() + 1,
        sorted_by_name(conn_views(conns@), final(r)@),
        distinct_indices(final(r)@),
        forall|k: int| 0 <= k < final(r)@.len() ==> (#[trigger] final(r)@[k]) < i + 1,
        forall|k: int|
            0 <= k < final(r)@.len() ==> (#[trigger] final(r)@[k] == i || old(r)@.contains(
                final(r)@[k],
            )),
        forall|x: usize| old(r)@.contains(x) ==> final(r)@.contains(x),
        final(r)@.contains(i),
{
    let ghost conns_v = conn_views(conns@);
    let key_i = string_to_chars(conns[i].name.as_str());
    proof {
        reveal(name_at);
        assert((conns@[i as int])@ == conns_v[i as int]);
        assert(key_i@ == name_at(conns_v, i));
    }
    let mut p: usize = 0;
    let mut stopped: bool = false;
    while !stopped && p < r.len()
        invariant
            0 <= p <= r@.len(),
            key_i@ == name_at(conns_v, i),
            conns_v == conn_views(conns@),
            i < conns@.len(),
            *r == *old(r),
            forall|k: int| 0 <= k < r@.len() ==> (#[trigger] r@[k]) < i,
            stopped ==> p < r@.len() && lex_le(key_i@, name_at(conns_v, r@[p as int])),
            forall|k: int| 0 <= k < p ==> lex_le(name_at(conns_v, #[trigger] r@[k]), key_i@),
        decreases r@.len() - p + if stopped {
            0int
        } else {
            1int
        },
    {
        let idx = r[p];
        let key_p = string_to_chars(conns[idx].name.as_str());
        proof {
            reveal(name_at);
            assert((conns@[idx as int])@ == conns_v[idx as int]);
            assert(key_p@ == name_at(conns_v, idx));
        }
        if chars_le(&key_p, &key_i) {
            p = p + 1;
        } else {
            proof {
                lemma_lex_total(name_at(conns_v, r@[p as int]), key_i@);
            }
            stopped = true;
        }
    }
    let ghost prev = r@;
    r.insert(p, i);
    proof {
        assert(r@ =~= prev.take(p as int).push(i) + prev.skip(p as int));
        assert(forall|q: int| 0 <= q < p ==> r@[q] == prev[q]);
        assert(r@[p as int] == i);
        assert(forall|q: int| p < q < r@.len() ==> r@[q] == prev[q - 1]);
        assert forall|k: int| 0 <= k && k + 1 < r@.len() implies lex_le(
            name_at(conns_v, #[trigger] r@[k]),
            name_at(conns_v, r@[k + 1]),
        ) by {
            if k + 1 < p {
            } else if k + 1 == p {
                assert(r@[k] == prev[k]);
                assert(lex_le(name_at(conns_v, prev[k]), key_i@));
            } else if k == p {
                assert(r@[k + 1] == prev[p as int]);
                assert(lex_le(key_i@, name_at(conns_v, prev[p as int])));
            } else {
            }
        }
        assert forall|x: usize| prev.contains(x) implies r@.contains(x) by {
            let q = choose|q: int| 0 <= q < prev.len() && prev[q] == x;
            if q < p {
                assert(r@[q] == x);
            } else {
                assert(r@[q + 1] == x);
            }
        }
    }
}

/// Sorts a strictly increasing index list by the name of the host each
/// index points at. The same indices come out, each once, in name order.
fn sort_indices_by_name(conns: &Vec<ServerConnection>, cand: &Vec<usize>) -> (r: Vec<usize>)
    requires
        forall|k: int| 0 <= k < cand@.len() ==> (#[trigger] cand@[k]) < conns@.len(),
        forall|k1: int, k2: int| 0 <= k1 < k2 < cand@.len() ==> cand@[k1] < cand@[k2],
    ensures
        r@.len() == cand@.len(),
        sorted_by_name(conn_views(conns@), r@),
        distinct_indices(r@),
        forall|x: usize| r@.contains(x) <==> cand@.contains(x),
        forall|k: int| 0 <= k < r@.len() ==> (#[trigger] r@[k]) < conns@.len(),
    decreases 0int,
{
    let n: usize = cand.len();
    let mut r: Vec<usize> = Vec::new();
    let mut j: usize = 0;
    while j < n
        invariant
            0 <= j <= n == cand@.len(),
            forall|k: int| 0 <= k < cand@.len() ==> (#[trigger] cand@[k]) < conns@.len(),
            forall|k1: int, k2: int| 0 <= k1 < k2 < cand@.len() ==> cand@[k1] < cand@[k2],
            r@.len() == j,
            sorted_by_name(conn_views(conns@), r@),
            distinct_indices(r@),
            forall|x: usize| r@.contains(x) <==> cand@.take(j as int).contains(x),
            forall|k: int| 0 <= k < r@.len() ==> (#[trigger] r@[k]) < conns@.len(),
        decreases n - j,
    {
        let next = cand[j];
        proof {
            assert forall|k: int| 0 <= k < r@.len() implies (#[trigger] r@[k]) < next by {
                assert(r@.contains(r@[k]));
                assert(cand@.take(j as int).contains(r@[k]));
                let q = choose|q: int|
                    0 <= q < cand@.take(j as int).len() && cand@.take(j as int)[q] == r@[k];
                assert(cand@[q] == r@[k]);
                assert(cand@[q] < cand@[j as int]);
            }
        }
        let ghost prev = r@;
        insert_sorted_index(conns, &mut r, next);
        proof {
            assert(cand@.take(j + 1) =~= cand@.take(j as int).push(cand@[j as int]));
            assert forall|x: usize| r@.contains(x) implies cand@.take(j + 1).contains(x) by {
                let q = choose|q: int| 0 <= q < r@.len() && r@[q] == x;
                if r@[q] == next {
                    assert(cand@.take(j + 1)[j as int] == next);
                } else {
                    assert(prev.contains(x));
                    let q2 = choose|q2: int|
                        0 <= q2 < cand@.take(j as int).len() && cand@.take(j as int)[q2] == x;
                    assert(cand@.take(j + 1)[q2] == x);
                }
            }
            assert forall|x: usize| cand@.take(j + 1).contains(x) implies r@.contains(x) by {
                let q = choose|q: int|
                    0 <= q < cand@.take(j + 1).len() && #[trigger] cand@.take(j + 1)[q] == x;
                if q == j {
                    assert(r@.contains(next));
                } else {
                    assert(cand@.take(j as int)[q] == x);
                    assert(prev.contains(x));
                }
            }
        }
        j = j + 1;
    }
    proof {
        assert(cand@.take(n as int) =~= cand@);
    }
    r
}

impl ServerManager {
    /// Whether one host matches the active filter; the lowercased search
    /// term is handed in pre-computed.
    fn connection_matches(&self, i: usize, filter_chars: &Vec<char>, filter_empty: bool) -> (r:
        bool)
        requires
            i < self@.connections.len(),
            filter_chars@ == lower_of(self@.filter),
            filter_empty == (self@.filter.len() == 0),
        ensures
            r == matches_filter(
                self@.connections[i as int],
                self@.filter,
                self@.show_only_online,
            ),
    {
        proof {
            assert((self.connections@[i as int])@ == self@.connections[i as int]);
        }
        let text_ok: bool = if filter_empty {
            true
        } else {
            let name_lower = lowercase(self.connections[i].name.as_str());
            let name_chars = string_to_chars(name_lower.as_str());
            let host_lower = lowercase(self.connections[i].host.as_str());
            let host_chars = string_to_chars(host_lower.as_str());
            let user_lower = lowercase(self.connections[i].username.as_str());
            let user_chars = string_to_chars(user_lower.as_str());
            contains_chars(&name_chars, filter_chars) || contains_chars(
                &host_chars,
                filter_chars,
            ) || contains_chars(&user_chars, filter_chars)
        };
        let online_ok: bool = !self.show_only_online || self.connections[i].is_healthy();
        text_ok && online_ok
    }

    /// The indices of the hosts that match the active filter, in registry
    /// order.
    fn matching_indices(&self) -> (r: Vec<usize>)
        ensures
            r@.len() == matching_count(self@),
            forall|k: int|
                0 <= k < r@.len() ==> (#[trigger] r@[k]) < self@.connections.len()
                    && matches_filter(
                    self@.connections[r@[k] as int],
                    self@.filter,
                    self@.show_only_online,
                ),
            forall|j: int|
                0 <= j < self@.connections.len() && matches_filter(
                    #[trigger] self@.connections[j],
                    self@.filter,
                    self@.show_only_online,
                ) ==> r@.contains(j as usize),
            forall|k1: int, k2: int| 0 <= k1 < k2 < r@.len() ==> r@[k1] < r@[k2],
    {
        let ghost pred = |c: ConnView|
            matches_filter(c, self@.filter, self@.show_only_online);
        let filter_lower = lowercase(self.filter.as_str());
        let filter_chars = string_to_chars(filter_lower.as_str());
        let filter_empty = self.filter.as_str().unicode_len() == 0;
        let n: usize = self.connections.len();
        let mut r: Vec<usize> = Vec::new();
        let mut i: usize = 0;
        proof {
            assert(self@.connections.take(0) =~= Seq::<ConnView>::empty());
            assert(self@.connections.take(0).filter(pred) =~= Seq::<ConnView>::empty()) by {
                reveal(Seq::filter);
            }
        }
        while i < n
            invariant
                0 <= i <= n == self.connections@.len(),
                filter_chars@ == lower_of(self@.filter),
                filter_empty == (self@.filter.len() == 0),
                pred == (|c: ConnView| matches_filter(c, self@.filter, self@.show_only_online)),
                r@.len() == self@.connections.take(i as int).filter(pred).len(),
                forall|k: int|
                    0 <= k < r@.len() ==> (#[trigger] r@[k]) < i && matches_filter(
                        self@.connections[r@[k] as int],
                        self@.filter,
                        self@.show_only_online,
                    ),
                forall|j: int|
                    0 <= j < i && matches_filter(
                        #[trigger] self@.connections[j],
                        self@.filter,
                        self@.show_only_online,
                    ) ==> r@.contains(j as usize),
                forall|k1: int, k2: int| 0 <= k1 < k2 < r@.len() ==> r@[k1] < r@[k2],
            decreases n - i,
        {
            proof {
                lemma_filter_push(
                    self@.connections.take(i as int),
                    pred,
                    self@.connections[i as int],
                );
                assert(self@.connections.take(i + 1) =~= self@.connections.take(i as int).push(
                    self@.connections[i as int],
                ));
            }
            let matched = self.connection_matches(i, &filter_chars, filter_empty);
            if matched {
                let ghost prev = r@;
                r.push(i);
                proof {
                    assert forall|j: int|
                        0 <= j < i + 1 && matches_filter(
                            #[trigger] self@.connections[j],
                            self@.filter,
                            self@.show_only_online,
                        ) implies r@.contains(j as usize) by {
                        if j == i {
                            assert(r@[r@.len() - 1] == i as usize);
                        } else {
                            assert(prev.contains(j as usize));
                            let q = choose|q: int| 0 <= q < prev.len() && prev[q] == j as usize;
                            assert(r@[q] == j as usize);
                        }
                    }
                }
            }
            i = i + 1;
        }
        proof {
            assert(self@.connections.take(n as int) =~= self@.connections);
        }
        r
    }

    /// The hosts that match the active filter, as indices into the
    /// registry, sorted by name: exactly the matching hosts appear, each
    /// once, in name order.
    pub fn filtered_connections(&self) -> (r: Vec<usize>)
        ensures
            r@.len() == matching_count(self@),
            forall|k: int|
                0 <= k < r@.len() ==> (#[trigger] r@[k]) < self@.connections.len()
                    && matches_filter(
                    self@.connections[r@[k] as int],
                    self@.filter,
                    self@.show_only_online,
                ),
            forall|j: int|
                0 <= j < self@.connections.len() && matches_filter(
                    #[trigger] self@.connections[j],
                    self@.filter,
                    self@.show_only_online,
                ) ==> r@.contains(j as usize),
            distinct_indices(r@),
            sorted_by_name(self@.connections, r@),
    {
        let cand = self.matching_indices();
        let r = sort_indices_by_name(&self.connections, &cand);
        proof {
            assert(conn_views(self.connections@) =~= self@.connections);
            assert forall|k: int| 0 <= k < r@.len() implies (#[trigger] r@[k])
                < self@.connections.len() && matches_filter(
                self@.connections[r@[k] as int],
                self@.filter,
                self@.show_only_online,
            ) by {
                assert(cand@.contains(r@[k]));
                let q = choose|q: int| 0 <= q < cand@.len() && cand@[q] == r@[k];
                assert(matches_filter(
                    self@.connections[cand@[q] as int],
                    self@.filter,
                    self@.show_only_online,
                ));
            }
        }
        r
    }

    /// Moves the selection one row down the filtered list, wrapping to the
    /// top; with no matching host the selection stays.
    pub fn move_selection_down(&mut self)
        ensures
            matching_count(old(self)@) == 0 ==> *final(self) == *old(self),
            matching_count(old(self)@) > 0 ==> final(self)@ == (ManagerView {
                selected_index: ((old(self)@.selected_index + 1) % matching_count(
                    old(self)@,
                )) as usize,
                ..old(self)@
            }),
    {
        let filtered = self.filtered_connections();
        let len: usize = filtered.len();
        if len > 0 {
            let s: usize = self.selected_index % len;
            let next: usize = (s + 1) % len;
            proof {
                let a = old(self)@.selected_index as int;
                let m = len as int;
                vstd::arithmetic::div_mod::lemma_add_mod_noop(a, 1int, m);
                if len > 1 {
                    vstd::arithmetic::div_mod::lemma_small_mod(1nat, len as nat);
                } else {
                    assert(1int % 1int == 0) by (nonlinear_arith);
                    assert(((a % 1int) + (1int % 1int)) % 1int == 0) by (nonlinear_arith);
                }
            }
            self.selected_index = next;
            proof {
                assert(final(self)@ =~= (ManagerView {
                    selected_index: ((old(self)@.selected_index + 1) % matching_count(
                        old(self)@,
                    )) as usize,
                    ..old(self)@
                }));
            }
        }
    }

    /// Moves the selection one row up the filtered list, wrapping from the
    /// top to the bottom; with no matching host the selection stays.
    pub fn move_selection_up(&mut self)
        ensures
            matching_count(old(self)@) == 0 ==> *final(self) == *old(self),
            matching_count(old(self)@) > 0 ==> final(self)@ == (ManagerView {
                selected_index: if old(self)@.selected_index == 0 {
                    (matching_count(old(self)@) - 1) as usize
                } else {
                    (old(self)@.selected_index - 1) as usize
                },
                ..old(self)@
            }),
    {
        let filtered = self.filtered_connections();
        let len: usize = filtered.len();
        if len > 0 {
            let next: usize = if self.selected_index == 0 {
                len - 1
            } else {
                self.selected_index - 1
            };
            self.selected_index = next;
            proof {
                assert(final(self)@ =~= (ManagerView {
                    selected_index: if old(self)@.selected_index == 0 {
                        (matching_count(old(self)@) - 1) as usize
                    } else {
                        (old(self)@.selected_index - 1) as usize
                    },
                    ..old(self)@
                }));
            }
        }
    }
}

/// One session matches the active session filter: the lowercased term
/// occurs in the lowercased owning-host name or window title, or in the
/// decimal pid; an empty term matches every session.
pub open spec fn matches_session_filter(s: SessionView, filter: Seq<char>) -> bool {
    ||| filter.len() == 0
    ||| contains_seq(lower_of(s.server_name), lower_of(filter))
    ||| contains_seq(lower_of(s.window_title), lower_of(filter))
    ||| contains_seq(dec_str(s.pid as int), lower_of(filter))
}

/// Session indices sorted by start instant, newest first.
pub open spec fn sorted_by_start_desc(sv: Seq<SessionView>, r: Seq<usize>) -> bool {
    forall|k: int|
        0 <= k && k + 1 < r.len() ==> sv[#[trigger] r[k] as int].started_at_ms >= sv[r[k
            + 1] as int].started_at_ms
}

/// Inserts a fresh index into a start-sorted (newest first) index list,
/// keeping it sorted. The index must be larger than every present one.
#[verifier::rlimit(100)]
fn insert_by_start_desc(sessions: &Vec<SessionInfo>, r: &mut Vec<usize>, i: usize)
    requires
        i < sessions@.len(),
        forall|k: int| 0 <= k < old(r)@.len() ==> (#[trigger] old(r)@[k]) < i,
        distinct_indices(old(r)@),
        sorted_by_start_desc(session_views(sessions@), old(r)@),
    ensures
        final(r)@.len() == old(r)@.len() + 1,
        sorted_by_start_desc(session_views(sessions@), final(r)@),
        distinct_indices(final(r)@),
        forall|k: int| 0 <= k < final(r)@.len() ==> (#[trigger] final(r)@[k]) < i + 1,
        forall|k: int|
            0 <= k < final(r)@.len() ==> (#[trigger] final(r)@[k] == i || old(r)@.contains(
                final(r)@[k],
            )),
        forall|x: usize| old(r)@.contains(x) ==> final(r)@.contains(x),
        final(r)@.contains(i),
{
    let ghost sv = session_views(sessions@);
    let key_i: i64 = sessions[i].started_at_ms;
    proof {
        assert((sessions@[i as int])@ == sv[i as int]);
    }
    let mut p: usize = 0;
    let mut stopped: bool = false;
    while !stopped && p < r.len()
        invariant
            0 <= p <= r@.len(),
            key_i == sv[i as int].started_at_ms,
            sv == session_views(sessions@),
            i < sessions@.len(),
            *r == *old(r),
            forall|k: int| 0 <= k < r@.len() ==> (#[trigger] r@[k]) < i,
            stopped ==> p < r@.len() && sv[r@[p as int] as int].started_at_ms < key_i,
            forall|k: int|
                0 <= k < p ==> sv[#[trigger] r@[k] as int].started_at_ms >= key_i,
        decreases r@.len() - p + if stopped {
            0int
        } else {
            1int
        },
    {
        let idx = r[p];
        proof {
            assert((sessions@[idx as int])@ == sv[idx as int]);
        }
        if sessions[idx].started_at_ms >= key_i {
            p = p + 1;
        } else {
            stopped = true;
        }
    }
    let ghost prev = r@;
    r.insert(p, i);
    proof {
        assert(r@ =~= prev.take(p as int).push(i) + prev.skip(p as int));
        assert(forall|q: int| 0 <= q < p ==> r@[q] == prev[q]);
        assert(r@[p as int] == i);
        assert(forall|q: int| p < q < r@.len() ==> r@[q] == prev[q - 1]);
        assert forall|k: int| 0 <= k && k + 1 < r@.len() implies sv[#[trigger] r@[
        k] as int].started_at_ms >= sv[r@[k + 1] as int].started_at_ms by {
            if k + 1 < p {
            } else if k + 1 == p {
                assert(r@[k] == prev[k]);
                assert(sv[prev[k] as int].started_at_ms >= key_i);
            } else if k == p {
                assert(r@[k + 1] == prev[p as int]);
                assert(sv[prev[p as int] as int].started_at_ms < key_i);
            } else {
            }
        }
        assert forall|x: usize| prev.contains(x) implies r@.contains(x) by {
            let q = choose|q: int| 0 <= q < prev.len() && prev[q] == x;
            if q < p {
                assert(r@[q] == x);
            } else {
                assert(r@[q + 1] == x);
            }
        }
    }
}

impl ServerManager {
    /// Whether one of the listed sessions matches the session filter; the
    /// lowercased term is handed in pre-computed.
    fn session_matches(sessions: &Vec<SessionInfo>, i: usize, filter_chars: &Vec<char>,
        filter_empty: bool, ghost_filter: Ghost<Seq<char>>) -> (r: bool)
        requires
            i < sessions@.len(),
            filter_chars@ == lower_of(ghost_filter@),
            filter_empty == (ghost_filter@.len() == 0),
        ensures
            r == matches_session_filter(session_views(sessions@)[i as int], ghost_filter@),
    {
        proof {
            assert((sessions@[i as int])@ == session_views(sessions@)[i as int]);
        }
        if filter_empty {
            return true;
        }
        let name_lower = lowercase(sessions[i].server_name.as_str());
        let name_chars = string_to_chars(name_lower.as_str());
        if contains_chars(&name_chars, filter_chars) {
            return true;
        }
        let title_lower = lowercase(sessions[i].window_title.as_str());
        let title_chars = string_to_chars(title_lower.as_str());
        if contains_chars(&title_chars, filter_chars) {
            return true;
        }
        let pid_str = u64_to_string(sessions[i].pid as u64);
        let pid_chars = string_to_chars(pid_str.as_str());
        contains_chars(&pid_chars, filter_chars)
    }

    /// The tracked sessions that match the session filter, newest first:
    /// exactly the matching sessions appear, as many as match, ordered by
    /// start instant descending.
    pub fn get_filtered_sessions(&self, session_filter: &str) -> (r: Vec<SessionInfo>)
        ensures
            ({
                let sessions = all_sessions(self@.connections);
                let pred = |s: SessionView| matches_session_filter(s, session_filter@);
                &&& r@.len() == sessions.filter(pred).len()
                &&& forall|k: int|
                    0 <= k < r@.len() ==> matches_session_filter(
                        (#[trigger] r@[k])@,
                        session_filter@,
                    ) && exists|j: int| 0 <= j < sessions.len() && r@[k]@ == sessions[j]
                &&& forall|j: int|
                    0 <= j < sessions.len() && matches_session_filter(
                        #[trigger] sessions[j],
                        session_filter@,
                    ) ==> exists|k: int| 0 <= k < r@.len() && r@[k]@ == sessions[j]
                &&& forall|k: int|
                    0 <= k && k + 1 < r@.len() ==> (#[trigger] r@[k])@.started_at_ms >= r@[k
                        + 1]@.started_at_ms
            }),
    {
        let all = self.get_all_sessions();
        let ghost sessions = all_sessions(self@.connections);
        let ghost pred = |s: SessionView| matches_session_filter(s, session_filter@);
        let filter_lower = lowercase(session_filter);
        let filter_chars = string_to_chars(filter_lower.as_str());
        let filter_empty = session_filter.unicode_len() == 0;
        let n: usize = all.len();
        let mut cand: Vec<usize> = Vec::new();
        let mut i: usize = 0;
        proof {
            assert(session_views(all@) == sessions);
            assert(sessions.take(0) =~= Seq::<SessionView>::empty());
            assert(sessions.take(0).filter(pred) =~= Seq::<SessionView>::empty()) by {
                reveal(Seq::filter);
            }
        }
        while i < n
            invariant
                0 <= i <= n == all@.len(),
                session_views(all@) == sessions,
                filter_chars@ == lower_of(session_filter@),
                filter_empty == (session_filter@.len() == 0),
                pred == (|s: SessionView| matches_session_filter(s, session_filter@)),
                cand@.len() == sessions.take(i as int).filter(pred).len(),
                forall|k: int|
                    0 <= k < cand@.len() ==> (#[trigger] cand@[k]) < i && matches_session_filter(
                        sessions[cand@[k] as int],
                        session_filter@,
                    ),
                forall|j: int|
                    0 <= j < i && matches_session_filter(
                        #[trigger] sessions[j],
                        session_filter@,
                    ) ==> cand@.contains(j as usize),
                forall|k1: int, k2: int| 0 <= k1 < k2 < cand@.len() ==> cand@[k1] < cand@[k2],
            decreases n - i,
        {
            proof {
                lemma_filter_push(sessions.take(i as int), pred, sessions[i as int]);
                assert(sessions.take(i + 1) =~= sessions.take(i as int).push(sessions[i as int]));
            }
            let matched = Self::session_matches(
                &all,
                i,
                &filter_chars,
                filter_empty,
                Ghost(session_filter@),
            );
            if matched {
                let ghost prev = cand@;
                cand.push(i);
                proof {
                    assert forall|j: int|
                        0 <= j < i + 1 && matches_session_filter(
                            #[trigger] sessions[j],
                            session_filter@,
                        ) implies cand@.contains(j as usize) by {
                        if j == i {
                            assert(cand@[cand@.len() - 1] == i as usize);
                        } else {
                            assert(prev.contains(j as usize));
                            let q = choose|q: int| 0 <= q < prev.len() && prev[q] == j as usize;
                            assert(cand@[q] == j as usize);
                        }
                    }
                }
            }
            i = i + 1;
        }
        proof {
            assert(sessions.take(n as int) =~= sessions);
        }
        // Sort the matching indices newest first.
        let m: usize = cand.len();
        let mut idxs: Vec<usize> = Vec::new();
        let mut j: usize = 0;
        while j < m
            invariant
                0 <= j <= m == cand@.len(),
                session_views(all@) == sessions,
                forall|k: int| 0 <= k < cand@.len() ==> (#[trigger] cand@[k]) < all@.len(),
                forall|k1: int, k2: int| 0 <= k1 < k2 < cand@.len() ==> cand@[k1] < cand@[k2],
                idxs@.len() == j,
                sorted_by_start_desc(sessions, idxs@),
                distinct_indices(idxs@),
                forall|x: usize| idxs@.contains(x) <==> cand@.take(j as int).contains(x),
                forall|k: int| 0 <= k < idxs@.len() ==> (#[trigger] idxs@[k]) < all@.len(),
            decreases m - j,
        {
            let next = cand[j];
            proof {
                assert forall|k: int| 0 <= k < idxs@.len() implies (#[trigger] idxs@[k])
                    < next by {
                    assert(idxs@.contains(idxs@[k]));
                    assert(cand@.take(j as int).contains(idxs@[k]));
                    let q = choose|q: int|
                        0 <= q < cand@.take(j as int).len() && cand@.take(j as int)[q] == idxs@[k];
                    assert(cand@[q] == idxs@[k]);
                    assert(cand@[q] < cand@[j as int]);
                }
            }
            let ghost prev = idxs@;
            insert_by_start_desc(&all, &mut idxs, next);
            proof {
                assert(cand@.take(j + 1) =~= cand@.take(j as int).push(cand@[j as int]));
                assert forall|x: usize| idxs@.contains(x) implies cand@.take(j + 1).contains(
                    x,
                ) by {
                    let q = choose|q: int| 0 <= q < idxs@.len() && idxs@[q] == x;
                    if idxs@[q] == next {
                        assert(cand@.take(j + 1)[j as int] == next);
                    } else {
                        assert(prev.contains(x));
                        let q2 = choose|q2: int|
                            0 <= q2 < cand@.take(j as int).len() && cand@.take(j as int)[q2] == x;
                        assert(cand@.take(j + 1)[q2] == x);
                    }
                }
                assert forall|x: usize| cand@.take(j + 1).contains(x) implies idxs@.contains(
                    x,
                ) by {
                    let q = choose|q: int|
                        0 <= q < cand@.take(j + 1).len() && #[trigger] cand@.take(j + 1)[q] == x;
                    if q == j {
                        assert(idxs@.contains(next));
                    } else {
                        assert(cand@.take(j as int)[q] == x);
                        assert(prev.contains(x));
                    }
                }
            }
            j = j + 1;
        }
        proof {
            assert(cand@.take(m as int) =~= cand@);
        }
        // Materialise the sorted sessions.
        let total: usize = idxs.len();
        let mut r: Vec<SessionInfo> = Vec::new();
        let mut k: usize = 0;
        while k < total
            invariant
                0 <= k <= total == idxs@.len(),
                session_views(all@) == sessions,
                forall|q: int| 0 <= q < idxs@.len() ==> (#[trigger] idxs@[q]) < all@.len(),
                r@.len() == k,
                forall|q: int| 0 <= q < k ==> (#[trigger] r@[q])@ == sessions[idxs@[q] as int],
            decreases total - k,
        {
            let idx = idxs[k];
            r.push(all[idx].clone());
            proof {
                assert((all@[idx as int])@ == sessions[idx as int]);
            }
            k = k + 1;
        }
        proof {
            assert(r@.len() == sessions.filter(pred).len()) by {
                assert(idxs@.len() == cand@.len());
            }
            assert forall|k2: int| 0 <= k2 < r@.len() implies matches_session_filter(
                (#[trigger] r@[k2])@,
                session_filter@,
            ) && exists|j2: int| 0 <= j2 < sessions.len() && r@[k2]@ == sessions[j2] by {
                let idx = idxs@[k2];
                assert(idxs@.contains(idx));
                assert(cand@.contains(idx));
                let q = choose|q: int| 0 <= q < cand@.len() && cand@[q] == idx;
                assert(matches_session_filter(sessions[cand@[q] as int], session_filter@));
                assert(r@[k2]@ == sessions[idx as int]);
            }
            assert forall|j2: int|
                0 <= j2 < sessions.len() && matches_session_filter(
                    #[trigger] sessions[j2],
                    session_filter@,
                ) implies exists|k2: int| 0 <= k2 < r@.len() && r@[k2]@ == sessions[j2] by {
                assert(cand@.contains(j2 as usize));
                assert(idxs@.contains(j2 as usize));
                let q = choose|q: int| 0 <= q < idxs@.len() && idxs@[q] == j2 as usize;
                assert(r@[q]@ == sessions[j2]);
            }
            assert forall|k2: int| 0 <= k2 && k2 + 1 < r@.len() implies (#[trigger] r@[
            k2])@.started_at_ms >= r@[k2 + 1]@.started_at_ms by {
                assert(sessions[idxs@[k2] as int].started_at_ms >= sessions[idxs@[k2
                    + 1] as int].started_at_ms);
            }
        }
        r
    }
}

} // verus!
