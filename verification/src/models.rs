//! Data model: health and security classifications, per-host connection
//! statistics, live-session records, and the remote-host record itself.
//! Each executable type has a mathematical view that the contracts of the
//! rest of the library are stated over.
use vstd::prelude::*;
use vstd::string::*;

use crate::text::{dec_str, u16_to_string, u64_to_string};

verus! {

/// Reachability classification of a remote host.
#[derive(Debug, Clone, Copy, PartialEq, Eq, Structural)]
pub enum HealthStatus {
    Online,
    Offline,
    Connecting,
    Warning,
    Unknown,
}

/// Heuristic security posture of a remote host.
#[derive(Debug, Clone, Copy, PartialEq, Eq, Structural)]
pub enum SecurityStatus {
    Secure,
    Vulnerable,
    Compromised,
    Unknown,
}

impl HealthStatus {
    pub fn as_str(&self) -> (r: &'static str)
        ensures
            self is Online ==> r@ == "ONLINE"@,
            self is Offline ==> r@ == "OFFLINE"@,
            self is Connecting ==> r@ == "CONNECTING"@,
            self is Warning ==> r@ == "WARNING"@,
            self is Unknown ==> r@ == "UNKNOWN"@,
    {
        match self {
            HealthStatus::Online => "ONLINE",
            HealthStatus::Offline => "OFFLINE",
            HealthStatus::Connecting => "CONNECTING",
            HealthStatus::Warning => "WARNING",
            HealthStatus::Unknown => "UNKNOWN",
        }
    }

    pub fn symbol(&self) -> (r: &'static str)
        ensures
            (self is Online || self is Offline || self is Connecting) ==> r@ == "●"@,
            self is Warning ==> r@ == "▲"@,
            self is Unknown ==> r@ == "?"@,
    {
        match self {
            HealthStatus::Online => "●",
            HealthStatus::Offline => "●",
            HealthStatus::Connecting => "●",
            HealthStatus::Warning => "▲",
            HealthStatus::Unknown => "?",
        }
    }
}

impl SecurityStatus {
    pub fn as_str(&self) -> (r: &'static str)
        ensures
            self is Secure ==> r@ == "SECURE"@,
            self is Vulnerable ==> r@ == "VULNERABLE"@,
            self is Compromised ==> r@ == "COMPROMISED"@,
            self is Unknown ==> r@ == "UNKNOWN"@,
    {
        match self {
            SecurityStatus::Secure => "SECURE",
            SecurityStatus::Vulnerable => "VULNERABLE",
            SecurityStatus::Compromised => "COMPROMISED",
            SecurityStatus::Unknown => "UNKNOWN",
        }
    }

    pub fn symbol(&self) -> (r: &'static str)
        ensures
            self is Secure ==> r@ == "🛡"@,
            self is Vulnerable ==> r@ == "⚠"@,
            self is Compromised ==> r@ == "💀"@,
            self is Unknown ==> r@ == "?"@,
    {
        match self {
            SecurityStatus::Secure => "🛡",
            SecurityStatus::Vulnerable => "⚠",
            SecurityStatus::Compromised => "💀",
            SecurityStatus::Unknown => "?",
        }
    }
}

/// How a remote-access session authenticates.
#[derive(Debug)]
pub enum AuthMethod {
    Password,
    PublicKey { key_path: String },
    Agent,
    Interactive,
}

/// Mathematical image of an authentication method.
#[verifier::ext_equal]
pub enum AuthView {
    Password,
    PublicKey { key_path: Seq<char> },
    Agent,
    Interactive,
}

impl View for AuthMethod {
    type V = AuthView;

    open spec fn view(&self) -> AuthView {
        match self {
            AuthMethod::Password => AuthView::Password,
            AuthMethod::PublicKey { key_path } => AuthView::PublicKey { key_path: key_path@ },
            AuthMethod::Agent => AuthView::Agent,
            AuthMethod::Interactive => AuthView::Interactive,
        }
    }
}

impl Clone for AuthMethod {
    fn clone(&self) -> (r: Self)
        ensures
            r@ == self@,
    {
        match self {
            AuthMethod::Password => AuthMethod::Password,
            AuthMethod::PublicKey { key_path } => AuthMethod::PublicKey {
                key_path: key_path.clone(),
            },
            AuthMethod::Agent => AuthMethod::Agent,
            AuthMethod::Interactive => AuthMethod::Interactive,
        }
    }
}

/// Rolling per-host connection counters. Durations are held in integral
/// units: latencies in milliseconds, session durations in seconds, the
/// last-connected instant in milliseconds since the Unix epoch.
#[derive(Debug)]
pub struct ConnectionStats {
    pub latency_ms: Option<u64>,
    /// Most recent latency measurements in milliseconds, oldest first.
    pub latency_history: Vec<u32>,
    pub last_connected_ms: Option<i64>,
    pub connection_count: u32,
    pub failed_attempts: u32,
    pub total_session_secs: u64,
    pub average_session_secs: u64,
    /// Hour of day (0-23) with the most connections, when known.
    pub peak_usage_hour: Option<u8>,
}

/// Mathematical image of the connection counters.
#[verifier::ext_equal]
pub struct StatsView {
    pub latency_ms: Option<u64>,
    pub latency_history: Seq<u32>,
    pub last_connected_ms: Option<i64>,
    pub connection_count: u32,
    pub failed_attempts: u32,
    pub total_session_secs: u64,
    pub average_session_secs: u64,
    pub peak_usage_hour: Option<u8>,
}

impl View for ConnectionStats {
    type V = StatsView;

    open spec fn view(&self) -> StatsView {
        StatsView {
            latency_ms: self.latency_ms,
            latency_history: self.latency_history@,
            last_connected_ms: self.last_connected_ms,
            connection_count: self.connection_count,
            failed_attempts: self.failed_attempts,
            total_session_secs: self.total_session_secs,
            average_session_secs: self.average_session_secs,
            peak_usage_hour: self.peak_usage_hour,
        }
    }
}

/// The counters a fresh host record starts with.
pub open spec fn fresh_stats() -> StatsView {
    StatsView {
        latency_ms: None,
        latency_history: Seq::empty(),
        last_connected_ms: None,
        connection_count: 0,
        failed_attempts: 0,
        total_session_secs: 0,
        average_session_secs: 0,
        peak_usage_hour: None,
    }
}

impl Default for ConnectionStats {
    fn default() -> (r: Self)
        ensures
            r@ == fresh_stats(),
    {
        let r = ConnectionStats {
            latency_ms: None,
            latency_history: Vec::new(),
            last_connected_ms: None,
            connection_count: 0,
            failed_attempts: 0,
            total_session_secs: 0,
            average_session_secs: 0,
            peak_usage_hour: None,
        };
        proof {
            assert(r@ =~= fresh_stats());
        }
        r
    }
}

impl Clone for ConnectionStats {
    fn clone(&self) -> (r: Self)
        ensures
            r@ == self@,
    {
        let mut history: Vec<u32> = Vec::new();
        let mut i: usize = 0;
        while i < self.latency_history.len()
            invariant
                i <= self.latency_history@.len(),
                history@ == self.latency_history@.take(i as int),
            decreases self.latency_history@.len() - i,
        {
            history.push(self.latency_history[i]);
            proof {
                assert(self.latency_history@.take(i + 1) =~= self.latency_history@.take(
                    i as int,
                ).push(self.latency_history@[i as int]));
            }
            i = i + 1;
        }
        let r = ConnectionStats {
            latency_ms: self.latency_ms,
            latency_history: history,
            last_connected_ms: self.last_connected_ms,
            connection_count: self.connection_count,
            failed_attempts: self.failed_attempts,
            total_session_secs: self.total_session_secs,
            average_session_secs: self.average_session_secs,
            peak_usage_hour: self.peak_usage_hour,
        };
        proof {
            assert(self.latency_history@.take(self.latency_history@.len() as int)
                =~= self.latency_history@);
            assert(r@ =~= self@);
        }
        r
    }
}

impl ConnectionStats {
    /// Share of successful probes among all recorded probes, as a whole
    /// percentage rounded down; 0 when nothing has been recorded yet.
    pub fn uptime_percent(&self) -> (r: u8)
        ensures
            self.connection_count + self.failed_attempts == 0 ==> r == 0,
            self.connection_count + self.failed_attempts > 0 ==> r as int == self.connection_count
                * 100 / (self.connection_count + self.failed_attempts),
    {
        let total: u64 = self.connection_count as u64 + self.failed_attempts as u64;
        if total == 0 {
            0
        } else {
            let pct: u64 = self.connection_count as u64 * 100 / total;
            proof {
                let cc = self.connection_count as int;
                let t = total as int;
                assert(cc * 100 / t <= 100) by (nonlinear_arith)
                    requires
                        t > 0,
                        0 <= cc <= t,
                ;
            }
            pct as u8
        }
    }
}

/// A live remote-access session spawned in a separate process.
#[derive(Debug)]
pub struct SessionInfo {
    pub pid: u32,
    /// Start instant, milliseconds since the Unix epoch.
    pub started_at_ms: i64,
    pub window_title: String,
    pub server_name: String,
    pub is_idle: bool,
}

/// Mathematical image of a live session.
#[verifier::ext_equal]
pub struct SessionView {
    pub pid: u32,
    pub started_at_ms: i64,
    pub window_title: Seq<char>,
    pub server_name: Seq<char>,
    pub is_idle: bool,
}

impl View for SessionInfo {
    type V = SessionView;

    open spec fn view(&self) -> SessionView {
        SessionView {
            pid: self.pid,
            started_at_ms: self.started_at_ms,
            window_title: self.window_title@,
            server_name: self.server_name@,
            is_idle: self.is_idle,
        }
    }
}

impl Clone for SessionInfo {
    fn clone(&self) -> (r: Self)
        ensures
            r@ == self@,
    {
        let r = SessionInfo {
            pid: self.pid,
            started_at_ms: self.started_at_ms,
            window_title: self.window_title.clone(),
            server_name: self.server_name.clone(),
            is_idle: self.is_idle,
        };
        proof {
            assert(r@ =~= self@);
        }
        r
    }
}

/// Elapsed whole seconds between a session's start and `now_ms`, never
/// negative.
pub open spec fn elapsed_secs(started_at_ms: int, now_ms: int) -> int {
    if now_ms <= started_at_ms {
        0
    } else {
        (now_ms - started_at_ms) / 1000
    }
}

/// The `XhYmZs` rendering used for session durations: hours are omitted when
/// zero, and minutes too when both are zero.
pub open spec fn session_duration_str(secs: int) -> Seq<char> {
    let hours = secs / 3600;
    let minutes = (secs % 3600) / 60;
    let seconds = secs % 60;
    if hours > 0 {
        dec_str(hours) + "h "@ + dec_str(minutes) + "m "@ + dec_str(seconds) + "s"@
    } else if minutes > 0 {
        dec_str(minutes) + "m "@ + dec_str(seconds) + "s"@
    } else {
        dec_str(seconds) + "s"@
    }
}

impl SessionInfo {
    pub fn new(pid: u32, window_title: String, server_name: String, started_at_ms: i64) -> (r:
        Self)
        ensures
            r@ == (SessionView {
                pid,
                started_at_ms,
                window_title: window_title@,
                server_name: server_name@,
                is_idle: false,
            }),
    {
        let r = SessionInfo { pid, started_at_ms, window_title, server_name, is_idle: false };
        proof {
            assert(r@ =~= (SessionView {
                pid,
                started_at_ms,
                window_title: r.window_title@,
                server_name: r.server_name@,
                is_idle: false,
            }));
        }
        r
    }

    /// How long this session has been running as of `now_ms`; a clock that
    /// reads earlier than the start counts as zero.
    pub fn duration_secs(&self, now_ms: i64) -> (r: u64)
        ensures
            r as int == elapsed_secs(self.started_at_ms as int, now_ms as int),
    {
        if now_ms <= self.started_at_ms {
            0
        } else {
            let diff: i128 = now_ms as i128 - self.started_at_ms as i128;
            (diff / 1000) as u64
        }
    }

    /// Renders the running time of this session as of `now_ms`.
    pub fn format_duration(&self, now_ms: i64) -> (r: String)
        ensures
            r@ == session_duration_str(elapsed_secs(self.started_at_ms as int, now_ms as int)),
    {
        let secs: u64 = self.duration_secs(now_ms);
        format_session_duration(secs)
    }
}

/// Renders a duration in seconds as `XhYmZs`, omitting leading zero parts.
pub fn format_session_duration(secs: u64) -> (r: String)
    ensures
        r@ == session_duration_str(secs as int),
{
    let hours: u64 = secs / 3600;
    let minutes: u64 = (secs % 3600) / 60;
    let seconds: u64 = secs % 60;
    if hours > 0 {
        let mut s = u64_to_string(hours);
        s.append("h ");
        let m = u64_to_string(minutes);
        s.append(m.as_str());
        s.append("m ");
        let sec = u64_to_string(seconds);
        s.append(sec.as_str());
        s.append("s");
        s
    } else if minutes > 0 {
        let mut s = u64_to_string(minutes);
        s.append("m ");
        let sec = u64_to_string(seconds);
        s.append(sec.as_str());
        s.append("s");
        s
    } else {
        let mut s = u64_to_string(seconds);
        s.append("s");
        s
    }
}

/// One entry of the connection history, newest first.
#[derive(Debug)]
pub struct ConnectionHistoryEntry {
    pub server_id: String,
    pub server_name: String,
    /// Milliseconds since the Unix epoch.
    pub connected_at_ms: i64,
    pub duration_secs: Option<u64>,
}

/// Mathematical image of a history entry.
#[verifier::ext_equal]
pub struct HistoryView {
    pub server_id: Seq<char>,
    pub server_name: Seq<char>,
    pub connected_at_ms: i64,
    pub duration_secs: Option<u64>,
}

impl View for ConnectionHistoryEntry {
    type V = HistoryView;

    open spec fn view(&self) -> HistoryView {
        HistoryView {
            server_id: self.server_id@,
            server_name: self.server_name@,
            connected_at_ms: self.connected_at_ms,
            duration_secs: self.duration_secs,
        }
    }
}

impl Clone for ConnectionHistoryEntry {
    fn clone(&self) -> (r: Self)
        ensures
            r@ == self@,
    {
        let r = ConnectionHistoryEntry {
            server_id: self.server_id.clone(),
            server_name: self.server_name.clone(),
            connected_at_ms: self.connected_at_ms,
            duration_secs: self.duration_secs,
        };
        proof {
            assert(r@ =~= self@);
        }
        r
    }
}

/// The images of a session sequence.
pub open spec fn session_views(s: Seq<SessionInfo>) -> Seq<SessionView> {
    Seq::new(s.len(), |i: int| s[i]@)
}

/// A configured remote host: identity, connection coordinates, and the
/// runtime status attached to it.
#[derive(Debug)]
pub struct ServerConnection {
    pub id: String,
    pub name: String,
    pub host: String,
    pub port: u16,
    pub username: String,
    pub auth_method: AuthMethod,
    pub description: Option<String>,
    pub tags: Vec<String>,
    /// Milliseconds since the Unix epoch.
    pub created_at_ms: i64,
    pub last_modified_ms: i64,
    pub health_status: HealthStatus,
    pub security_status: SecurityStatus,
    pub stats: ConnectionStats,
    pub active_sessions: Vec<SessionInfo>,
}

/// Mathematical image of a host record.
#[verifier::ext_equal]
pub struct ConnView {
    pub id: Seq<char>,
    pub name: Seq<char>,
    pub host: Seq<char>,
    pub port: u16,
    pub username: Seq<char>,
    pub auth_method: AuthView,
    pub description: Option<Seq<char>>,
    pub tags: Seq<Seq<char>>,
    pub created_at_ms: i64,
    pub last_modified_ms: i64,
    pub health_status: HealthStatus,
    pub security_status: SecurityStatus,
    pub stats: StatsView,
    pub active_sessions: Seq<SessionView>,
}

impl View for ServerConnection {
    type V = ConnView;

    open spec fn view(&self) -> ConnView {
        ConnView {
            id: self.id@,
            name: self.name@,
            host: self.host@,
            port: self.port,
            username: self.username@,
            auth_method: self.auth_method@,
            description: match self.description {
                Some(d) => Some(d@),
                None => None,
            },
            tags: self.tags.deep_view(),
            created_at_ms: self.created_at_ms,
            last_modified_ms: self.last_modified_ms,
            health_status: self.health_status,
            security_status: self.security_status,
            stats: self.stats@,
            active_sessions: session_views(self.active_sessions@),
        }
    }
}

/// The identity and configuration of a host record, without its runtime
/// status: two images agreeing here describe the same configured target.
pub open spec fn same_target(a: ConnView, b: ConnView) -> bool {
    &&& a.id == b.id
    &&& a.name == b.name
    &&& a.host == b.host
    &&& a.port == b.port
    &&& a.username == b.username
    &&& a.auth_method == b.auth_method
    &&& a.description == b.description
    &&& a.tags == b.tags
    &&& a.created_at_ms == b.created_at_ms
    &&& a.last_modified_ms == b.last_modified_ms
}

impl Clone for ServerConnection {
    fn clone(&self) -> (r: Self)
        ensures
            r@ == self@,
    {
        let mut tags: Vec<String> = Vec::new();
        let mut i: usize = 0;
        while i < self.tags.len()
            invariant
                i <= self.tags@.len(),
                tags@.len() == i,
                forall|k: int| 0 <= k < i ==> tags@[k]@ == self.tags@[k]@,
            decreases self.tags@.len() - i,
        {
            tags.push(self.tags[i].clone());
            i = i + 1;
        }
        let mut sessions: Vec<SessionInfo> = Vec::new();
        let mut j: usize = 0;
        while j < self.active_sessions.len()
            invariant
                j <= self.active_sessions@.len(),
                sessions@.len() == j,
                forall|k: int| 0 <= k < j ==> sessions@[k]@ == self.active_sessions@[k]@,
            decreases self.active_sessions@.len() - j,
        {
            sessions.push(self.active_sessions[j].clone());
            j = j + 1;
        }
        let r = ServerConnection {
            id: self.id.clone(),
            name: self.name.clone(),
            host: self.host.clone(),
            port: self.port,
            username: self.username.clone(),
            auth_method: self.auth_method.clone(),
            description: match &self.description {
                Some(d) => Some(d.clone()),
                None => None,
            },
            tags,
            created_at_ms: self.created_at_ms,
            last_modified_ms: self.last_modified_ms,
            health_status: self.health_status,
            security_status: self.security_status,
            stats: self.stats.clone(),
            active_sessions: sessions,
        };
        proof {
            assert(r.tags.deep_view() =~= self.tags.deep_view());
            assert(r@ =~= self@);
        }
        r
    }
}

impl ServerConnection {
    /// Creates a fresh host record with a newly drawn unique id, agent
    /// authentication, and unknown status. The id and the creation instant
    /// come from the id generator and the clock; everything else is pinned.
    pub fn new(name: String, host: String, port: u16, username: String) -> (r: Self)
        ensures
            r@.name == name@,
            r@.host == host@,
            r@.port == port,
            r@.username == username@,
            r@.auth_method is Agent,
            r@.description is None,
            r@.tags.len() == 0,
            r@.health_status is Unknown,
            r@.security_status is Unknown,
            r@.stats == fresh_stats(),
            r@.active_sessions.len() == 0,
            r@.id.len() == 36,
            r@.created_at_ms == r@.last_modified_ms,
    {
        let now: i64 = now_millis();
        let r = ServerConnection {
            id: fresh_id(),
            name,
            host,
            port,
            username,
            auth_method: AuthMethod::Agent,
            description: None,
            tags: Vec::new(),
            created_at_ms: now,
            last_modified_ms: now,
            health_status: HealthStatus::Unknown,
            security_status: SecurityStatus::Unknown,
            stats: ConnectionStats::default(),
            active_sessions: Vec::new(),
        };
        proof {
            assert(r@.tags =~= Seq::<Seq<char>>::empty());
            assert(r@.active_sessions =~= Seq::<SessionView>::empty());
        }
        r
    }

    /// The `user@host:port` rendering of this record's coordinates.
    pub fn connection_string(&self) -> (r: String)
        ensures
            r@ == self.username@ + "@"@ + self.host@ + ":"@ + dec_str(self.port as int),
    {
        let mut s = String::from_str(self.username.as_str());
        s.append("@");
        s.append(self.host.as_str());
        s.append(":");
        let p = u16_to_string(self.port);
        s.append(p.as_str());
        s
    }

    /// A host counts as healthy when it is reachable, including the
    /// degraded-but-reachable state.
    pub fn is_healthy(&self) -> (r: bool)
        ensures
            r == (self.health_status is Online || self.health_status is Warning),
    {
        match self.health_status {
            HealthStatus::Online | HealthStatus::Warning => true,
            _ => false,
        }
    }

    pub fn has_active_sessions(&self) -> (r: bool)
        ensures
            r == (self@.active_sessions.len() > 0),
    {
        self.active_sessions.len() > 0
    }

    pub fn session_count(&self) -> (r: usize)
        ensures
            r == self@.active_sessions.len(),
    {
        self.active_sessions.len()
    }

    /// Records a newly spawned session for this host. The start instant
    /// comes from the clock; every other part of the record is pinned, and
    /// the existing sessions are untouched.
    pub fn add_session(&mut self, pid: u32, window_title: String)
        ensures
            final(self)@.active_sessions.len() == old(self)@.active_sessions.len() + 1,
            final(self)@.active_sessions.drop_last() == old(self)@.active_sessions,
            final(self)@.active_sessions.last().pid == pid,
            final(self)@.active_sessions.last().window_title == window_title@,
            final(self)@.active_sessions.last().server_name == old(self)@.name,
            final(self)@.active_sessions.last().is_idle == false,
            same_target(final(self)@, old(self)@),
            final(self)@.health_status == old(self)@.health_status,
            final(self)@.security_status == old(self)@.security_status,
            final(self)@.stats == old(self)@.stats,
    {
        let now: i64 = now_millis();
        let name = self.name.clone();
        let session = SessionInfo::new(pid, window_title, name, now);
        self.active_sessions.push(session);
        proof {
            assert(final(self)@.active_sessions.drop_last() =~= old(self)@.active_sessions);
        }
    }
}

/// Relies on `uuid::Uuid::new_v4` and its `Display` rendering: a freshly
/// drawn random identifier formatted in the 36-character hyphenated form.
/// The value is random, so nothing beyond its shape is promised.
#[verifier::external_body]
pub(crate) fn fresh_id() -> (r: String)
    ensures
        r@.len() == 36,
{
    uuid::Uuid::new_v4().to_string()
}

/// Relies on `chrono::Utc::now`: the current wall-clock instant in
/// milliseconds since the Unix epoch. Nothing is promised of the value.
#[verifier::external_body]
pub(crate) fn now_millis() -> i64 {
    chrono::Utc::now().timestamp_millis()
}

} // verus!
