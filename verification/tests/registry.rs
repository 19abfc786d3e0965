use ghost::manager::{ServerManager, count_outcomes};
use ghost::models::{AuthMethod, HealthStatus, SecurityStatus, ServerConnection, SessionInfo};

fn target(name: &str, host: &str, port: u16, user: &str) -> ServerConnection {
    ServerConnection::new(name.to_string(), host.to_string(), port, user.to_string())
}

fn manager_with(names: &[&str]) -> ServerManager {
    let mut m = ServerManager::default();
    for name in names {
        m.insert_connection(target(name, "example.com", 22, "root"));
    }
    m
}

fn pids_of(m: &ServerManager) -> Vec<u32> {
    m.collect_session_pids()
}

#[test]
fn fresh_records_have_unique_ids_and_unknown_status() {
    let a = target("a", "h", 22, "u");
    let b = target("b", "h", 22, "u");
    assert_eq!(a.id.len(), 36);
    assert_ne!(a.id, b.id);
    assert_eq!(a.health_status, HealthStatus::Unknown);
    assert_eq!(a.security_status, SecurityStatus::Unknown);
    assert!(a.active_sessions.is_empty());
    assert!(matches!(a.auth_method, AuthMethod::Agent));
}

#[test]
fn connection_string_renders_coordinates() {
    let a = target("a", "example.com", 2200, "alice");
    assert_eq!(a.connection_string(), "alice@example.com:2200");
}

#[test]
fn insert_get_and_remove_by_id() {
    let mut m = ServerManager::default();
    let a = target("alpha", "h", 22, "u");
    let id = a.id.clone();
    m.insert_connection(a);
    assert_eq!(m.connection_count(), 1);
    let found = m.get_connection(&id).expect("present");
    assert_eq!(found.name, "alpha");
    assert!(m.get_connection("no-such-id").is_none());

    // Replacing under the same id keeps one record.
    let mut b = target("alpha-renamed", "h2", 23, "u2");
    b.id = id.clone();
    m.insert_connection(b);
    assert_eq!(m.connection_count(), 1);
    assert_eq!(m.get_connection(&id).unwrap().name, "alpha-renamed");

    let removed = m.remove_connection(&id).expect("removed");
    assert_eq!(removed.name, "alpha-renamed");
    assert_eq!(m.connection_count(), 0);
    assert!(m.remove_connection(&id).is_none());
}

#[test]
fn online_count_counts_healthy_hosts() {
    let mut m = manager_with(&["a", "b", "c"]);
    assert_eq!(m.online_count(), 0);
    m.connections[0].health_status = HealthStatus::Online;
    m.connections[1].health_status = HealthStatus::Warning;
    m.connections[2].health_status = HealthStatus::Offline;
    assert_eq!(m.online_count(), 2);
}

#[test]
fn sessions_are_tracked_per_host() {
    let mut m = manager_with(&["a"]);
    let id = m.connections[0].id.clone();
    assert!(m.register_spawned_session(&id, 4242));
    assert_eq!(m.connections[0].session_count(), 1);
    assert!(m.connections[0].has_active_sessions());
    assert_eq!(m.active_session_count, 1);
    assert_eq!(m.connections[0].health_status, HealthStatus::Online);
    assert_eq!(m.connections[0].stats.connection_count, 1);
    let (i, j) = m.get_session_by_pid(4242).expect("tracked");
    assert_eq!((i, j), (0, 0));
    let session = &m.connections[0].active_sessions[0];
    assert_eq!(session.pid, 4242);
    assert_eq!(session.server_name, "a");
    assert_eq!(session.window_title, "Ghost SSH: a");
    assert!(!session.is_idle);
    assert_eq!(m.connection_history.len(), 1);
    assert_eq!(m.connection_history[0].server_id, id);
    assert_eq!(m.connection_history[0].server_name, "a");

    assert!(!m.register_spawned_session("unknown", 1));
}

#[test]
fn two_back_to_back_launches_leave_no_partial_entry() {
    let mut m = manager_with(&["a"]);
    let id = m.connections[0].id.clone();
    assert!(m.register_spawned_session(&id, 100));
    assert!(m.register_spawned_session(&id, 101));
    assert_eq!(m.connections[0].session_count(), 2);
    assert_eq!(m.active_session_count, 2);
    for session in &m.connections[0].active_sessions {
        // Every entry is complete and names its owning host.
        assert!(session.pid == 100 || session.pid == 101);
        assert_eq!(session.server_name, m.connections[0].name);
        assert!(session.window_title.starts_with("Ghost SSH: "));
    }
}

#[test]
fn failed_connect_marks_the_host_offline() {
    let mut m = manager_with(&["a"]);
    let id = m.connections[0].id.clone();
    assert!(m.record_connect_failure(&id));
    assert_eq!(m.connections[0].health_status, HealthStatus::Offline);
    assert_eq!(m.connections[0].stats.failed_attempts, 1);
    assert!(!m.record_connect_failure("unknown"));
}

#[test]
fn kill_unknown_pid_reports_failure_and_changes_nothing() {
    let mut m = manager_with(&["a"]);
    let id = m.connections[0].id.clone();
    assert!(m.register_spawned_session(&id, 7));
    let before = pids_of(&m);

    // The termination request for an unknown pid is refused by the system.
    let result = m.kill_session(99999, false);
    assert_eq!(result, Err("Failed to kill session PID 99999".to_string()));
    assert_eq!(pids_of(&m), before);
    assert_eq!(m.active_session_count, 1);

    // Even a kill the system reported successful removes nothing when the
    // pid was never tracked.
    assert_eq!(m.kill_session(99999, true), Ok(()));
    assert_eq!(pids_of(&m), before);
}

#[test]
fn kill_known_pid_drops_its_sessions() {
    let mut m = manager_with(&["a", "b"]);
    let id_a = m.connections[0].id.clone();
    let id_b = m.connections[1].id.clone();
    assert!(m.register_spawned_session(&id_a, 7));
    assert!(m.register_spawned_session(&id_b, 8));
    assert_eq!(m.kill_session(7, true), Ok(()));
    assert_eq!(pids_of(&m), vec![8]);
    assert_eq!(m.active_session_count, 1);
}

#[test]
fn reconcile_drops_dead_sessions_and_is_idempotent() {
    let mut m = manager_with(&["a", "b"]);
    let id_a = m.connections[0].id.clone();
    let id_b = m.connections[1].id.clone();
    assert!(m.register_spawned_session(&id_a, 10));
    assert!(m.register_spawned_session(&id_a, 11));
    assert!(m.register_spawned_session(&id_b, 12));

    let dead = vec![11, 12];
    m.reconcile_sessions(&dead);
    assert_eq!(pids_of(&m), vec![10]);
    assert_eq!(m.active_session_count, 1);

    // A second pass with no intervening process-state change is a no-op.
    let names_before: Vec<String> = m.connections.iter().map(|c| c.name.clone()).collect();
    m.reconcile_sessions(&dead);
    assert_eq!(pids_of(&m), vec![10]);
    assert_eq!(m.active_session_count, 1);
    let names_after: Vec<String> = m.connections.iter().map(|c| c.name.clone()).collect();
    assert_eq!(names_before, names_after);
}

#[test]
fn bulk_kill_keeps_refused_sessions_and_tallies_outcomes() {
    let mut m = manager_with(&["a", "b"]);
    let id_a = m.connections[0].id.clone();
    let id_b = m.connections[1].id.clone();
    assert!(m.register_spawned_session(&id_a, 10));
    assert!(m.register_spawned_session(&id_b, 11));
    let pids = m.collect_session_pids();
    assert_eq!(pids, vec![10, 11]);

    // The first request succeeds, the second is refused: the summary
    // counts both, and the refused pid's session stays tracked.
    let outcomes = vec![true, false];
    assert_eq!(count_outcomes(&outcomes), (1, 1));
    let (killed, failed) = m.kill_all_sessions(&pids, &outcomes);
    assert_eq!((killed, failed), (1, 1));
    assert_eq!(pids_of(&m), vec![11]);
    assert_eq!(m.active_session_count, 1);
    assert_eq!(m.connection_count(), 2);

    // A batch whose every request succeeds empties the registry.
    let pids = m.collect_session_pids();
    let outcomes = vec![true];
    assert_eq!(m.kill_all_sessions(&pids, &outcomes), (1, 0));
    assert!(pids_of(&m).is_empty());
    assert_eq!(m.active_session_count, 0);
}

#[test]
fn filtered_sessions_match_newest_first() {
    let mut m = manager_with(&["alpha", "beta"]);
    let id_a = m.connections[0].id.clone();
    let id_b = m.connections[1].id.clone();
    assert!(m.register_spawned_session(&id_a, 100));
    assert!(m.register_spawned_session(&id_b, 200));
    assert!(m.register_spawned_session(&id_a, 300));
    // Pin the start instants so the order is decided by them.
    m.connections[0].active_sessions[0].started_at_ms = 1_000;
    m.connections[0].active_sessions[1].started_at_ms = 3_000;
    m.connections[1].active_sessions[0].started_at_ms = 2_000;

    let all: Vec<u32> = m.get_filtered_sessions("").iter().map(|s| s.pid).collect();
    assert_eq!(all, vec![300, 200, 100]);

    // The filter searches the owning host's name, case-insensitively.
    let hits: Vec<u32> = m.get_filtered_sessions("ALPHA").iter().map(|s| s.pid).collect();
    assert_eq!(hits, vec![300, 100]);

    // It also searches the window title and the decimal pid.
    let hits: Vec<u32> = m.get_filtered_sessions("ghost ssh: beta").iter().map(|s| s.pid).collect();
    assert_eq!(hits, vec![200]);
    let hits: Vec<SessionInfo> = m.get_filtered_sessions("30");
    assert_eq!(hits.len(), 1);
    assert_eq!(hits[0].pid, 300);
    assert!(m.get_filtered_sessions("nothing-like-this").is_empty());
}

#[test]
fn history_keeps_the_newest_fifty() {
    let mut m = ServerManager::default();
    for i in 0..55 {
        m.add_to_history(format!("id-{}", i), format!("name-{}", i));
    }
    assert_eq!(m.connection_history.len(), 50);
    assert_eq!(m.connection_history[0].server_id, "id-54");
    assert_eq!(m.connection_history[49].server_id, "id-5");
    assert!(m.connection_history[0].duration_secs.is_none());
}

#[test]
fn filtered_connections_match_and_sort_by_name() {
    let mut m = ServerManager::default();
    m.insert_connection(target("Gamma", "one.example.com", 22, "root"));
    m.insert_connection(target("alpha", "two.example.com", 22, "deploy"));
    m.insert_connection(target("beta", "three.example.com", 22, "root"));

    let all = m.filtered_connections();
    let names: Vec<&str> = all.iter().map(|&i| m.connections[i].name.as_str()).collect();
    // Sorted by code point: capital letters come before lower-case ones.
    assert_eq!(names, vec!["Gamma", "alpha", "beta"]);

    m.filter = "ALPH".to_string();
    let hits = m.filtered_connections();
    assert_eq!(hits.len(), 1);
    assert_eq!(m.connections[hits[0]].name, "alpha");

    // The filter also searches hosts and usernames, case-insensitively.
    m.filter = "THREE.EX".to_string();
    let hits = m.filtered_connections();
    assert_eq!(hits.len(), 1);
    assert_eq!(m.connections[hits[0]].name, "beta");

    m.filter = "deploy".to_string();
    let hits = m.filtered_connections();
    assert_eq!(hits.len(), 1);
    assert_eq!(m.connections[hits[0]].name, "alpha");

    m.filter = String::new();
    m.show_only_online = true;
    assert!(m.filtered_connections().is_empty());
    let id = m.connections[1].id.clone();
    assert!(m.register_spawned_session(&id, 5));
    let hits = m.filtered_connections();
    assert_eq!(hits.len(), 1);
    assert_eq!(m.connections[hits[0]].name, "alpha");
}

#[test]
fn selection_wraps_around_the_filtered_list() {
    let mut m = manager_with(&["a", "b", "c"]);
    assert_eq!(m.selected_index, 0);
    m.move_selection_down();
    assert_eq!(m.selected_index, 1);
    m.move_selection_down();
    assert_eq!(m.selected_index, 2);
    m.move_selection_down();
    assert_eq!(m.selected_index, 0);
    m.move_selection_up();
    assert_eq!(m.selected_index, 2);
    m.move_selection_up();
    assert_eq!(m.selected_index, 1);

    let mut empty = ServerManager::default();
    empty.move_selection_down();
    empty.move_selection_up();
    assert_eq!(empty.selected_index, 0);
}

#[test]
fn begin_refresh_marks_every_host() {
    let mut m = manager_with(&["a", "b"]);
    let n = m.begin_refresh();
    assert_eq!(n, 2);
    for c in &m.connections {
        assert_eq!(c.health_status, HealthStatus::Connecting);
    }
}

#[test]
fn all_sessions_listed_in_host_order() {
    let mut m = manager_with(&["a", "b"]);
    let id_a = m.connections[0].id.clone();
    let id_b = m.connections[1].id.clone();
    assert!(m.register_spawned_session(&id_b, 20));
    assert!(m.register_spawned_session(&id_a, 21));
    let sessions = m.get_all_sessions();
    assert_eq!(sessions.len(), 2);
    assert_eq!(sessions[0].pid, 21);
    assert_eq!(sessions[1].pid, 20);
}

#[test]
fn uptime_percent_rounds_down() {
    let mut c = target("a", "h", 22, "u");
    assert_eq!(c.stats.uptime_percent(), 0);
    c.stats.connection_count = 2;
    c.stats.failed_attempts = 1;
    assert_eq!(c.stats.uptime_percent(), 66);
    c.stats.failed_attempts = 0;
    assert_eq!(c.stats.uptime_percent(), 100);
}
