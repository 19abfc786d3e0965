use ghost::health::{HealthMonitor, MonitorAction};
use ghost::manager::ServerManager;
use ghost::models::{HealthStatus, ServerConnection};
use ghost::ssh::TcpProbeOutcome;

fn target(name: &str) -> ServerConnection {
    ServerConnection::new(name.to_string(), "example.com".to_string(), 22, "root".to_string())
}

#[test]
fn monitor_walks_its_snapshot_and_halts_after_stop() {
    let mut monitor = HealthMonitor::new(30);
    assert_eq!(monitor.check_interval_secs, 30);
    assert_eq!(monitor.next_action(), MonitorAction::Halt);

    let a = target("a");
    let b = target("b");
    let id_a = a.id.clone();
    let id_b = b.id.clone();
    monitor.start(vec![a, b]);
    assert_eq!(monitor.next_action(), MonitorAction::ProbeTarget(0));

    let first = monitor.record_result(&TcpProbeOutcome::Connected, 3);
    assert_eq!(first.server_id, id_a);
    assert_eq!(first.result.status, HealthStatus::Online);
    assert_eq!(monitor.next_action(), MonitorAction::ProbeTarget(1));

    let second = monitor.record_result(&TcpProbeOutcome::TimedOut, 5000);
    assert_eq!(second.server_id, id_b);
    assert_eq!(second.result.status, HealthStatus::Offline);

    // The sweep is done: wait for the next tick, then start over.
    assert_eq!(monitor.next_action(), MonitorAction::WaitTick);
    monitor.begin_tick();
    assert_eq!(monitor.next_action(), MonitorAction::ProbeTarget(0));

    // Once stopped, the only action left is to halt: no further update
    // message can be produced.
    monitor.stop();
    assert_eq!(monitor.next_action(), MonitorAction::Halt);
}

#[test]
fn closed_channel_stops_the_monitor() {
    let mut monitor = HealthMonitor::new(30);
    monitor.start(vec![target("a")]);
    monitor.channel_closed();
    assert_eq!(monitor.next_action(), MonitorAction::Halt);
}

#[test]
fn check_now_is_independent_of_the_schedule() {
    let monitor = HealthMonitor::new(30);
    let server = target("a");
    let result = monitor.check_server_now(&server, &TcpProbeOutcome::Connected, 9);
    assert_eq!(result.status, HealthStatus::Online);
    assert_eq!(result.latency_ms, Some(9));
}

#[test]
fn applying_updates_notifies_exactly_on_boundary_crossings() {
    let mut m = ServerManager::default();
    let mut a = target("a");
    a.health_status = HealthStatus::Online;
    let id = a.id.clone();
    m.insert_connection(a);

    let mut monitor = HealthMonitor::new(30);
    monitor.start(vec![m.get_connection(&id).unwrap().clone()]);

    // Online host stops answering: a notification is owed.
    let down = monitor.record_result(&TcpProbeOutcome::TimedOut, 5000);
    let note = m.apply_health_update(&down);
    assert_eq!(note, Some("⚠️ a went offline".to_string()));
    assert_eq!(m.get_connection(&id).unwrap().health_status, HealthStatus::Offline);
    assert_eq!(m.get_connection(&id).unwrap().stats.failed_attempts, 1);

    // Still offline: no news.
    monitor.begin_tick();
    let still_down = monitor.record_result(&TcpProbeOutcome::TimedOut, 5000);
    assert_eq!(m.apply_health_update(&still_down), None);

    // Back online: a notification is owed again.
    monitor.begin_tick();
    let up = monitor.record_result(&TcpProbeOutcome::Connected, 4);
    assert_eq!(m.apply_health_update(&up), Some("✅ a is back online".to_string()));
    assert_eq!(m.get_connection(&id).unwrap().health_status, HealthStatus::Online);
    assert_eq!(m.get_connection(&id).unwrap().stats.connection_count, 1);

    // Still online: no news.
    monitor.begin_tick();
    let still_up = monitor.record_result(&TcpProbeOutcome::Connected, 4);
    assert_eq!(m.apply_health_update(&still_up), None);

    // An update for an unknown host changes nothing.
    let mut ghost_update = still_up.clone();
    ghost_update.server_id = "no-such-id".to_string();
    assert_eq!(m.apply_health_update(&ghost_update), None);
}
