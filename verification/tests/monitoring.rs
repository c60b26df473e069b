use uppe::models::{CheckType, Monitor, MonitorStatus, MonitorVisibility};
use uppe::monitoring::{
    check_plan, check_type_from_name, check_type_from_stored, check_type_name, effective_timeout,
    http_status_accepted, resolved_addresses, CheckError, MonitorConfig, MonitoringExecutor,
};
use uppe::net::parse_ip_address;
use uppe::validation::ValidationError;

fn config(target: &str, kind: CheckType, interval: u64, offset: u64) -> MonitorConfig {
    MonitorConfig {
        id: 42,
        target: target.into(),
        check_type: kind,
        interval_seconds: interval,
        enabled: true,
        timeout_seconds: 1,
        allow_private_targets: true,
        phase_offset_secs: offset,
    }
}

#[test]
fn check_type_names_round_trip() {
    for kind in [CheckType::Http, CheckType::Https, CheckType::Tcp, CheckType::Icmp] {
        assert_eq!(check_type_from_name(check_type_name(kind)), kind);
    }
    assert_eq!(check_type_from_name("tcp"), CheckType::Tcp);
    assert_eq!(check_type_from_stored("HTTPS"), CheckType::Https);
    assert_eq!(check_type_from_stored("Tcp"), CheckType::Tcp);
    assert_eq!(check_type_from_stored("gopher"), CheckType::Http);
}

#[test]
fn timeouts_are_clamped() {
    assert_eq!(effective_timeout(0), 1);
    assert_eq!(effective_timeout(10), 10);
    assert_eq!(effective_timeout(301), 300);
}

#[test]
fn first_check_is_staggered_within_the_interval() {
    assert_eq!(config("h:1", CheckType::Tcp, 60, 0).first_check_delay(), 60);
    assert_eq!(config("h:1", CheckType::Tcp, 60, 15).first_check_delay(), 15);
    assert_eq!(config("h:1", CheckType::Tcp, 60, 60).first_check_delay(), 60);
    assert!(config("h:1", CheckType::Tcp, 60, 0).runs());
    assert!(!config("h:1", CheckType::Tcp, 0, 0).runs());
    let c = config("h:1", CheckType::Tcp, 60, 0);
    assert!(c.duplicate().same_as(&c));
    assert!(!config("h:2", CheckType::Tcp, 60, 0).same_as(&c));
}

#[test]
fn check_plans_name_host_and_port() {
    assert_eq!(check_plan("example.com:443", CheckType::Tcp, 5), Ok(("example.com".to_string(), 443)));
    assert_eq!(check_plan("https://example.com", CheckType::Https, 5), Ok(("example.com".to_string(), 443)));
    assert_eq!(check_plan("http://example.com:8080/x", CheckType::Http, 5), Ok(("example.com".to_string(), 8080)));
    assert_eq!(check_plan("[::1]:80", CheckType::Tcp, 5), Ok(("::1".to_string(), 80)));
}

#[test]
fn check_plans_refuse_what_cannot_be_checked() {
    assert_eq!(
        check_plan("example.com:443", CheckType::Tcp, 0),
        Err(CheckError::InvalidTimeout(ValidationError::TimeoutTooShort(0)))
    );
    assert_eq!(
        check_plan("example.com:443", CheckType::Tcp, 301),
        Err(CheckError::InvalidTimeout(ValidationError::TimeoutTooLong(301)))
    );
    assert_eq!(check_plan("example.com", CheckType::Icmp, 5), Err(CheckError::IcmpUnsupported));
    assert_eq!(check_plan("https://user:pw@example.com", CheckType::Https, 5), Err(CheckError::CredentialsOrFragment));
    assert_eq!(check_plan("https://example.com/#frag", CheckType::Https, 5), Err(CheckError::CredentialsOrFragment));
    assert_eq!(check_plan("ftp://example.com", CheckType::Http, 5), Err(CheckError::UnsupportedScheme));
    assert_eq!(check_plan("not a url", CheckType::Http, 5), Err(CheckError::InvalidUrl));
    assert_eq!(check_plan("example.com", CheckType::Tcp, 5), Err(CheckError::MissingPort));
}

#[test]
fn remote_work_cannot_reach_local_service() {
    let local = vec![parse_ip_address("127.0.0.1").unwrap()];
    assert_eq!(resolved_addresses(&local, false).err(), Some(CheckError::NotPublic));
    assert_eq!(resolved_addresses(&local, true).unwrap().len(), 1);
    let mixed = vec![parse_ip_address("8.8.8.8").unwrap(), parse_ip_address("10.0.0.1").unwrap()];
    assert_eq!(resolved_addresses(&mixed, false).err(), Some(CheckError::NotPublic));
    let public = vec![parse_ip_address("8.8.8.8").unwrap()];
    assert_eq!(resolved_addresses(&public, false).unwrap().len(), 1);
    assert_eq!(resolved_addresses(&vec![], true).err(), Some(CheckError::NotPublic));
    let many: Vec<_> = (0..20).map(|_| parse_ip_address("1.1.1.1").unwrap()).collect();
    assert_eq!(resolved_addresses(&many, false).unwrap().len(), 16);
}

#[test]
fn http_status_classes() {
    assert!(!http_status_accepted(199));
    assert!(http_status_accepted(200));
    assert!(http_status_accepted(399));
    assert!(!http_status_accepted(404));
}

#[test]
fn test_scheduler() {
    let executor = MonitoringExecutor::new("test-peer".to_string(), 10, 1000).unwrap();
    let c = config("127.0.0.1:8080", CheckType::Tcp, 1, 0);
    let started = executor.start_result_at(&c, 99, 0);
    assert_eq!(started.monitor_id, 42);
    assert_eq!(started.check_type, "tcp");
    assert_eq!(started.peer_id, "test-peer");
    assert_eq!(started.status, MonitorStatus::Unknown);
    let done = executor.complete(started, Ok((12, None)));
    assert!(done.latency_ms.is_some());
    assert_eq!(done.status, MonitorStatus::Up);
}

#[test]
fn slow_and_failed_checks() {
    let executor = MonitoringExecutor::new("p".to_string(), 10, 1000).unwrap();
    let c = config("example.com:443", CheckType::Tcp, 60, 0);
    let slow = executor.complete(executor.start_result_at(&c, 1, 0), Ok((1001, Some(200))));
    assert_eq!(slow.status, MonitorStatus::Degraded);
    assert_eq!(slow.status_code, Some(200));
    let at_threshold = executor.complete(executor.start_result_at(&c, 1, 0), Ok((1000, None)));
    assert_eq!(at_threshold.status, MonitorStatus::Up);
    let failed = executor.complete(executor.start_result_at(&c, 1, 0), Err("refused".into()));
    assert_eq!(failed.status, MonitorStatus::Down);
    assert_eq!(failed.error_message.as_deref(), Some("refused"));
    let busy = MonitoringExecutor::capacity_failure(executor.start_result_at(&c, 1, 0));
    assert_eq!(busy.status, MonitorStatus::Down);
    assert_eq!(busy.error_message.as_deref(), Some("Node check capacity reached"));
}

#[test]
fn stored_monitor_becomes_schedule() {
    let mut monitor = Monitor::new_private_at("site".into(), "https://example.com".into(), "HTTPS".into(), 7, 100);
    monitor.interval_seconds = 120;
    monitor.timeout_seconds = 5;
    let config = MonitorConfig::from_stored_monitor(&monitor, 30);
    assert_eq!(config.id, 7);
    assert_eq!(config.target, "https://example.com");
    assert_eq!(config.check_type, CheckType::Https);
    assert_eq!(config.interval_seconds, 120);
    assert_eq!(config.timeout_seconds, 5);
    assert!(config.enabled);
    assert!(!config.allow_private_targets);
    assert_eq!(config.phase_offset_secs, 30);

    monitor.visibility = MonitorVisibility::Internal;
    monitor.check_type = "carrier-pigeon".into();
    let config = MonitorConfig::from_stored_monitor(&monitor, 0);
    assert!(config.allow_private_targets);
    assert_eq!(config.check_type, CheckType::Http);
}

#[test]
fn monitors_are_private_by_default() {
    assert_eq!(MonitorVisibility::default(), MonitorVisibility::Private);
}
