use uppe::admin_trust::AdminTrustManager;
use uppe::admission::{AdmissionConfig, AdmissionError, AdmissionOrchestrator, MonitorConfig, PublicMonitorRecord};
use uppe::models::Monitor;

#[test]
fn test_threshold_promotion() {
    let config = AdmissionConfig { threshold: 3 };
    let trust_manager = AdminTrustManager::new_for_tests();
    let mut orchestrator = AdmissionOrchestrator::new(config, trust_manager).unwrap();

    let monitor = Monitor::new_public(
        "Test".into(),
        "https://example.com".into(),
        "example.com".into(),
        "Example Site".into(),
        "https".into(),
    );

    let record = orchestrator.signal_interest(&monitor, "peer1").unwrap();
    assert_eq!(record.interest_count, 1);
    assert!(!orchestrator.should_promote(&record));

    orchestrator.signal_interest(&monitor, "peer2").unwrap();
    let record = orchestrator.signal_interest(&monitor, "peer3").unwrap();
    assert_eq!(record.interest_count, 3);
    assert!(orchestrator.should_promote(&record));
}

#[test]
fn repeated_interest_from_one_peer_counts_once() {
    let mut orchestrator =
        AdmissionOrchestrator::new(AdmissionConfig::default(), AdminTrustManager::new_for_tests()).unwrap();
    let monitor = Monitor::new_public(
        "Site".into(),
        "https://example.org".into(),
        "https".into(),
        "Example.ORG".into(),
        "Example".into(),
    );
    let first = orchestrator.signal_interest_at(&monitor, "peer1", 100).unwrap();
    let again = orchestrator.signal_interest_at(&monitor, "peer1", 200).unwrap();
    assert_eq!(first.interest_count, 1);
    assert_eq!(again.interest_count, 1);
    assert_eq!(again.modified_at, 100);
    assert_eq!(again.interested_peers, vec!["peer1".to_string()]);
    assert!(orchestrator.get_public_monitors().is_empty());
    for (i, peer) in ["p2", "p3", "p4", "p5"].iter().enumerate() {
        orchestrator.signal_interest_at(&monitor, peer, 300 + i as u64).unwrap();
    }
    assert_eq!(orchestrator.get_public_monitors().len(), 1);
}

#[test]
fn monitors_without_public_domain_are_refused() {
    let mut orchestrator =
        AdmissionOrchestrator::new(AdmissionConfig::default(), AdminTrustManager::new_for_tests()).unwrap();
    let monitor = Monitor::new_private_at("m".into(), "https://x.test".into(), "https".into(), 7, 0);
    assert_eq!(orchestrator.signal_interest(&monitor, "p").unwrap_err(), AdmissionError::MissingPublicDomain);
}

#[test]
fn dht_key_is_case_insensitive_and_message_is_compact_json() {
    let config = MonitorConfig {
        domain: "Example.COM".into(),
        target: "https://example.com".into(),
        display_name: "Ex \"1\"".into(),
        check_type: "https".into(),
        interval_seconds: 60,
        timeout_seconds: 10,
    };
    assert_eq!(config.dht_key(), "public-monitor:example.com");
    assert_eq!(
        String::from_utf8(config.canonical_message()).unwrap(),
        r#"{"domain":"Example.COM","target":"https://example.com","display_name":"Ex \"1\"","check_type":"https","interval_seconds":60,"timeout_seconds":10}"#
    );
}

#[test]
fn non_admins_cannot_create_or_delete() {
    let mut orchestrator =
        AdmissionOrchestrator::new(AdmissionConfig::default(), AdminTrustManager::new_for_tests()).unwrap();
    let monitor = Monitor::new_public("a".into(), "https://a.test".into(), "https".into(), "a.test".into(), "A".into());
    assert_eq!(
        orchestrator.admin_create_or_modify_at(&monitor, "nobody", vec![0u8; 64], 1_000).unwrap_err(),
        AdmissionError::InvalidAdminKey
    );
    assert_eq!(orchestrator.admin_delete_at("a.test", "nobody", 1_000).unwrap_err(), AdmissionError::NotAdmin);
    assert!(!orchestrator.is_admin_key_at("nobody", 1_000));
}

#[test]
fn unsigned_dht_records_are_accepted_and_unsigned_records_do_not_promote() {
    let mut orchestrator =
        AdmissionOrchestrator::new(AdmissionConfig { threshold: 2 }, AdminTrustManager::new_for_tests()).unwrap();
    let record = PublicMonitorRecord {
        monitor: MonitorConfig {
            domain: "b.test".into(),
            target: "https://b.test".into(),
            display_name: "B".into(),
            check_type: "https".into(),
            interval_seconds: 60,
            timeout_seconds: 10,
        },
        created_at: 1,
        modified_at: 1,
        interest_count: 2,
        interested_peers: vec!["x".into(), "y".into()],
        admin_signature: None,
    };
    assert_eq!(orchestrator.process_dht_record_at(record, 5), Ok(true));
    assert_eq!(orchestrator.get_public_monitors().len(), 1);
    let no_sig = PublicMonitorRecord {
        monitor: MonitorConfig {
            domain: "c.test".into(),
            target: "https://c.test".into(),
            display_name: "C".into(),
            check_type: "https".into(),
            interval_seconds: 60,
            timeout_seconds: 10,
        },
        created_at: 1,
        modified_at: 1,
        interest_count: 0,
        interested_peers: vec![],
        admin_signature: None,
    };
    assert_eq!(orchestrator.verify_admin_signature_at(&no_sig, 5), Ok(false));
    orchestrator.update_from_dht_at(vec![no_sig], 5).unwrap();
    assert_eq!(orchestrator.get_public_monitors().len(), 1);
}
