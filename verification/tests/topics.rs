use uppe::topics::{TopicManager, UppeTopic};

#[test]
fn test_topic_subscription() {
    let mut manager = TopicManager::new();

    let topic = UppeTopic::public_monitors();
    assert!(!manager.is_subscribed(&topic));

    manager.subscribe(topic.clone());
    assert!(manager.is_subscribed(&topic));

    manager.unsubscribe(&topic);
    assert!(!manager.is_subscribed(&topic));
}

#[test]
fn test_private_result_topics() {
    let owner_id = "12D3KooWAbCdEf";
    let topic = UppeTopic::private_results(owner_id);

    assert_eq!(topic, format!("/uppe/private-results/{}/v1", owner_id));

    let owner_id2 = "12D3KooWXyZabc";
    let topic2 = UppeTopic::private_results(owner_id2);

    assert_ne!(topic, topic2);
}

#[test]
fn fixed_topic_names() {
    assert_eq!(UppeTopic::public_monitors(), "/uppe/public-monitors/v1");
    assert_eq!(UppeTopic::orchestration(), "/uppe/orchestration/v1");
    assert_eq!(UppeTopic::sync_completion("o"), "/uppe/sync-completion/o/v1");
    assert_eq!(UppeTopic::dht_replication(), "/uppe/dht-replication/v1");
    assert_eq!(UppeTopic::reputation(), "/uppe/reputation/v1");
    assert_eq!(UppeTopic::helper_assignments(), "/uppe/helper-assignments/v1");
}

#[test]
fn subscribing_twice_lists_once_and_order_is_kept() {
    let mut manager = TopicManager::default();
    manager.subscribe("a".into());
    manager.subscribe("b".into());
    manager.subscribe("a".into());
    assert_eq!(manager.list_subscribed(), vec!["a".to_string(), "b".to_string()]);
    manager.unsubscribe("a");
    assert_eq!(manager.list_subscribed(), vec!["b".to_string()]);
    manager.unsubscribe("missing");
    assert_eq!(manager.list_subscribed(), vec!["b".to_string()]);
}
