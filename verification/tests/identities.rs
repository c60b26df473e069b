use uppe::identities::Identities;

#[test]
fn churn_expiry_and_disconnect_do_not_close_admission() {
    let now: u64 = 1_000;
    let mut ids = Identities::new(2);
    ids.insert("old".into(), "a".into(), now);
    ids.insert("active".into(), "b".into(), now + 1);
    assert!(ids.matches("active", "b", now + 2));
    ids.insert("new".into(), "c".into(), now + 3);
    assert!(ids.matches("new", "c", now + 4));
    assert!(ids.matches("active", "b", now + 4));
    assert!(!ids.matches("old", "a", now + 4));
    assert!(!ids.matches("active", "b", now + 305));
    ids.remove("new");
    assert!(!ids.matches("new", "c", now + 5));
}

#[test]
fn zero_capacity_stores_nothing() {
    let mut ids = Identities::new(0);
    ids.insert("t".into(), "a".into(), 10);
    assert!(!ids.matches("t", "a", 10));
}

#[test]
fn a_fresh_insert_is_always_admitted_even_when_full() {
    let mut ids = Identities::new(1);
    ids.insert("x".into(), "a".into(), 0);
    ids.insert("y".into(), "b".into(), 1);
    assert!(ids.matches("y", "b", 2));
    assert!(!ids.matches("x", "a", 2));
    assert!(!ids.matches("y", "wrong", 2));
}
