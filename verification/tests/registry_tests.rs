use ephemeral_chat::ids::RoomId;
use ephemeral_chat::registry::Registry;
use ephemeral_chat::session::publish_and_decide;

#[test]
fn join_creates_entry_with_one_subscriber() {
    let mut reg = Registry::new();
    let room = RoomId { value: 1 };
    let _hub = reg.join(room);
    assert_eq!(reg.entries.len(), 1);
    assert_eq!(reg.subscriber_count(&room), 1);
}

#[test]
fn second_join_shares_the_entry() {
    let mut reg = Registry::new();
    let room = RoomId { value: 2 };
    let _a = reg.join(room);
    let _b = reg.join(room);
    assert_eq!(reg.entries.len(), 1);
    assert_eq!(reg.subscriber_count(&room), 2);
}

#[test]
fn last_leaver_evicts_the_entry() {
    let mut reg = Registry::new();
    let room = RoomId { value: 3 };
    let _a = reg.join(room);
    let _b = reg.join(room);

    let removed = reg.leave(room);
    assert!(!removed);
    assert_eq!(reg.subscriber_count(&room), 1);

    let removed = reg.leave(room);
    assert!(removed);
    assert_eq!(reg.entries.len(), 0);
    assert_eq!(reg.subscriber_count(&room), 0);
}

#[test]
fn rejoin_after_eviction_starts_fresh() {
    let mut reg = Registry::new();
    let room = RoomId { value: 4 };
    let _a = reg.join(room);
    reg.leave(room);

    // a fresh hub: its backlog holds nothing from before the eviction
    let hub = reg.join(room);
    assert_eq!(reg.subscriber_count(&room), 1);
    let mut rx = hub.subscribe();
    assert!(rx.try_recv().is_err());
}

#[test]
fn rooms_are_kept_apart() {
    let mut reg = Registry::new();
    let a = RoomId { value: 10 };
    let b = RoomId { value: 11 };
    let _ha = reg.join(a);
    let _hb1 = reg.join(b);
    let _hb2 = reg.join(b);
    assert_eq!(reg.subscriber_count(&a), 1);
    assert_eq!(reg.subscriber_count(&b), 2);
    reg.leave(a);
    assert_eq!(reg.subscriber_count(&a), 0);
    assert_eq!(reg.subscriber_count(&b), 2);
}

#[test]
fn publish_reaches_subscriber_and_commits() {
    let mut reg = Registry::new();
    let room = RoomId { value: 12 };
    let hub = reg.join(room);
    let mut rx = hub.subscribe();

    let (delivered, cmd) = publish_and_decide(&hub, "payload".to_string());
    assert!(delivered);
    assert!(matches!(cmd, ephemeral_chat::session::TxCommand::Commit));
    assert_eq!(rx.try_recv().unwrap(), "payload");
}

#[test]
fn publish_without_subscribers_rolls_back() {
    let mut reg = Registry::new();
    let room = RoomId { value: 13 };
    let hub = reg.join(room);
    // nobody called subscribe, so the hub has no receiver
    let (delivered, cmd) = publish_and_decide(&hub, "payload".to_string());
    assert!(!delivered);
    assert!(matches!(cmd, ephemeral_chat::session::TxCommand::Rollback));
}
