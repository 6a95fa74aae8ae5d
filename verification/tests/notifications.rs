use ovd_transcribe::notifications::{should_notify, NotificationBehavior, NotificationKind};

#[test]
fn batch_finished_keys_follow_the_notification_contract() {
    let kind = NotificationKind::BatchFinished;
    assert_eq!(kind.kind_str(), "batchFinished");
    assert_eq!(kind.title_key(), "notifications.batchFinished.title");
    assert_eq!(kind.body_key(), "notifications.batchFinished.body");
}

#[test]
fn delivery_honours_disabled_kinds_behaviour_and_force() {
    let kind = NotificationKind::VideoReady;
    assert!(should_notify(&[], NotificationBehavior::Always, kind, Some(true), false));
    assert!(!should_notify(&[kind], NotificationBehavior::Always, kind, None, true));
    assert!(!should_notify(&[], NotificationBehavior::Never, kind, None, true));
    assert!(!should_notify(&[], NotificationBehavior::OnBackground, kind, Some(true), false));
    assert!(should_notify(&[], NotificationBehavior::OnBackground, kind, Some(true), true));
    assert!(should_notify(&[], NotificationBehavior::OnBackground, kind, Some(false), false));
    assert!(should_notify(&[], NotificationBehavior::OnBackground, kind, None, false));
    assert!(should_notify(
        &[NotificationKind::QueueAdded],
        NotificationBehavior::Always,
        kind,
        None,
        false
    ));
}
