use notify_store::Notification;
use notify_store::Urgency;

#[test]
fn urgency_from_zero_is_low() {
    assert_eq!(Urgency::from(0u64), Urgency::Low);
}

#[test]
fn urgency_from_one_is_normal() {
    assert_eq!(Urgency::from(1u64), Urgency::Normal);
}

#[test]
fn urgency_from_two_is_critical() {
    assert_eq!(Urgency::from(2u64), Urgency::Critical);
}

#[test]
fn urgency_from_other_is_default() {
    assert_eq!(Urgency::from(3u64), Urgency::Normal);
    assert_eq!(Urgency::from(7u64), Urgency::Normal);
    assert_eq!(Urgency::from(u64::MAX), Urgency::Normal);
}

#[test]
fn urgency_default_is_normal() {
    assert_eq!(Urgency::default(), Urgency::Normal);
}

#[test]
fn notification_default_is_empty_and_unread() {
    let n = Notification::default();
    assert_eq!(n.id, 0);
    assert_eq!(n.app_name, "");
    assert_eq!(n.summary, "");
    assert_eq!(n.body, "");
    assert!(n.expire_timeout.is_none());
    assert_eq!(n.urgency, Urgency::Normal);
    assert!(!n.is_read);
}

#[test]
fn notification_clone_copies_fields() {
    let n = Notification {
        id: 9,
        app_name: "mail".to_string(),
        summary: "s".to_string(),
        body: "b".to_string(),
        expire_timeout: Some(5000),
        urgency: Urgency::Critical,
        is_read: true,
    };
    let c = n.clone();
    assert_eq!(c, n);
}
