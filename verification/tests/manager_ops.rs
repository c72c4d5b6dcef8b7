use notify_store::Manager;
use notify_store::Notification;
use notify_store::Urgency;

fn notif(id: u32) -> Notification {
    Notification {
        id,
        app_name: "app".to_string(),
        summary: format!("summary {id}"),
        body: "body".to_string(),
        expire_timeout: Some(3000),
        urgency: Urgency::Normal,
        is_read: false,
    }
}

#[test]
fn scenario_last_unread_walk() {
    let manager = Manager::init().0;
    manager.add(notif(1));
    manager.add(notif(2));
    manager.add(notif(3));
    assert_eq!(manager.get_last_unread().0.unwrap().id, 3);
    manager.mark_last_as_read();
    assert_eq!(manager.get_last_unread().0.unwrap().id, 2);
    assert_eq!(manager.get_unread_count().0, 2);
}

#[test]
fn unread_count_tracks_adds() {
    let manager = Manager::init().0;
    for id in 1..=5u32 {
        manager.add(notif(id));
        assert_eq!(manager.get_unread_count().0, id as usize);
    }
}

#[test]
fn mark_all_as_read_clears_every_id() {
    let manager = Manager::init().0;
    for id in 1..=3u32 {
        manager.add(notif(id));
    }
    manager.mark_all_as_read();
    assert_eq!(manager.get_unread_count().0, 0);
    for id in 1..=3u32 {
        assert!(!manager.is_unread(id).0);
    }
    assert!(manager.get_last_unread().0.is_none());
}

#[test]
fn mark_as_read_missing_id_is_noop() {
    let manager = Manager::init().0;
    manager.add(notif(1));
    manager.add(notif(2));
    manager.mark_as_read(42);
    assert!(manager.is_unread(1).0);
    assert!(manager.is_unread(2).0);
    assert_eq!(manager.get_unread_count().0, 2);
}

#[test]
fn clones_share_the_same_store() {
    let manager = Manager::init().0;
    let other = manager.clone();
    manager.add(notif(1));
    other.add(notif(2));
    assert_eq!(manager.len().0, 2);
    assert_eq!(other.len().0, 2);
    other.mark_all_as_read();
    assert_eq!(manager.get_unread_count().0, 0);
}

#[test]
fn interleaved_adds_and_clears_never_exceed_entries() {
    let manager = Manager::init().0;
    let other = manager.clone();
    let mut added: usize = 0;
    for round in 0..10u32 {
        manager.add(notif(round));
        added += 1;
        assert!(manager.get_unread_count().0 <= added);
        if round % 3 == 0 {
            other.mark_all_as_read();
        }
        other.add(notif(100 + round));
        added += 1;
        assert!(other.get_unread_count().0 <= added);
        assert_eq!(manager.len().0, added);
    }
}

#[test]
fn cursor_via_manager_wraps_and_walks() {
    let manager = Manager::init().0;
    for id in 1..=3u32 {
        manager.add(notif(id));
    }
    manager.mark_all_as_read();
    // Wrap-around: entry 3 becomes unread again.
    assert_eq!(manager.mark_next_as_unread().0, Some(true));
    assert!(manager.is_unread(3).0);
    assert_eq!(manager.get_unread_count().0, 1);
    // Two further steps move the unread slot left, then the cursor stops.
    assert_eq!(manager.mark_next_as_unread().0, Some(true));
    assert!(manager.is_unread(2).0);
    assert_eq!(manager.mark_next_as_unread().0, Some(true));
    assert!(manager.is_unread(1).0);
    assert_eq!(manager.mark_next_as_unread().0, Some(false));
    assert_eq!(manager.get_unread_count().0, 0);
}

#[test]
fn empty_manager_reports_fatal_accesses_as_none() {
    let manager = Manager::init().0;
    assert!(manager.get_last_unread().0.is_none());
    assert_eq!(manager.mark_next_as_unread().0, None);
    assert_eq!(manager.get_unread_count().0, 0);
    assert_eq!(manager.len().0, 0);
}
