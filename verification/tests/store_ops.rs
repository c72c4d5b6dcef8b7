use notify_store::Notification;
use notify_store::Store;
use notify_store::Urgency;

fn notif(id: u32, read: bool) -> Notification {
    Notification {
        id,
        app_name: "app".to_string(),
        summary: "summary".to_string(),
        body: "body".to_string(),
        expire_timeout: None,
        urgency: Urgency::Normal,
        is_read: read,
    }
}

fn store_of(flags: &[bool]) -> Store {
    let mut store = Store::new();
    let mut id: u32 = 1;
    for read in flags {
        store.add(notif(id, *read));
        id += 1;
    }
    store
}

fn read_flags(store: &Store) -> Vec<bool> {
    let mut flags = Vec::new();
    let mut i = 0;
    while i < store.len() {
        flags.push(store.get(i).is_read);
        i += 1;
    }
    flags
}

#[test]
fn unread_count_tracks_adds_until_marked() {
    let mut store = Store::new();
    assert_eq!(store.get_unread_count(), 0);
    for id in 1..=4u32 {
        store.add(notif(id, false));
        assert_eq!(store.get_unread_count(), id as usize);
    }
    store.mark_as_read(2);
    assert_eq!(store.get_unread_count(), 3);
}

#[test]
fn adding_read_notification_keeps_count() {
    let mut store = Store::new();
    store.add(notif(1, true));
    assert_eq!(store.get_unread_count(), 0);
}

#[test]
fn mark_all_as_read_clears_everything() {
    let mut store = store_of(&[false, true, false]);
    store.mark_all_as_read();
    assert_eq!(store.get_unread_count(), 0);
    for id in 1..=3u32 {
        assert!(!store.is_unread(id));
    }
    assert_eq!(read_flags(&store), vec![true, true, true]);
}

#[test]
fn mark_as_read_missing_id_changes_nothing() {
    let mut store = store_of(&[false, true, false]);
    let before = read_flags(&store);
    store.mark_as_read(99);
    assert_eq!(read_flags(&store), before);
}

#[test]
fn mark_as_read_sets_only_the_match() {
    let mut store = store_of(&[false, false, false]);
    store.mark_as_read(2);
    assert_eq!(read_flags(&store), vec![false, true, false]);
    assert!(store.is_unread(1));
    assert!(!store.is_unread(2));
    assert!(store.is_unread(3));
}

#[test]
fn duplicate_ids_first_match_wins() {
    let mut store = Store::new();
    store.add(notif(1, true));
    store.add(notif(1, false));
    // The first entry with id 1 is read, so the id reports read.
    assert!(!store.is_unread(1));
    // Marking id 1 touches the first match, which is already read.
    store.mark_as_read(1);
    assert_eq!(read_flags(&store), vec![true, false]);
}

#[test]
fn get_last_unread_returns_highest_unread() {
    let mut store = store_of(&[false, false, true]);
    let n = store.get_last_unread();
    assert_eq!(n.id, 2);
    assert!(!n.is_read);
}

#[test]
fn mark_last_as_read_steps_backwards() {
    let mut store = store_of(&[false, false, false]);
    store.mark_last_as_read();
    assert_eq!(read_flags(&store), vec![false, false, true]);
    store.mark_last_as_read();
    assert_eq!(read_flags(&store), vec![false, true, true]);
}

#[test]
fn mark_last_as_read_on_all_read_is_noop() {
    let mut store = store_of(&[true, true]);
    store.mark_last_as_read();
    assert_eq!(read_flags(&store), vec![true, true]);
}

#[test]
fn mark_last_as_read_twice_with_one_unread_is_idempotent() {
    let mut store = store_of(&[true, false, true]);
    store.mark_last_as_read();
    let after_once = read_flags(&store);
    assert_eq!(after_once, vec![true, true, true]);
    store.mark_last_as_read();
    assert_eq!(read_flags(&store), after_once);
}

#[test]
fn cursor_wraps_from_all_read() {
    let mut store = store_of(&[true, true, true]);
    assert!(store.mark_next_as_unread());
    assert_eq!(read_flags(&store), vec![true, true, false]);
}

#[test]
fn cursor_wraps_with_single_entry() {
    let mut store = store_of(&[true]);
    assert!(store.mark_next_as_unread());
    assert_eq!(read_flags(&store), vec![false]);
}

#[test]
fn cursor_walks_left_until_the_first_entry() {
    // The lowest unread entry sits at index 2: the cursor reports a
    // further step exactly twice, then reports none, and the walk has
    // flipped every visited slot back, leaving only entry 2 newly read.
    let mut store = store_of(&[true, true, false]);
    assert!(store.mark_next_as_unread());
    assert_eq!(read_flags(&store), vec![true, false, true]);
    assert!(store.mark_next_as_unread());
    assert_eq!(read_flags(&store), vec![false, true, true]);
    assert!(!store.mark_next_as_unread());
    assert_eq!(read_flags(&store), vec![true, true, true]);
}

#[test]
fn cursor_on_all_unread_stops_at_once() {
    // With every entry unread the lowest unread index is 0, so the very
    // first step reports no further step and marks entry 0 read.
    let mut store = store_of(&[false, false]);
    assert!(!store.mark_next_as_unread());
    assert_eq!(read_flags(&store), vec![true, false]);
}

#[test]
fn empty_store_queries() {
    let store = Store::new();
    assert_eq!(store.len(), 0);
    assert_eq!(store.get_unread_count(), 0);
    assert!(!store.is_unread(1));
}

#[test]
fn mark_operations_on_empty_store_are_noops() {
    let mut store = Store::new();
    store.mark_last_as_read();
    store.mark_as_read(1);
    store.mark_all_as_read();
    assert_eq!(store.len(), 0);
}
