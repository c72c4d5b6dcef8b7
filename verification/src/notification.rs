//! The notification value types: [`Urgency`], [`Notification`] and the
//! [`Action`] requests that a surrounding system routes to the store.

use vstd::prelude::*;

verus! {

/// Possible urgency levels for a notification.
#[derive(Clone, Copy, Debug, PartialEq, Eq, Structural)]
pub enum Urgency {
    /// Low urgency.
    Low,
    /// Normal urgency (the default).
    Normal,
    /// Critical urgency.
    Critical,
}

/// The urgency level denoted by a raw ordinal: 0 is low, 1 is normal,
/// 2 is critical, and every other value falls back to the default.
pub open spec fn urgency_of_ordinal(value: u64) -> Urgency {
    if value == 0 {
        Urgency::Low
    } else if value == 1 {
        Urgency::Normal
    } else if value == 2 {
        Urgency::Critical
    } else {
        Urgency::Normal
    }
}

impl Default for Urgency {
    /// The default urgency is `Normal`.
    fn default() -> (result: Self)
        ensures
            result == Urgency::Normal,
    {
        Urgency::Normal
    }
}

impl From<u64> for Urgency {
    /// Maps a raw urgency ordinal to a level by [`urgency_of_ordinal`].
    fn from(value: u64) -> (result: Self)
        ensures
            result == urgency_of_ordinal(value),
    {
        match value {
            0u64 => Urgency::Low,
            1u64 => Urgency::Normal,
            2u64 => Urgency::Critical,
            _ => Urgency::default(),
        }
    }
}

impl vstd::std_specs::convert::FromSpecImpl<u64> for Urgency {
    open spec fn obeys_from_spec() -> bool {
        true
    }

    open spec fn from_spec(value: u64) -> Urgency {
        urgency_of_ordinal(value)
    }
}

/// One notification shown to the user.
///
/// The store never alters any field but `is_read`, and callers are trusted
/// (not checked) to hand out unique ids; on duplicates, lookup operations
/// take the first match.
#[derive(Debug, PartialEq)]
#[verifier::ext_equal]
pub struct Notification {
    /// The externally assigned notification identifier.
    pub id: u32,
    /// Name of the application that sent the notification.
    pub app_name: String,
    /// Summary text.
    pub summary: String,
    /// Body text.
    pub body: String,
    /// The optional expiry timeout in milliseconds; carried, never acted on.
    pub expire_timeout: Option<u64>,
    /// Urgency level.
    pub urgency: Urgency,
    /// Whether the notification has been read.
    pub is_read: bool,
}

impl Clone for Notification {
    /// A clone carries exactly the same field values.
    fn clone(&self) -> (result: Self)
        ensures
            result == *self,
    {
        Notification {
            id: self.id,
            app_name: self.app_name.clone(),
            summary: self.summary.clone(),
            body: self.body.clone(),
            expire_timeout: self.expire_timeout,
            urgency: self.urgency,
            is_read: self.is_read,
        }
    }
}

impl Default for Notification {
    /// An empty, unread notification of normal urgency with id 0.
    fn default() -> (result: Self)
        ensures
            result.id == 0,
            result.app_name@ == Seq::<char>::empty(),
            result.summary@ == Seq::<char>::empty(),
            result.body@ == Seq::<char>::empty(),
            result.expire_timeout is None,
            result.urgency == Urgency::Normal,
            !result.is_read,
    {
        Notification {
            id: 0,
            app_name: String::new(),
            summary: String::new(),
            body: String::new(),
            expire_timeout: None,
            urgency: Urgency::default(),
            is_read: false,
        }
    }
}

/// Requests that a surrounding system dispatches to the store operations;
/// the routing itself is the caller's concern.
#[derive(Debug)]
pub enum Action {
    /// Show a notification.
    Show(Notification),
    /// Show the last notification.
    ShowLast,
    /// Close a notification.
    Close(Option<u32>),
    /// Close all the notifications.
    CloseAll,
}

} // verus!
