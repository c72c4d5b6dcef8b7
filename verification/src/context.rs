//! The rendering-context adapter: turns a notification plus contextual
//! counters into a `tera::Context` for the template-rendering collaborator.
//!
//! The context's contents are modelled by two named maps, one for its text
//! entries and one for its integer entries; the trusted wrappers around
//! `tera::Context` state how each call moves them.

use crate::notification::Notification;
use vstd::prelude::*;

verus! {

#[verifier::external_type_specification]
#[verifier::external_body]
pub struct ExTeraContext(tera::Context);

/// The text entries a rendering context holds, keyed by entry name.
pub uninterp spec fn ctx_text_entries(c: tera::Context) -> Map<Seq<char>, Seq<char>>;

/// The integer entries a rendering context holds, keyed by entry name.
pub uninterp spec fn ctx_count_entries(c: tera::Context) -> Map<Seq<char>, int>;

/// A rendering context with no text entries.
pub open spec fn empty_text_entries() -> Map<Seq<char>, Seq<char>> {
    Map::<Seq<char>, Seq<char>>::empty()
}

/// A rendering context with no integer entries.
pub open spec fn empty_count_entries() -> Map<Seq<char>, int> {
    Map::<Seq<char>, int>::empty()
}

/// Relies on tera::Context::new: an empty rendering context.
#[verifier::external_body]
fn context_new() -> (fresh: tera::Context)
    ensures
        ctx_text_entries(fresh) == empty_text_entries(),
        ctx_count_entries(fresh) == empty_count_entries(),
{
    tera::Context::new()
}

/// Relies on tera::Context::insert: stores the value under the key,
/// replacing any entry the key held before.  Serializing a string slice to
/// a tera value cannot fail.
#[verifier::external_body]
fn context_insert_text(c: &mut tera::Context, key: &str, value: &str)
    ensures
        ctx_text_entries(*final(c)) == ctx_text_entries(*old(c)).insert(key@, value@),
        ctx_count_entries(*final(c)) == ctx_count_entries(*old(c)).remove(key@),
{
    c.insert(key.to_string(), value)
}

/// Relies on tera::Context::insert: stores the count under the key,
/// replacing any entry the key held before.  Serializing a usize to a tera
/// value cannot fail.
#[verifier::external_body]
fn context_insert_count(c: &mut tera::Context, key: &str, value: usize)
    ensures
        ctx_count_entries(*final(c)) == ctx_count_entries(*old(c)).insert(key@, value as int),
        ctx_text_entries(*final(c)) == ctx_text_entries(*old(c)).remove(key@),
{
    c.insert(key.to_string(), &value)
}

/// The text entries of the context built for a notification: its
/// application name, summary and body, and the caller-supplied urgency
/// text under the `urgency` key.
pub open spec fn context_text_of(n: Notification, urgency_text: Seq<char>) -> Map<
    Seq<char>,
    Seq<char>,
> {
    empty_text_entries().insert("app_name"@, n.app_name@).insert(
        "summary"@,
        n.summary@,
    ).insert("body"@, n.body@).insert("urgency"@, urgency_text)
}

/// The integer entries of the context built for a notification: the unread
/// count alone.
pub open spec fn context_counts_of(unread_count: int) -> Map<Seq<char>, int> {
    empty_count_entries().insert("unread_count"@, unread_count)
}

impl Notification {
    /// Builds the rendering context for this notification: its text fields,
    /// the caller-resolved urgency text, and the count of unread
    /// notifications.  Built from plain string and integer values, the
    /// context cannot fail to serialize.
    pub fn into_context(&self, urgency_text: &str, unread_count: usize) -> (c: tera::Context)
        ensures
            ctx_text_entries(c) == context_text_of(*self, urgency_text@),
            ctx_count_entries(c) == context_counts_of(unread_count as int),
    {
        proof {
            reveal_strlit("app_name");
            reveal_strlit("summary");
            reveal_strlit("body");
            reveal_strlit("urgency");
            reveal_strlit("unread_count");
            assert(("unread_count"@).len() == 12);
            assert(("app_name"@).len() == 8);
            assert(("summary"@).len() == 7);
            assert(("body"@).len() == 4);
            assert(("urgency"@).len() == 7);
        }
        let mut c = context_new();
        context_insert_text(&mut c, "app_name", self.app_name.as_str());
        context_insert_text(&mut c, "summary", self.summary.as_str());
        context_insert_text(&mut c, "body", self.body.as_str());
        context_insert_text(&mut c, "urgency", urgency_text);
        proof {
            assert(ctx_count_entries(c) =~= empty_count_entries());
        }
        context_insert_count(&mut c, "unread_count", unread_count);
        proof {
            assert(ctx_text_entries(c) =~= context_text_of(*self, urgency_text@));
            assert(ctx_count_entries(c) =~= context_counts_of(unread_count as int));
        }
        c
    }
}

} // verus!
