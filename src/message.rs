//! Notices received from the broker and the saved message history.
use vstd::prelude::*;

verus! {

/// Most entries that the saved history keeps.
pub const MAX_MESSAGES: usize = 100;

/// Title shown for a notice that has none.
pub open spec fn display_title(title: Seq<char>) -> Seq<char> {
    if title.len() == 0 { "Notice"@ } else { title }
}

#[verifier::external_type_specification]
#[verifier::external_body]
pub struct ExValue(serde_json::Value);

/// An instant in UTC: seconds since the Unix epoch and the nanoseconds
/// past that second.
#[derive(Debug, Clone, Copy, PartialEq, Eq, Structural)]
pub struct UtcTimestamp {
    pub seconds: i64,
    pub nanos: u32,
}

/// A notice decoded from a payload.
#[derive(Debug, Clone)]
pub struct NoticeMessage {
    pub title: String,
    pub content: String,
    /// Free-form data that travels with the notice.
    pub extra: Option<serde_json::Value>,
    pub timestamp: UtcTimestamp,
}

/// A notice together with the topic it arrived on.
#[derive(Debug, Clone)]
pub struct MessageEvent {
    pub topic: String,
    pub message: NoticeMessage,
}

/// One entry of the saved history.
#[derive(Debug, Clone)]
pub struct StoredMessage {
    pub topic: String,
    pub title: String,
    pub content: String,
    pub timestamp: String,
}

/// The part of a history that is saved: its first `MAX_MESSAGES` entries,
/// in their order.
pub fn messages_to_save(messages: Vec<StoredMessage>) -> (r: Vec<StoredMessage>)
    ensures
        messages@.len() <= MAX_MESSAGES ==> r@ == messages@,
        messages@.len() > MAX_MESSAGES ==> r@ == messages@.take(MAX_MESSAGES as int),
{
    let mut kept = messages;
    kept.truncate(MAX_MESSAGES);
    proof {
        if messages@.len() <= MAX_MESSAGES {
            assert(kept@ =~= messages@);
        }
    }
    kept
}

impl NoticeMessage {
    /// The title under which the notice is shown: its own, or `Notice`
    /// where it has none.
    pub fn display_title(&self) -> (r: String)
        ensures
            r@ == display_title(self.title@),
    {
        if self.title.as_str().is_empty() {
            String::from_str("Notice")
        } else {
            self.title.clone()
        }
    }
}

} // verus!
