//! The message model: the fields of a transport document that this core
//! reads. Everything else in a document is opaque payload and travels in
//! `body`, the document text as it arrived.

use vstd::prelude::*;

verus! {

/// The mathematical image of a message: what the contracts speak of.
pub ghost struct MessageView {
    pub has_extra: bool,
    pub extra: Option<u32>,
    pub client_id: Option<i64>,
    pub code: Option<i64>,
    pub reason: Option<Seq<char>>,
    pub body: Seq<char>,
}

/// One decoded transport document, reduced to the fields this core reads.
///
/// Two disjoint shapes matter. A document carrying the correlation tag is a
/// response to an earlier request; one lacking it but naming a client handle
/// is an unsolicited update. The numeric status and reason fields only matter
/// on responses, for rate-limit handling.
pub struct Message {
    /// Whether the correlation tag field is present at all. Routing goes by
    /// presence: a tagged document is a response, never an update.
    pub has_extra: bool,
    /// The tag's value, where it is an unsigned 32-bit integer. A present
    /// but unreadable tag leaves this `None`; such a response matches no
    /// waiter and is discarded.
    pub extra: Option<u32>,
    /// The owning client handle field, where present.
    pub client_id: Option<i64>,
    /// The numeric status field, where present.
    pub code: Option<i64>,
    /// The human-readable reason field, where present.
    pub reason: Option<String>,
    /// The whole document as it arrived; handed back to callers unmodified.
    pub body: String,
}

impl View for Message {
    type V = MessageView;

    open spec fn view(&self) -> MessageView {
        MessageView {
            has_extra: self.has_extra,
            extra: self.extra,
            client_id: self.client_id,
            code: self.code,
            reason: match self.reason {
                Some(s) => Some(s@),
                None => None,
            },
            body: self.body@,
        }
    }
}

} // verus!
