//! The dispatcher core: correlation-id allocation, the waiter table, the
//! receive-side classifier, and the rate-limit retry decision.
//!
//! One `Core` serves a whole process. The send side starts attempts and
//! polls for their responses; the receive side, driven by one external loop,
//! classifies each inbound document. The two sides share nothing but the
//! waiter table inside the `Core`, so the embedder guards the `Core` with
//! one lock and holds it only across single calls — every wait here is a
//! bounded sleep between calls, never a blocked call.

use vstd::prelude::*;

use crate::codec::{decode_message, decoded_of, tag_request, tagged_of};
use crate::msg::{Message, MessageView};
use crate::registry::{after_notify, PollOutcome, Registry, SlotView};
use crate::retry::retry_after;
use crate::ClientHandle;

verus! {

/// The reserved "too many requests" status code.
pub const TOO_MANY_REQUESTS: i64 = 429;

/// The backoff a response demands, in seconds: present exactly where the
/// response carries the reserved rate-limit status and its reason string
/// embeds "retry after N".
pub open spec fn retry_secs(m: MessageView) -> Option<int> {
    if m.code == Some(TOO_MANY_REQUESTS) {
        match m.reason {
            Some(r) => retry_after(r),
            None => None,
        }
    } else {
        None
    }
}

/// What to do with a fulfilled response.
pub enum Step {
    /// A recognized rate-limit response: wait the demanded seconds, then
    /// re-issue the same body under a fresh correlation id.
    Retry { secs: u64 },
    /// Hand the response to the caller unmodified. This is also the answer
    /// for a rate-limit response whose reason does not carry a readable
    /// "retry after N" demand: such a response is not specially handled.
    Done(Message),
}

/// Decide the retry protocol for one fulfilled response.
pub fn on_response(m: Message) -> (s: Step)
    ensures
        match s {
            Step::Retry { secs } => retry_secs(m@) == Some(secs as int),
            Step::Done(d) => d@ == m@ && match retry_secs(m@) {
                Some(n) => n > u64::MAX,
                None => true,
            },
        },
{
    let rate_limited = match m.code {
        Some(c) => c == TOO_MANY_REQUESTS,
        None => false,
    };
    if rate_limited {
        let demanded = match &m.reason {
            Some(r) => crate::retry::parse_retry_after(r.as_str()),
            None => None,
        };
        if let Some(secs) = demanded {
            return Step::Retry { secs };
        }
    }
    Step::Done(m)
}

/// Where one classified inbound document went.
pub enum Outcome {
    /// The transport produced nothing within its bounded wait; the driving
    /// loop is expected to call again.
    NoMessage,
    /// The text was not a document at all: a transport-contract breach,
    /// dropped without touching any state. The embedder should log it.
    Undecodable,
    /// A correlated response, handed to the waiter table. Stale or unmatched
    /// responses land here too: handing them over discards them harmlessly.
    Notified,
    /// No correlation tag and no usable client handle: a transport-contract
    /// breach, dropped without touching any state. The embedder should log
    /// it.
    MissingHandle,
    /// An unsolicited update, paired with the session it originated from.
    /// Decoding its body into any domain schema is the consumer's business;
    /// a body the consumer cannot decode is the consumer's to drop and log,
    /// and leaves this core's state untouched either way.
    Update { message: Message, client: ClientHandle },
}

/// How a classified message relates tables and outcome: a tagged document is
/// handed to the waiter table and yields no update; an untagged one with a
/// usable handle is the update itself, the table untouched; anything else is
/// dropped, the table untouched.
pub open spec fn classified_ok(
    pre: Map<u32, SlotView>,
    post: Map<u32, SlotView>,
    m: MessageView,
    r: Outcome,
) -> bool {
    match r {
        Outcome::Notified => m.has_extra && post == after_notify(pre, m),
        Outcome::Update { message, client } => {
            &&& !m.has_extra
            &&& message@ == m
            &&& m.client_id matches Some(c) && 0 <= c <= i32::MAX && client@ == c
            &&& post == pre
        },
        Outcome::MissingHandle => {
            &&& !m.has_extra
            &&& match m.client_id {
                Some(c) => !(0 <= c <= i32::MAX),
                None => true,
            }
            &&& post == pre
        },
        _ => false,
    }
}

/// The process-wide correlation-and-dispatch state: the waiter table and the
/// correlation-id counter.
pub struct Core {
    registry: Registry,
    next_id: u32,
    issued: Ghost<Seq<u32>>,
}

impl Core {
    /// The waiter table, as a map from correlation id to slot state.
    pub closed spec fn table(&self) -> Map<u32, SlotView> {
        self.registry@
    }

    /// The next correlation id to be issued.
    pub closed spec fn next(&self) -> u32 {
        self.next_id
    }

    /// Every correlation id issued so far, in order of issue.
    pub closed spec fn issued_ids(&self) -> Seq<u32> {
        self.issued@
    }

    /// Ids are issued in strictly increasing order and every id ever seen —
    /// issued or registered — lies below the counter, so a fresh id never
    /// collides with a live waiter.
    pub open spec fn wf(&self) -> bool {
        &&& forall|id: u32| #[trigger] self.table().dom().contains(id) ==> id < self.next()
        &&& forall|k: int| 0 <= k < self.issued_ids().len() ==> #[trigger] self.issued_ids()[k]
            < self.next()
        &&& forall|k1: int, k2: int|
            0 <= k1 < k2 < self.issued_ids().len() ==> #[trigger] self.issued_ids()[k1]
                < #[trigger] self.issued_ids()[k2]
    }

    /// A fresh core: no waiter registered, no id issued.
    pub fn new() -> (c: Core)
        ensures
            c.wf(),
            c.table() == Map::<u32, SlotView>::empty(),
            c.next() == 0,
            c.issued_ids() == Seq::<u32>::empty(),
    {
        Core { registry: Registry::new(), next_id: 0, issued: Ghost(Seq::empty()) }
    }

    /// Whether another correlation id can still be issued. Ids are issued
    /// once each for the life of the process and never reused, so the
    /// embedder must stop starting requests when they run out.
    pub fn has_fresh_ids(&self) -> (b: bool)
        ensures
            b == (self.next() < u32::MAX),
    {
        self.next_id < u32::MAX
    }

    /// Start one request attempt: issue a fresh correlation id, register a
    /// waiter for it, and build the send-ready text — the body with the tag
    /// attached. The waiter exists before the caller sends, so a response
    /// cannot arrive ahead of its waiter. A body that cannot carry the tag
    /// starts nothing and changes nothing.
    pub fn begin_request(&mut self, body: &str) -> (r: Option<(u32, String)>)
        requires
            old(self).wf(),
            old(self).next() < u32::MAX,
        ensures
            final(self).wf(),
            match r {
                Some((id, payload)) => {
                    &&& id == old(self).next()
                    &&& tagged_of(body@, id) == Some(payload@)
                    &&& final(self).next() == id + 1
                    &&& final(self).table() == old(self).table().insert(id, SlotView::Waiting)
                    &&& final(self).issued_ids() == old(self).issued_ids().push(id)
                },
                None => {
                    &&& tagged_of(body@, old(self).next()) is None
                    &&& final(self).next() == old(self).next()
                    &&& final(self).table() == old(self).table()
                    &&& final(self).issued_ids() == old(self).issued_ids()
                },
            },
    {
        let id = self.next_id;
        match tag_request(body, id) {
            None => None,
            Some(payload) => {
                self.next_id = id + 1;
                proof {
                    assert(!old(self).table().dom().contains(id));
                }
                self.registry.subscribe(id);
                proof {
                    self.issued@ = self.issued@.push(id);
                    assert forall|x: u32| #[trigger] self.table().dom().contains(x) implies x
                        < self.next() by {
                        if x != id {
                            assert(old(self).table().dom().contains(x));
                        }
                    }
                    assert forall|k: int| 0 <= k < self.issued_ids().len() implies #[trigger]
                    self.issued_ids()[k] < self.next() by {
                        if k < old(self).issued_ids().len() {
                            assert(old(self).issued_ids()[k] < id);
                        }
                    }
                    assert forall|k1: int, k2: int|
                        0 <= k1 < k2 < self.issued_ids().len() implies self.issued_ids()[k1]
                        < self.issued_ids()[k2] by {
                        if k2 < old(self).issued_ids().len() {
                            assert(old(self).issued_ids()[k1] < old(self).issued_ids()[k2]);
                        } else {
                            assert(old(self).issued_ids()[k1] < id);
                        }
                    }
                }
                Some((id, payload))
            },
        }
    }

    /// One cooperative poll for the response to `id`: the response if it is
    /// there (delivered exactly once — its slot is gone afterwards), else
    /// still pending, else `Closed` for an id with no slot. `Closed` for an
    /// id whose response was never taken means the waiter's slot vanished:
    /// an internal-consistency breach the caller must treat as fatal for the
    /// in-flight request.
    pub fn poll(&mut self, id: u32) -> (r: PollOutcome)
        requires
            old(self).wf(),
        ensures
            final(self).wf(),
            final(self).next() == old(self).next(),
            final(self).issued_ids() == old(self).issued_ids(),
            match r {
                PollOutcome::Ready(m) => old(self).table().dom().contains(id)
                    && old(self).table()[id] == SlotView::Fulfilled(m@)
                    && final(self).table() == old(self).table().remove(id),
                PollOutcome::Pending => old(self).table().dom().contains(id)
                    && old(self).table()[id] is Waiting
                    && final(self).table() == old(self).table(),
                PollOutcome::Closed => !old(self).table().dom().contains(id) && final(self).table()
                    == old(self).table(),
            },
    {
        let r = self.registry.try_recv(id);
        proof {
            assert forall|x: u32| #[trigger] self.table().dom().contains(x) implies x < self.next()
                by {
                assert(old(self).table().dom().contains(x));
            }
            lemma_counter_untouched(*old(self), *self);
        }
        r
    }

    /// Route one decoded document: a tagged one is a response and goes to
    /// the waiter table; an untagged one with a usable handle is an update;
    /// anything else is dropped. No drop corrupts the table, and a failure
    /// on one message never affects how the next one is classified.
    pub fn handle_inbound(&mut self, m: Message) -> (r: Outcome)
        requires
            old(self).wf(),
        ensures
            final(self).wf(),
            final(self).next() == old(self).next(),
            final(self).issued_ids() == old(self).issued_ids(),
            classified_ok(old(self).table(), final(self).table(), m@, r),
    {
        if m.has_extra {
            proof {
                assert(after_notify(old(self).table(), m@).dom() =~= old(self).table().dom());
            }
            self.registry.notify(m);
            proof {
                assert forall|x: u32| #[trigger] self.table().dom().contains(x) implies x
                    < self.next() by {
                    assert(old(self).table().dom().contains(x));
                }
                lemma_counter_untouched(*old(self), *self);
            }
            Outcome::Notified
        } else {
            match m.client_id {
                Some(c) => {
                    if 0 <= c && c <= i32::MAX as i64 {
                        let client = crate::create_client(c as i32);
                        Outcome::Update { message: m, client }
                    } else {
                        Outcome::MissingHandle
                    }
                },
                None => Outcome::MissingHandle,
            }
        }
    }

    /// Classify one receive-call result. `raw` is what the transport's
    /// bounded wait produced: nothing, or the next document's text, in
    /// arrival order — this is called from the one driving loop, one message
    /// at a time, so updates reach the consumer in arrival order.
    pub fn classify(&mut self, raw: Option<&str>) -> (r: Outcome)
        requires
            old(self).wf(),
        ensures
            final(self).wf(),
            final(self).next() == old(self).next(),
            final(self).issued_ids() == old(self).issued_ids(),
            match raw {
                None => r is NoMessage && final(self).table() == old(self).table(),
                Some(s) => match decoded_of(s@) {
                    None => r is Undecodable && final(self).table() == old(self).table(),
                    Some(mv) => classified_ok(old(self).table(), final(self).table(), mv, r),
                },
            },
    {
        match raw {
            None => Outcome::NoMessage,
            Some(s) => match decode_message(s) {
                None => Outcome::Undecodable,
                Some(m) => self.handle_inbound(m),
            },
        }
    }

    /// Receive-and-route, reduced to the one answer the driving loop needs:
    /// the next unsolicited update with its session, or nothing this call —
    /// because the transport was silent, because a response was handed to
    /// its waiter instead, or because a breaching document was dropped.
    pub fn receive(&mut self, raw: Option<&str>) -> (r: Option<(Message, ClientHandle)>)
        requires
            old(self).wf(),
        ensures
            final(self).wf(),
            final(self).next() == old(self).next(),
            final(self).issued_ids() == old(self).issued_ids(),
            match raw {
                None => r is None && final(self).table() == old(self).table(),
                Some(s) => match decoded_of(s@) {
                    None => r is None && final(self).table() == old(self).table(),
                    Some(mv) => if mv.has_extra {
                        r is None && final(self).table() == after_notify(old(self).table(), mv)
                    } else {
                        match mv.client_id {
                            Some(c) => if 0 <= c <= i32::MAX {
                                &&& r matches Some((message, client)) && message@ == mv && client@
                                    == c
                                &&& final(self).table() == old(self).table()
                            } else {
                                r is None && final(self).table() == old(self).table()
                            },
                            None => r is None && final(self).table() == old(self).table(),
                        }
                    },
                },
            },
    {
        match self.classify(raw) {
            Outcome::Update { message, client } => Some((message, client)),
            _ => None,
        }
    }
}

/// The counter-side well-formedness clauses carry over between two cores
/// with the same counter and issue log.
proof fn lemma_counter_untouched(pre: Core, post: Core)
    requires
        pre.wf(),
        post.issued_ids() == pre.issued_ids(),
        post.next() == pre.next(),
    ensures
        forall|k: int| 0 <= k < post.issued_ids().len() ==> #[trigger] post.issued_ids()[k]
            < post.next(),
        forall|k1: int, k2: int|
            0 <= k1 < k2 < post.issued_ids().len() ==> #[trigger] post.issued_ids()[k1]
                < #[trigger] post.issued_ids()[k2],
{
    assert forall|k: int| 0 <= k < post.issued_ids().len() implies #[trigger] post.issued_ids()[k]
        < post.next() by {
        assert(post.issued_ids()[k] == pre.issued_ids()[k]);
    }
    assert forall|k1: int, k2: int|
        0 <= k1 < k2 < post.issued_ids().len() implies #[trigger] post.issued_ids()[k1]
        < #[trigger] post.issued_ids()[k2] by {
        assert(post.issued_ids()[k1] == pre.issued_ids()[k1]);
        assert(post.issued_ids()[k2] == pre.issued_ids()[k2]);
    }
}

/// Law: correlation ids are pairwise distinct for the life of a core —
/// across any number of requests, retried attempts included, no two issues
/// ever yield the same id.
pub proof fn lemma_issued_ids_distinct(c: &Core, k1: int, k2: int)
    requires
        c.wf(),
        0 <= k1 < c.issued_ids().len(),
        0 <= k2 < c.issued_ids().len(),
        k1 != k2,
    ensures
        c.issued_ids()[k1] != c.issued_ids()[k2],
{
}

} // verus!
