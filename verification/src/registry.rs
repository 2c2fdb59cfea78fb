//! The correlation registry: a table of single-use fulfillment slots, one
//! per in-flight correlation id. A caller subscribes before its request is
//! sent; the receive side notifies with each correlated response; the caller
//! polls its slot until the response is there and takes it, exactly once.

use std::collections::HashMap;
use vstd::prelude::*;

use crate::msg::{Message, MessageView};

verus! {

broadcast use vstd::std_specs::hash::group_hash_axioms;

/// One fulfillment slot: empty while its caller waits, then holding the one
/// response delivered for its id until the caller takes it.
pub enum Slot {
    Waiting,
    Fulfilled(Message),
}

/// The mathematical image of a slot.
pub ghost enum SlotView {
    Waiting,
    Fulfilled(MessageView),
}

impl View for Slot {
    type V = SlotView;

    open spec fn view(&self) -> SlotView {
        match self {
            Slot::Waiting => SlotView::Waiting,
            Slot::Fulfilled(m) => SlotView::Fulfilled(m@),
        }
    }
}

/// What `Registry::notify` leaves of a waiter table: the message lands in
/// the waiting slot whose id matches its correlation tag, if there is one;
/// any other message leaves the table untouched.
pub open spec fn after_notify(table: Map<u32, SlotView>, m: MessageView) -> Map<u32, SlotView> {
    match m.extra {
        Some(id) => if table.dom().contains(id) && table[id] is Waiting {
            table.insert(id, SlotView::Fulfilled(m))
        } else {
            table
        },
        None => table,
    }
}

/// What one poll of a waiter yields.
pub enum PollOutcome {
    /// The response for this id, delivered exactly once; the slot is gone.
    Ready(Message),
    /// Still waiting: subscribed, not yet notified.
    Pending,
    /// No slot for this id: never subscribed, or its response already taken.
    Closed,
}

/// The waiter table. Its view is a map from correlation id to slot state;
/// at most one slot ever exists per id, and a slot is fulfilled at most once
/// because fulfillment replaces `Waiting`, which `notify` never reinstates.
pub struct Registry {
    slots: HashMap<u32, Slot>,
}

impl View for Registry {
    type V = Map<u32, SlotView>;

    closed spec fn view(&self) -> Map<u32, SlotView> {
        Map::new(
            |id: u32| self.slots@.dom().contains(id),
            |id: u32| self.slots@[id]@,
        )
    }
}

impl Registry {
    /// An empty table: no waiter is registered for any id.
    pub fn new() -> (r: Registry)
        ensures
            r@ == Map::<u32, SlotView>::empty(),
    {
        let r = Registry { slots: HashMap::new() };
        proof {
            assert(r@ =~= Map::<u32, SlotView>::empty());
        }
        r
    }

    /// Register an empty slot for `id`. Ids are issued fresh per attempt,
    /// so no live slot for `id` may exist yet.
    pub fn subscribe(&mut self, id: u32)
        requires
            !old(self)@.dom().contains(id),
        ensures
            final(self)@ == old(self)@.insert(id, SlotView::Waiting),
    {
        self.slots.insert(id, Slot::Waiting);
        proof {
            assert(self@ =~= old(self)@.insert(id, SlotView::Waiting));
        }
    }

    /// Deliver a correlated response. The message lands in the waiting slot
    /// whose id equals its correlation tag; a message with no tag value, an
    /// unknown id, or an already fulfilled slot is discarded without effect,
    /// since stale or duplicate notifications are not errors.
    pub fn notify(&mut self, m: Message)
        ensures
            final(self)@ == after_notify(old(self)@, m@),
    {
        match m.extra {
            Some(id) => {
                let waiting = match self.slots.get(&id) {
                    Some(Slot::Waiting) => true,
                    _ => false,
                };
                if waiting {
                    self.slots.insert(id, Slot::Fulfilled(m));
                    proof {
                        assert(self@ =~= after_notify(old(self)@, m@));
                    }
                } else {
                    proof {
                        assert(self@ =~= after_notify(old(self)@, m@));
                    }
                }
            },
            None => {
                proof {
                    assert(self@ =~= after_notify(old(self)@, m@));
                }
            },
        }
    }

    /// Poll the slot for `id`. A fulfilled slot yields its response and is
    /// removed, so the response for an id can be taken at most once; a
    /// waiting slot stays; a missing slot reports `Closed`.
    pub fn try_recv(&mut self, id: u32) -> (r: PollOutcome)
        ensures
            match r {
                PollOutcome::Ready(m) => old(self)@.dom().contains(id)
                    && old(self)@[id] == SlotView::Fulfilled(m@)
                    && final(self)@ == old(self)@.remove(id),
                PollOutcome::Pending => old(self)@.dom().contains(id)
                    && old(self)@[id] is Waiting
                    && final(self)@ == old(self)@,
                PollOutcome::Closed => !old(self)@.dom().contains(id)
                    && final(self)@ == old(self)@,
            },
    {
        match self.slots.get(&id) {
            None => {
                return PollOutcome::Closed;
            },
            Some(Slot::Waiting) => {
                return PollOutcome::Pending;
            },
            Some(Slot::Fulfilled(_)) => {},
        }
        match self.slots.remove(&id) {
            Some(Slot::Fulfilled(m)) => {
                proof {
                    assert(self@ =~= old(self)@.remove(id));
                }
                PollOutcome::Ready(m)
            },
            _ => vstd::pervasive::unreached(),
        }
    }
}

/// Law: a response reaches exactly the waiter holding its correlation id.
/// Delivering a message tagged `id` to a table whose `id` slot waits fulfills
/// that slot with that message, keeps every other id's slot as it was, and
/// registers nothing new.
pub proof fn lemma_notify_targets_only_matching(
    table: Map<u32, SlotView>,
    m: MessageView,
    id: u32,
)
    requires
        m.extra == Some(id),
        table.dom().contains(id),
        table[id] is Waiting,
    ensures
        after_notify(table, m)[id] == SlotView::Fulfilled(m),
        after_notify(table, m).dom() =~= table.dom(),
        forall|other: u32| #![auto]
            other != id && table.dom().contains(other) ==> after_notify(table, m)[other]
                == table[other],
{
}

/// Law: notifying with an id that no registered waiter holds is a no-op.
pub proof fn lemma_notify_unmatched_noop(table: Map<u32, SlotView>, m: MessageView)
    requires
        match m.extra {
            Some(id) => !(table.dom().contains(id) && table[id] is Waiting),
            None => true,
        },
    ensures
        after_notify(table, m) == table,
{
}

} // verus!
