//! A subscriber's buffer: a queue of messages with a fixed capacity that,
//! when it is full, gives up its oldest message for the newest.

use vstd::prelude::*;
use std::collections::VecDeque;
use crate::message::ChatMessage;
use crate::message::MessageView;

verus! {

/// The `capacity` most recent items of a sequence.
pub open spec fn most_recent<T>(items: Seq<T>, capacity: nat) -> Seq<T> {
    if items.len() <= capacity {
        items
    } else {
        items.subrange(items.len() - capacity, items.len() as int)
    }
}

/// A bounded queue after one more item: the item at the tail, and the oldest
/// item dropped if the queue was full.
pub open spec fn push_bounded<T>(queue: Seq<T>, item: T, capacity: nat) -> Seq<T> {
    most_recent(queue.push(item), capacity)
}

/// The item that a bounded queue drops to take one more: its oldest where
/// it is full, and none where it has room. A queue without any capacity
/// drops the new item itself.
pub open spec fn dropped_by_push<T>(queue: Seq<T>, item: T, capacity: nat) -> Option<T> {
    if queue.len() < capacity {
        None
    } else {
        Some(queue.push(item)[0])
    }
}

/// A bounded queue after a run of items, pushed one after the other.
pub open spec fn push_all_bounded<T>(queue: Seq<T>, items: Seq<T>, capacity: nat) -> Seq<T>
    decreases items.len(),
{
    if items.len() == 0 {
        queue
    } else {
        push_bounded(push_all_bounded(queue, items.drop_last(), capacity), items.last(), capacity)
    }
}

/// The values of a sequence of messages.
pub open spec fn views(messages: Seq<ChatMessage>) -> Seq<MessageView> {
    messages.map_values(|message: ChatMessage| message@)
}

/// A queue of messages that never holds more than its capacity.
pub struct BoundedBuffer {
    capacity: usize,
    items: VecDeque<ChatMessage>,
}

impl View for BoundedBuffer {
    type V = Seq<MessageView>;

    /// The buffered messages, oldest first.
    closed spec fn view(&self) -> Seq<MessageView> {
        views(self.items@)
    }
}

impl BoundedBuffer {
    #[verifier::type_invariant]
    spec fn inv(self) -> bool {
        self.items@.len() <= self.capacity
    }

    /// How many messages the buffer holds at most.
    pub closed spec fn limit(self) -> nat {
        self.capacity as nat
    }

    /// An empty buffer for at most `capacity` messages.
    pub fn new(capacity: usize) -> (buffer: BoundedBuffer)
        ensures
            buffer@ == Seq::<MessageView>::empty(),
            buffer.limit() == capacity,
    {
        let buffer = BoundedBuffer { capacity, items: VecDeque::new() };
        assert(buffer@ =~= Seq::<MessageView>::empty());
        buffer
    }

    /// How many messages the buffer holds at most.
    pub fn capacity(&self) -> (capacity: usize)
        ensures
            capacity == self.limit(),
    {
        self.capacity
    }

    /// How many messages are buffered.
    pub fn len(&self) -> (len: usize)
        ensures
            len == self@.len(),
            len <= self.limit(),
    {
        proof {
            use_type_invariant(self);
        }
        self.items.len()
    }

    /// Whether nothing is buffered.
    pub fn is_empty(&self) -> (empty: bool)
        ensures
            empty == (self@.len() == 0),
    {
        self.items.len() == 0
    }

    /// Puts a message at the tail. A full buffer drops its oldest message
    /// first, and hands it back.
    pub fn push(&mut self, message: ChatMessage) -> (dropped: Option<ChatMessage>)
        ensures
            final(self)@ == push_bounded(old(self)@, message@, old(self).limit()),
            final(self).limit() == old(self).limit(),
            final(self)@.len() <= final(self).limit(),
            match dropped {
                Some(oldest) => dropped_by_push(old(self)@, message@, old(self).limit()) == Some(
                    oldest@,
                ),
                None => dropped_by_push(old(self)@, message@, old(self).limit()) is None,
            },
    {
        proof {
            use_type_invariant(&*self);
        }
        let ghost before = self@;
        if self.capacity == 0 {
            assert(self@ =~= push_bounded(before, message@, 0));
            return Some(message);
        }
        let mut items: VecDeque<ChatMessage> = VecDeque::new();
        std::mem::swap(&mut items, &mut self.items);
        let dropped = if items.len() >= self.capacity {
            items.pop_front()
        } else {
            None
        };
        items.push_back(message);
        assert(views(items@) =~= push_bounded(before, message@, self.capacity as nat));
        self.items = items;
        dropped
    }

    /// Takes the oldest message out, if there is one.
    pub fn pop(&mut self) -> (oldest: Option<ChatMessage>)
        ensures
            final(self).limit() == old(self).limit(),
            match oldest {
                Some(message) => old(self)@.len() > 0 && message@ == old(self)@[0] && final(self)@
                    == old(self)@.drop_first(),
                None => old(self)@.len() == 0 && final(self)@ == old(self)@,
            },
    {
        proof {
            use_type_invariant(&*self);
        }
        let ghost before = self@;
        let mut items: VecDeque<ChatMessage> = VecDeque::new();
        std::mem::swap(&mut items, &mut self.items);
        let oldest = items.pop_front();
        assert(oldest is Some ==> views(items@) =~= before.drop_first());
        assert(oldest is None ==> views(items@) =~= before);
        self.items = items;
        oldest
    }

    /// Takes all messages out, oldest first.
    pub fn take_all(&mut self) -> (messages: Vec<ChatMessage>)
        ensures
            final(self).limit() == old(self).limit(),
            final(self)@ == Seq::<MessageView>::empty(),
            views(messages@) == old(self)@,
    {
        let mut items: VecDeque<ChatMessage> = VecDeque::new();
        std::mem::swap(&mut items, &mut self.items);
        assert(self@ =~= Seq::<MessageView>::empty());
        let ghost all = items@;
        let mut messages: Vec<ChatMessage> = Vec::new();
        while items.len() > 0
            invariant
                messages@ + items@ == all,
            decreases items@.len(),
        {
            match items.pop_front() {
                Some(message) => {
                    messages.push(message);
                    assert(messages@ + items@ =~= all);
                },
                None => {},
            }
        }
        assert(messages@ =~= all);
        messages
    }
}

/// The most recent items after one more item do not depend on what had
/// already been dropped.
pub proof fn lemma_most_recent_push<T>(items: Seq<T>, item: T, capacity: nat)
    ensures
        most_recent(most_recent(items, capacity).push(item), capacity) == most_recent(
            items.push(item),
            capacity,
        ),
{
    assert(most_recent(most_recent(items, capacity).push(item), capacity) =~= most_recent(
        items.push(item),
        capacity,
    ));
}

/// The most recent items after a run of further items do not depend on what
/// had already been dropped.
pub proof fn lemma_most_recent_append<T>(items: Seq<T>, more: Seq<T>, capacity: nat)
    ensures
        most_recent(most_recent(items, capacity) + more, capacity) == most_recent(
            items + more,
            capacity,
        ),
{
    assert(most_recent(most_recent(items, capacity) + more, capacity) =~= most_recent(
        items + more,
        capacity,
    ));
}

/// A buffer that nobody empties holds, after any run of messages, the
/// `capacity` most recent of what it held and what came; what is older has
/// been dropped.
pub proof fn law_bounded_buffer_keeps_most_recent<T>(queue: Seq<T>, items: Seq<T>, capacity: nat)
    requires
        queue.len() <= capacity,
    ensures
        push_all_bounded(queue, items, capacity) == most_recent(queue + items, capacity),
    decreases items.len(),
{
    if items.len() == 0 {
        assert(queue + items =~= queue);
    } else {
        let init = items.drop_last();
        law_bounded_buffer_keeps_most_recent(queue, init, capacity);
        lemma_most_recent_push(queue + init, items.last(), capacity);
        assert((queue + init).push(items.last()) =~= queue + items);
    }
}

} // verus!
