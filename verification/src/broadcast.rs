//! Fan-out of received messages to any number of local subscribers.
//!
//! Every subscriber has a bounded buffer of its own. A message that is
//! published goes to the tail of every buffer; a buffer that is full gives up
//! its oldest message to make room, so a subscriber that lags never holds up
//! the publisher. A subscriber whose owner is gone is only marked as such: its
//! buffer leaves the list at the next publish.

use vstd::prelude::*;
use crate::buffer::most_recent;
use crate::buffer::push_bounded;
use crate::buffer::views;
use crate::buffer::BoundedBuffer;
use crate::buffer::lemma_most_recent_append;
use crate::buffer::lemma_most_recent_push;
use crate::message::ChatMessage;
use crate::message::MessageView;

verus! {

/// The number of messages that a subscriber's buffer holds.
pub const SUBSCRIBER_CAPACITY: usize = 100;

/// A subscriber's cursor into the broadcaster's list. It is owned by one
/// caller and cannot be copied.
#[derive(Debug)]
pub struct SubscriberHandle {
    id: u64,
}

impl View for SubscriberHandle {
    type V = u64;

    /// The number under which the subscriber's buffer is registered.
    closed spec fn view(&self) -> u64 {
        self.id
    }
}

/// What a subscriber gets when it asks for its next message.
#[derive(Debug, PartialEq, Eq)]
pub enum Received {
    /// The oldest message in the buffer, which has left it.
    Message(ChatMessage),
    /// Nothing is buffered: the subscriber waits.
    Empty,
    /// Nothing is buffered and nothing will come: the stream has ended.
    Closed,
}

struct Subscription {
    id: u64,
    live: bool,
    pending: BoundedBuffer,
}

impl Subscription {
    spec fn pending_view(self) -> Seq<MessageView> {
        self.pending@
    }
}

/// The state of a broadcaster as contracts see it.
pub ghost struct BroadcasterView {
    /// How many messages a buffer holds at most.
    pub capacity: nat,
    /// Whether the broadcaster has been torn down.
    pub closed: bool,
    /// How many handles have been handed out; the next one gets this number.
    pub issued: nat,
    /// The registered buffers, each under its handle's number, oldest
    /// message first.
    pub buffers: Map<u64, Seq<MessageView>>,
    /// The registered buffers whose owner is gone.
    pub gone: Set<u64>,
}

impl BroadcasterView {
    /// A broadcaster that has just been made: no subscriber has registered.
    pub open spec fn fresh(capacity: nat) -> BroadcasterView {
        BroadcasterView {
            capacity,
            closed: false,
            issued: 0,
            buffers: Map::empty(),
            gone: Set::empty(),
        }
    }

    /// What holds of every broadcaster.
    pub open spec fn valid(self) -> bool {
        &&& self.issued <= u64::MAX
        &&& forall|id: u64| #[trigger]
            self.buffers.contains_key(id) ==> id < self.issued && self.buffers[id].len()
                <= self.capacity
        &&& forall|id: u64| #[trigger] self.gone.contains(id) ==> self.buffers.contains_key(id)
    }

    /// Whether a buffer is registered under `id` and its owner is still there.
    pub open spec fn live(self, id: u64) -> bool {
        self.buffers.contains_key(id) && !self.gone.contains(id)
    }

    /// After a new subscriber has registered: it got the number `issued` and
    /// an empty buffer. A broadcaster that is torn down registers nothing.
    pub open spec fn subscribed(self) -> BroadcasterView {
        BroadcasterView {
            issued: self.issued + 1,
            buffers: if self.closed {
                self.buffers
            } else {
                self.buffers.insert(self.issued as u64, Seq::empty())
            },
            ..self
        }
    }

    /// After a message has been published: the buffers whose owner is gone
    /// have left the list, and every other buffer has the message at its
    /// tail. A broadcaster that is torn down delivers nothing.
    pub open spec fn published(self, message: MessageView) -> BroadcasterView {
        if self.closed {
            self
        } else {
            BroadcasterView {
                buffers: Map::new(
                    |id: u64| self.live(id),
                    |id: u64| push_bounded(self.buffers[id], message, self.capacity),
                ),
                gone: Set::empty(),
                ..self
            }
        }
    }

    /// After a run of messages has been published, one after the other.
    pub open spec fn published_all(self, messages: Seq<MessageView>) -> BroadcasterView
        decreases messages.len(),
    {
        if messages.len() == 0 {
            self
        } else {
            self.published_all(messages.drop_last()).published(messages.last())
        }
    }

    /// After the subscriber `id` has taken its oldest message, if it had one.
    pub open spec fn received(self, id: u64) -> BroadcasterView {
        if self.buffers.contains_key(id) && self.buffers[id].len() > 0 {
            BroadcasterView { buffers: self.buffers.insert(id, self.buffers[id].drop_first()), ..self }
        } else {
            self
        }
    }

    /// After the subscriber `id` has taken all its messages.
    pub open spec fn drained(self, id: u64) -> BroadcasterView {
        if self.buffers.contains_key(id) {
            BroadcasterView { buffers: self.buffers.insert(id, Seq::empty()), ..self }
        } else {
            self
        }
    }

    /// After the owner of the subscriber `id` has gone. The buffer stays
    /// registered until the next publish.
    pub open spec fn released(self, id: u64) -> BroadcasterView {
        if self.buffers.contains_key(id) {
            BroadcasterView { gone: self.gone.insert(id), ..self }
        } else {
            self
        }
    }

    /// After the broadcaster has been torn down.
    pub open spec fn shut(self) -> BroadcasterView {
        BroadcasterView { closed: true, ..self }
    }
}

/// Delivers messages to the buffers of its subscribers.
pub struct Broadcaster {
    capacity: usize,
    closed: bool,
    next_id: u64,
    subs: Vec<Subscription>,
}

/// The buffers of a list of subscriptions, by number.
spec fn buffers_of(subs: Seq<Subscription>) -> Map<u64, Seq<MessageView>>
    decreases subs.len(),
{
    if subs.len() == 0 {
        Map::empty()
    } else {
        buffers_of(subs.drop_last()).insert(subs.last().id, subs.last().pending_view())
    }
}

/// The numbers of the subscriptions in a list whose owner is gone.
spec fn gone_of(subs: Seq<Subscription>) -> Set<u64>
    decreases subs.len(),
{
    if subs.len() == 0 {
        Set::empty()
    } else if subs.last().live {
        gone_of(subs.drop_last())
    } else {
        gone_of(subs.drop_last()).insert(subs.last().id)
    }
}

/// The numbers in a list of subscriptions rise from one to the next.
spec fn rising(subs: Seq<Subscription>) -> bool {
    forall|i: int, j: int| 0 <= i < j < subs.len() ==> subs[i].id < subs[j].id
}

/// A number is registered exactly when some subscription in the list has it.
proof fn lemma_registered(subs: Seq<Subscription>, id: u64)
    ensures
        buffers_of(subs).contains_key(id) <==> exists|k: int|
            0 <= k < subs.len() && (#[trigger] subs[k]).id == id,
        gone_of(subs).contains(id) <==> exists|k: int|
            0 <= k < subs.len() && (#[trigger] subs[k]).id == id && !subs[k].live,
    decreases subs.len(),
{
    if subs.len() > 0 {
        let rest = subs.drop_last();
        lemma_registered(rest, id);
        if buffers_of(subs).contains_key(id) {
            if subs.last().id == id {
                assert(subs[subs.len() - 1].id == id);
            } else {
                let k = choose|k: int| 0 <= k < rest.len() && (#[trigger] rest[k]).id == id;
                assert(subs[k].id == id);
            }
        }
        if exists|k: int| 0 <= k < subs.len() && (#[trigger] subs[k]).id == id {
            let k = choose|k: int| 0 <= k < subs.len() && (#[trigger] subs[k]).id == id;
            if k < rest.len() {
                assert(rest[k].id == id);
            }
        }
        if gone_of(subs).contains(id) {
            if subs.last().id == id && !subs.last().live {
                assert(subs[subs.len() - 1].id == id && !subs[subs.len() - 1].live);
            } else {
                let k = choose|k: int|
                    0 <= k < rest.len() && (#[trigger] rest[k]).id == id && !rest[k].live;
                assert(subs[k].id == id && !subs[k].live);
            }
        }
        if exists|k: int| 0 <= k < subs.len() && (#[trigger] subs[k]).id == id && !subs[k].live {
            let k = choose|k: int|
                0 <= k < subs.len() && (#[trigger] subs[k]).id == id && !subs[k].live;
            if k < rest.len() {
                assert(rest[k].id == id && !rest[k].live);
            }
        }
    }
}

/// Where the numbers rise, each subscription is found under its own number.
proof fn lemma_lookup(subs: Seq<Subscription>, k: int)
    requires
        rising(subs),
        0 <= k < subs.len(),
    ensures
        buffers_of(subs).contains_key(subs[k].id),
        buffers_of(subs)[subs[k].id] == subs[k].pending_view(),
        gone_of(subs).contains(subs[k].id) == !subs[k].live,
    decreases subs.len(),
{
    let rest = subs.drop_last();
    if k == subs.len() - 1 {
        lemma_registered(rest, subs[k].id);
        if gone_of(rest).contains(subs[k].id) {
            let j = choose|j: int|
                0 <= j < rest.len() && (#[trigger] rest[j]).id == subs[k].id && !rest[j].live;
            assert(subs[j].id < subs[k].id);
        }
    } else {
        assert(rest[k] == subs[k]);
        assert(subs[k].id < subs[subs.len() - 1].id);
        lemma_lookup(rest, k);
    }
}


/// What replacing a subscription by one of the same number does to the
/// entry of one number.
proof fn lemma_update_entry(subs: Seq<Subscription>, j: int, next: Subscription, id: u64)
    requires
        rising(subs),
        0 <= j < subs.len(),
        next.id == subs[j].id,
    ensures
        rising(subs.update(j, next)),
        buffers_of(subs).contains_key(next.id),
        buffers_of(subs.update(j, next)).contains_key(id) == buffers_of(subs).contains_key(id),
        id == next.id ==> buffers_of(subs.update(j, next))[id] == next.pending_view(),
        id == next.id ==> gone_of(subs.update(j, next)).contains(id) == !next.live,
        id != next.id && buffers_of(subs).contains_key(id) ==> buffers_of(subs.update(j, next))[id]
            == buffers_of(subs)[id],
        id != next.id ==> gone_of(subs.update(j, next)).contains(id) == gone_of(subs).contains(id),
{
    let after = subs.update(j, next);
    assert(rising(after)) by {
        assert forall|a: int, b: int| 0 <= a < b < after.len() implies after[a].id < after[b].id by {
            assert(subs[a].id < subs[b].id);
        }
    }
    lemma_registered(after, id);
    lemma_registered(subs, id);
    lemma_lookup(after, j);
    lemma_lookup(subs, j);
    if exists|k: int| 0 <= k < after.len() && (#[trigger] after[k]).id == id {
        let k = choose|k: int| 0 <= k < after.len() && (#[trigger] after[k]).id == id;
        assert(subs[k].id == id);
        lemma_lookup(after, k);
        lemma_lookup(subs, k);
        if k != j {
            assert(subs[k].id != subs[j].id) by {
                if k < j {
                    assert(subs[k].id < subs[j].id);
                } else {
                    assert(subs[j].id < subs[k].id);
                }
            }
            assert(after[k] == subs[k]);
        }
    }
    if exists|k: int| 0 <= k < subs.len() && (#[trigger] subs[k]).id == id {
        let k = choose|k: int| 0 <= k < subs.len() && (#[trigger] subs[k]).id == id;
        assert(after[k].id == id);
    }
    if id != next.id {
        if gone_of(after).contains(id) {
            let k = choose|k: int|
                0 <= k < after.len() && (#[trigger] after[k]).id == id && !after[k].live;
            assert(k != j);
            assert(subs[k].id == id && !subs[k].live);
        }
        if gone_of(subs).contains(id) {
            let k = choose|k: int|
                0 <= k < subs.len() && (#[trigger] subs[k]).id == id && !subs[k].live;
            assert(k != j);
            assert(after[k].id == id && !after[k].live);
        }
    }
}

/// Replacing a subscription by one of the same number changes its entry and
/// no other.
proof fn lemma_after_update(subs: Seq<Subscription>, j: int, next: Subscription)
    requires
        rising(subs),
        0 <= j < subs.len(),
        next.id == subs[j].id,
    ensures
        rising(subs.update(j, next)),
        buffers_of(subs.update(j, next)) == buffers_of(subs).insert(next.id, next.pending_view()),
        gone_of(subs.update(j, next)) == if next.live {
            gone_of(subs).remove(next.id)
        } else {
            gone_of(subs).insert(next.id)
        },
{
    let after = subs.update(j, next);
    lemma_update_entry(subs, j, next, next.id);
    let expected = buffers_of(subs).insert(next.id, next.pending_view());
    let expected_gone = if next.live {
        gone_of(subs).remove(next.id)
    } else {
        gone_of(subs).insert(next.id)
    };
    assert forall|id: u64|
        (#[trigger] buffers_of(after).dom().contains(id)) == expected.dom().contains(id) && (
        buffers_of(after).dom().contains(id) ==> buffers_of(after)[id] == expected[id]) by {
        lemma_update_entry(subs, j, next, id);
    }
    assert forall|id: u64| (#[trigger] gone_of(after).contains(id)) == expected_gone.contains(
        id,
    ) by {
        lemma_update_entry(subs, j, next, id);
    }
    assert(buffers_of(after) =~= expected);
    assert(gone_of(after) =~= expected_gone);
}

/// Appending a subscription with a number above all others adds its entry.
proof fn lemma_after_push(subs: Seq<Subscription>, next: Subscription)
    requires
        rising(subs),
        forall|k: int| 0 <= k < subs.len() ==> (#[trigger] subs[k]).id < next.id,
    ensures
        rising(subs.push(next)),
        buffers_of(subs.push(next)) == buffers_of(subs).insert(next.id, next.pending_view()),
        gone_of(subs.push(next)) == if next.live {
            gone_of(subs)
        } else {
            gone_of(subs).insert(next.id)
        },
{
    let after = subs.push(next);
    assert(after.drop_last() =~= subs);
    assert(after.last() == next);
}

/// The view of a list of subscriptions that meets the broadcaster's
/// invariant is valid.
proof fn lemma_valid(subs: Seq<Subscription>, next_id: u64, capacity: usize)
    requires
        rising(subs),
        forall|k: int| 0 <= k < subs.len() ==> (#[trigger] subs[k]).id < next_id,
        forall|k: int| 0 <= k < subs.len() ==> (#[trigger] subs[k]).pending@.len() <= capacity,
    ensures
        forall|id: u64| #[trigger]
            buffers_of(subs).contains_key(id) ==> id < next_id && buffers_of(subs)[id].len()
                <= capacity,
        forall|id: u64| #[trigger] gone_of(subs).contains(id) ==> buffers_of(subs).contains_key(id),
{
    assert forall|id: u64| #[trigger] buffers_of(subs).contains_key(id) implies id < next_id
        && buffers_of(subs)[id].len() <= capacity by {
        lemma_registered(subs, id);
        let k = choose|k: int| 0 <= k < subs.len() && (#[trigger] subs[k]).id == id;
        lemma_lookup(subs, k);
    }
    assert forall|id: u64| #[trigger] gone_of(subs).contains(id) implies buffers_of(
        subs,
    ).contains_key(id) by {
        lemma_registered(subs, id);
        let k = choose|k: int|
            0 <= k < subs.len() && (#[trigger] subs[k]).id == id && !subs[k].live;
        assert(subs[k].id == id);
    }
}

/// Whether a number is registered and its owner still there.
spec fn live_in(subs: Seq<Subscription>, id: u64) -> bool {
    buffers_of(subs).contains_key(id) && !gone_of(subs).contains(id)
}

/// Whether some subscription in the list has the number.
spec fn position_known(subs: Seq<Subscription>, id: u64) -> bool {
    exists|j: int| 0 <= j < subs.len() && (#[trigger] subs[j]).id == id
}

/// Where the numbers rise, at most one subscription has a given number.
proof fn lemma_rising_unique(subs: Seq<Subscription>, j: int, id: u64)
    requires
        rising(subs),
        0 <= j < subs.len(),
        subs[j].id == id,
    ensures
        forall|k: int| 0 <= k < subs.len() && (#[trigger] subs[k]).id == id ==> k == j,
{
    assert forall|k: int| 0 <= k < subs.len() && (#[trigger] subs[k]).id == id implies k == j by {
        if k < j {
            assert(subs[k].id < subs[j].id);
        } else if j < k {
            assert(subs[j].id < subs[k].id);
        }
    }
}

/// What one more subscription adds to the entries of the first `i`.
proof fn lemma_take_next(subs: Seq<Subscription>, i: int)
    requires
        rising(subs),
        0 <= i < subs.len(),
    ensures
        !buffers_of(subs.take(i)).contains_key(subs[i].id),
        !gone_of(subs.take(i)).contains(subs[i].id),
        buffers_of(subs.take(i + 1)) == buffers_of(subs.take(i)).insert(
            subs[i].id,
            subs[i].pending_view(),
        ),
        gone_of(subs.take(i + 1)) == if subs[i].live {
            gone_of(subs.take(i))
        } else {
            gone_of(subs.take(i)).insert(subs[i].id)
        },
{
    let head = subs.take(i);
    lemma_registered(head, subs[i].id);
    if exists|k: int| 0 <= k < head.len() && (#[trigger] head[k]).id == subs[i].id {
        let k = choose|k: int| 0 <= k < head.len() && (#[trigger] head[k]).id == subs[i].id;
        assert(subs[k].id < subs[i].id);
    }
    assert(subs.take(i + 1).drop_last() =~= head);
    assert(subs.take(i + 1).last() == subs[i]);
}

/// Where in the list the subscription with a number stands.
fn position(subs: &Vec<Subscription>, id: u64) -> (found: Option<usize>)
    ensures
        found matches Some(j) ==> j < subs@.len() && subs@[j as int].id == id,
        found is None ==> forall|k: int| 0 <= k < subs@.len() ==> (#[trigger] subs@[k]).id != id,
{
    let mut i: usize = 0;
    while i < subs.len()
        invariant
            i <= subs@.len(),
            forall|k: int| 0 <= k < i ==> (#[trigger] subs@[k]).id != id,
        decreases subs@.len() - i,
    {
        if subs[i].id == id {
            return Some(i);
        }
        i += 1;
    }
    None
}

impl View for Broadcaster {
    type V = BroadcasterView;

    closed spec fn view(&self) -> BroadcasterView {
        BroadcasterView {
            capacity: self.capacity as nat,
            closed: self.closed,
            issued: self.next_id as nat,
            buffers: buffers_of(self.subs@),
            gone: gone_of(self.subs@),
        }
    }
}

impl Broadcaster {
    #[verifier::type_invariant]
    spec fn inv(self) -> bool {
        &&& rising(self.subs@)
        &&& forall|k: int| 0 <= k < self.subs@.len() ==> (#[trigger] self.subs@[k]).id < self.next_id
        &&& forall|k: int|
            0 <= k < self.subs@.len() ==> (#[trigger] self.subs@[k]).pending@.len() <= self.capacity
        &&& forall|k: int|
            0 <= k < self.subs@.len() ==> (#[trigger] self.subs@[k]).pending.limit()
                == self.capacity
    }

    /// A broadcaster without subscribers, whose buffers will hold
    /// [`SUBSCRIBER_CAPACITY`] messages.
    pub fn new() -> (broadcaster: Broadcaster)
        ensures
            broadcaster@ == BroadcasterView::fresh(SUBSCRIBER_CAPACITY as nat),
            broadcaster@.valid(),
    {
        Broadcaster::with_capacity(SUBSCRIBER_CAPACITY)
    }

    /// A broadcaster without subscribers, whose buffers will hold `capacity`
    /// messages.
    pub fn with_capacity(capacity: usize) -> (broadcaster: Broadcaster)
        ensures
            broadcaster@ == BroadcasterView::fresh(capacity as nat),
            broadcaster@.valid(),
    {
        Broadcaster { capacity, closed: false, next_id: 0, subs: Vec::new() }
    }

    /// Whether another handle can be handed out: their numbers are not
    /// used up.
    pub fn can_subscribe(&self) -> (possible: bool)
        ensures
            possible == (self@.issued < u64::MAX),
    {
        self.next_id < u64::MAX
    }

    /// Registers a new, empty buffer and hands out the handle to it. The
    /// handle sees nothing that was published before.
    pub fn subscribe(&mut self) -> (handle: SubscriberHandle)
        requires
            old(self)@.issued < u64::MAX,
        ensures
            handle@ == old(self)@.issued,
            final(self)@ == old(self)@.subscribed(),
            final(self)@.valid(),
    {
        proof {
            use_type_invariant(&*self);
        }
        let id = self.next_id;
        let mut subs: Vec<Subscription> = Vec::new();
        std::mem::swap(&mut subs, &mut self.subs);
        if !self.closed {
            let fresh = Subscription { id, live: true, pending: BoundedBuffer::new(self.capacity) };
            proof {
                lemma_after_push(subs@, fresh);
            }
            subs.push(fresh);
        }
        proof {
            lemma_valid(subs@, (id + 1) as u64, self.capacity);
        }
        self.next_id = id + 1;
        self.subs = subs;
        SubscriberHandle { id }
    }

    /// Delivers a message to the buffer of every subscriber whose owner is
    /// still there, and drops the buffers of the others from the list. There
    /// is nothing to wait for and nothing that can fail, with or without
    /// subscribers.
    pub fn publish(&mut self, message: ChatMessage)
        ensures
            final(self)@ == old(self)@.published(message@),
            final(self)@.valid(),
    {
        proof {
            use_type_invariant(&*self);
            lemma_valid(self.subs@, self.next_id, self.capacity);
        }
        if self.closed {
            return ;
        }
        let capacity = self.capacity;
        let mut subs: Vec<Subscription> = Vec::new();
        std::mem::swap(&mut subs, &mut self.subs);
        let ghost before = subs@;
        let ghost next_id = self.next_id;
        let mut kept: Vec<Subscription> = Vec::new();
        let n = subs.len();
        let mut i: usize = 0;
        assert(before.take(0) =~= Seq::empty());
        assert(buffers_of(kept@) =~= Map::new(
            |id: u64| live_in(before.take(0), id),
            |id: u64| push_bounded(buffers_of(before.take(0))[id], message@, capacity as nat),
        ));
        while i < n
            invariant
                i <= n,
                n == before.len(),
                subs@.len() == n,
                rising(before),
                forall|k: int| 0 <= k < n ==> (#[trigger] before[k]).id < next_id,
                forall|k: int| 0 <= k < n ==> (#[trigger] before[k]).pending@.len() <= capacity,
                forall|k: int| 0 <= k < n ==> (#[trigger] before[k]).pending.limit() == capacity,
                forall|k: int| i <= k < n ==> subs@[k] == before[k],
                rising(kept@),
                forall|j: int| 0 <= j < kept@.len() ==> (#[trigger] kept@[j]).id < next_id,
                forall|j: int|
                    0 <= j < kept@.len() ==> (#[trigger] kept@[j]).pending@.len() <= capacity,
                forall|j: int|
                    0 <= j < kept@.len() ==> (#[trigger] kept@[j]).pending.limit() == capacity,
                forall|j: int, k: int|
                    0 <= j < kept@.len() && i <= k < n ==> (#[trigger] kept@[j]).id < (
                    #[trigger] before[k]).id,
                buffers_of(kept@) == Map::new(
                    |id: u64| live_in(before.take(i as int), id),
                    |id: u64|
                        push_bounded(
                            buffers_of(before.take(i as int))[id],
                            message@,
                            capacity as nat,
                        ),
                ),
                gone_of(kept@) == Set::<u64>::empty(),
            decreases n - i,
        {
            proof {
                lemma_take_next(before, i as int);
            }
            let id = subs[i].id;
            if subs[i].live {
                let mut pending = BoundedBuffer::new(0);
                let sub = &mut subs[i];
                std::mem::swap(&mut pending, &mut sub.pending);
                let _ = pending.push(message.clone());
                let moved = Subscription { id, live: true, pending };
                proof {
                    lemma_after_push(kept@, moved);
                    assert(moved.pending_view() == push_bounded(
                        before[i as int].pending_view(),
                        message@,
                        capacity as nat,
                    ));
                }
                kept.push(moved);
            }
            assert(buffers_of(kept@) =~= Map::new(
                |id: u64| live_in(before.take(i + 1), id),
                |id: u64| push_bounded(buffers_of(before.take(i + 1))[id], message@, capacity as nat),
            ));
            i += 1;
        }
        proof {
            assert(before.take(n as int) =~= before);
            lemma_valid(kept@, self.next_id, self.capacity);
            assert(buffers_of(kept@) =~= old(self)@.published(message@).buffers);
        }
        self.subs = kept;
    }

    /// Hands the subscriber its oldest buffered message. With an empty
    /// buffer the answer is `Empty`, or `Closed` once the broadcaster is torn
    /// down; for a handle that is not registered here it is `Closed` too.
    pub fn receive(&mut self, handle: &SubscriberHandle) -> (next: Received)
        ensures
            final(self)@ == old(self)@.received(handle@),
            final(self)@.valid(),
            match next {
                Received::Message(message) => old(self)@.buffers.contains_key(handle@) && old(
                    self,
                )@.buffers[handle@].len() > 0 && message@ == old(self)@.buffers[handle@][0],
                Received::Empty => old(self)@.buffers.contains_key(handle@) && old(
                    self,
                )@.buffers[handle@].len() == 0 && !old(self)@.closed,
                Received::Closed => !old(self)@.buffers.contains_key(handle@) || (old(
                    self,
                )@.buffers[handle@].len() == 0 && old(self)@.closed),
            },
    {
        proof {
            use_type_invariant(&*self);
            lemma_valid(self.subs@, self.next_id, self.capacity);
            lemma_registered(self.subs@, handle.id);
        }
        let mut subs: Vec<Subscription> = Vec::new();
        std::mem::swap(&mut subs, &mut self.subs);
        let ghost before = subs@;
        let next = match position(&subs, handle.id) {
            None => Received::Closed,
            Some(j) => {
                proof {
                    lemma_lookup(before, j as int);
                }
                let sub = &mut subs[j];
                match sub.pending.pop() {
                    Some(message) => Received::Message(message),
                    None => {
                        if self.closed {
                            Received::Closed
                        } else {
                            Received::Empty
                        }
                    },
                }
            },
        };
        proof {
            if position_known(before, handle.id) {
                let j = choose|j: int| 0 <= j < before.len() && (#[trigger] before[j]).id == handle.id;
                lemma_rising_unique(before, j, handle.id);
                lemma_after_update(before, j, subs@[j]);
                assert(subs@ =~= before.update(j, subs@[j]));
                assert(buffers_of(subs@) =~= old(self)@.received(handle@).buffers);
                assert(gone_of(subs@) =~= old(self)@.gone);
            }
            lemma_valid(subs@, self.next_id, self.capacity);
        }
        self.subs = subs;
        next
    }

    /// Hands the subscriber everything in its buffer, oldest first, and
    /// leaves the buffer empty; nothing for a handle that is not registered
    /// here.
    pub fn drain(&mut self, handle: &SubscriberHandle) -> (messages: Vec<ChatMessage>)
        ensures
            final(self)@ == old(self)@.drained(handle@),
            final(self)@.valid(),
            views(messages@) == if old(self)@.buffers.contains_key(handle@) {
                old(self)@.buffers[handle@]
            } else {
                Seq::empty()
            },
    {
        proof {
            use_type_invariant(&*self);
            lemma_registered(self.subs@, handle.id);
        }
        let mut subs: Vec<Subscription> = Vec::new();
        std::mem::swap(&mut subs, &mut self.subs);
        let ghost before = subs@;
        let messages = match position(&subs, handle.id) {
            None => {
                let nothing: Vec<ChatMessage> = Vec::new();
                assert(views(nothing@) =~= Seq::empty());
                nothing
            },
            Some(j) => {
                proof {
                    lemma_lookup(before, j as int);
                }
                let sub = &mut subs[j];
                sub.pending.take_all()
            },
        };
        proof {
            if position_known(before, handle.id) {
                let j = choose|j: int| 0 <= j < before.len() && (#[trigger] before[j]).id == handle.id;
                lemma_rising_unique(before, j, handle.id);
                lemma_after_update(before, j, subs@[j]);
                assert(subs@ =~= before.update(j, subs@[j]));
                assert(buffers_of(subs@) =~= old(self)@.drained(handle@).buffers);
                assert(gone_of(subs@) =~= old(self)@.gone);
            }
            lemma_valid(subs@, self.next_id, self.capacity);
        }
        self.subs = subs;
        messages
    }

    /// Takes back a handle whose owner is gone. The buffer is only marked:
    /// it leaves the list at the next publish.
    pub fn release(&mut self, handle: SubscriberHandle)
        ensures
            final(self)@ == old(self)@.released(handle@),
            final(self)@.valid(),
    {
        proof {
            use_type_invariant(&*self);
            lemma_registered(self.subs@, handle.id);
        }
        let mut subs: Vec<Subscription> = Vec::new();
        std::mem::swap(&mut subs, &mut self.subs);
        let ghost before = subs@;
        match position(&subs, handle.id) {
            None => {},
            Some(j) => {
                let sub = &mut subs[j];
                sub.live = false;
            },
        }
        proof {
            if position_known(before, handle.id) {
                let j = choose|j: int| 0 <= j < before.len() && (#[trigger] before[j]).id == handle.id;
                lemma_rising_unique(before, j, handle.id);
                lemma_lookup(before, j);
                lemma_after_update(before, j, subs@[j]);
                assert(subs@ =~= before.update(j, subs@[j]));
                assert(buffers_of(subs@) =~= old(self)@.buffers);
            }
            lemma_valid(subs@, self.next_id, self.capacity);
        }
        self.subs = subs;
    }

    /// Tears the broadcaster down: from now on nothing is delivered, and a
    /// subscriber that has emptied its buffer is told that the stream has
    /// ended.
    pub fn close(&mut self)
        ensures
            final(self)@ == old(self)@.shut(),
            final(self)@.valid(),
    {
        proof {
            use_type_invariant(&*self);
            lemma_valid(self.subs@, self.next_id, self.capacity);
        }
        self.closed = true;
    }

    /// Whether the broadcaster has been torn down.
    pub fn is_closed(&self) -> (closed: bool)
        ensures
            closed == self@.closed,
    {
        self.closed
    }

    /// How many messages a subscriber's buffer holds at most.
    pub fn capacity(&self) -> (capacity: usize)
        ensures
            capacity == self@.capacity,
    {
        self.capacity
    }
}

/// Publishing keeps a broadcaster's state valid, and keeps every subscriber
/// whose owner is still there.
pub proof fn lemma_published_all_valid(state: BroadcasterView, messages: Seq<MessageView>)
    requires
        state.valid(),
    ensures
        state.published_all(messages).valid(),
        state.published_all(messages).capacity == state.capacity,
        state.published_all(messages).closed == state.closed,
        state.published_all(messages).issued == state.issued,
        forall|id: u64| state.live(id) ==> #[trigger] state.published_all(messages).live(id),
    decreases messages.len(),
{
    if messages.len() > 0 {
        lemma_published_all_valid(state, messages.drop_last());
    }
}

/// A subscriber that does not take anything from its buffer holds, after any
/// run of published messages, the `capacity` most recent of what it held
/// and what was published: every message if they fit, and else the newest,
/// the oldest having been dropped. The publisher is never held up.
pub proof fn law_lagging_subscriber_keeps_most_recent(
    state: BroadcasterView,
    id: u64,
    messages: Seq<MessageView>,
)
    requires
        state.valid(),
        !state.closed,
        state.live(id),
    ensures
        state.published_all(messages).live(id),
        state.published_all(messages).buffers[id] == most_recent(
            state.buffers[id] + messages,
            state.capacity,
        ),
    decreases messages.len(),
{
    if messages.len() == 0 {
        assert(state.buffers[id] + messages =~= state.buffers[id]);
    } else {
        let init = messages.drop_last();
        law_lagging_subscriber_keeps_most_recent(state, id, init);
        lemma_published_all_valid(state, init);
        lemma_most_recent_push(state.buffers[id] + init, messages.last(), state.capacity);
        assert((state.buffers[id] + init).push(messages.last()) =~= state.buffers[id] + messages);
    }
}

/// Of two subscribers, each gets what is published after its own
/// registration and nothing else: the one that registered first holds the
/// most recent of all the messages, the one that registered in between
/// holds the most recent of those that followed, and none that came before.
pub proof fn law_subscribers_see_only_what_follows(
    state: BroadcasterView,
    earlier: Seq<MessageView>,
    later: Seq<MessageView>,
)
    requires
        state.valid(),
        !state.closed,
        state.issued + 1 < u64::MAX,
    ensures
        ({
            let first = state.issued as u64;
            let second = (state.issued + 1) as u64;
            let end = state.subscribed().published_all(earlier).subscribed().published_all(later);
            &&& end.live(first)
            &&& end.live(second)
            &&& end.buffers[first] == most_recent(earlier + later, state.capacity)
            &&& end.buffers[second] == most_recent(later, state.capacity)
        }),
{
    let first = state.issued as u64;
    let second = (state.issued + 1) as u64;
    let one = state.subscribed();
    assert(one.valid());
    assert(one.live(first));
    let two = one.published_all(earlier);
    lemma_published_all_valid(one, earlier);
    law_lagging_subscriber_keeps_most_recent(one, first, earlier);
    let three = two.subscribed();
    assert(three.valid());
    assert(three.live(first));
    assert(three.live(second));
    let end = three.published_all(later);
    law_lagging_subscriber_keeps_most_recent(three, first, later);
    law_lagging_subscriber_keeps_most_recent(three, second, later);
    assert(Seq::<MessageView>::empty() + earlier =~= earlier);
    assert(Seq::<MessageView>::empty() + later =~= later);
    lemma_most_recent_append(earlier, later, state.capacity);
}

/// Where no subscriber is left, publishing delivers to nobody and leaves the
/// list empty.
pub proof fn law_publish_without_subscribers(state: BroadcasterView, message: MessageView)
    requires
        forall|id: u64| !state.live(id),
        !state.closed,
    ensures
        state.published(message).buffers == Map::<u64, Seq<MessageView>>::empty(),
        state.published(message).gone == Set::<u64>::empty(),
{
    assert(state.published(message).buffers =~= Map::<u64, Seq<MessageView>>::empty());
}

} // verus!
