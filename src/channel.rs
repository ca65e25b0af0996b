//! One-shot result channels between a parent screen and the child it pushed.
//!
//! All channels live in one `Mailbox`, which the application hands to the
//! screens it drives, so that a value sent by a child can be picked up by its
//! parent once the parent is active again. A channel is a slot of the mailbox:
//! the sending half is consumed by its send, the receiving half polls without
//! blocking, and a channel whose sender is dropped unsent simply stays empty.
use vstd::prelude::*;

verus! {

/// The sending half of a channel; a send consumes it.
#[derive(Debug)]
pub struct Sender {
    id: usize,
}

/// The receiving half of a channel.
#[derive(Debug)]
pub struct Receiver {
    id: usize,
}

impl Sender {
    pub closed spec fn id(&self) -> nat {
        self.id as nat
    }

    /// The number of the channel.
    pub fn channel_number(&self) -> (r: usize)
        ensures
            r == self.id(),
    {
        self.id
    }
}

impl Receiver {
    pub closed spec fn id(&self) -> nat {
        self.id as nat
    }
}

/// The slots of all channels, by channel number: the value that was sent on
/// it and not yet received, if any.
pub struct Mailbox<T> {
    slots: Vec<Option<T>>,
}

/// The slots after a new channel was opened.
pub open spec fn spec_open<T>(slots: Seq<Option<T>>) -> Seq<Option<T>> {
    slots.push(None)
}

/// The slots after `v` was sent on channel `id`.
pub open spec fn spec_send<T>(slots: Seq<Option<T>>, id: nat, v: T) -> Seq<Option<T>> {
    slots.update(id as int, Some(v))
}

/// What a poll of channel `id` yields.
pub open spec fn spec_polled<T>(slots: Seq<Option<T>>, id: nat) -> Option<T> {
    slots[id as int]
}

/// The slots after channel `id` was polled.
pub open spec fn spec_after_poll<T>(slots: Seq<Option<T>>, id: nat) -> Seq<Option<T>> {
    slots.update(id as int, None)
}

impl<T> View for Mailbox<T> {
    type V = Seq<Option<T>>;

    closed spec fn view(&self) -> Seq<Option<T>> {
        self.slots@
    }
}

impl<T> Mailbox<T> {
    /// A mailbox with no channel.
    pub fn new() -> (r: Mailbox<T>)
        ensures
            r@ == Seq::<Option<T>>::empty(),
    {
        Mailbox { slots: Vec::new() }
    }

    /// How many channels were opened.
    pub fn len(&self) -> (r: usize)
        ensures
            r == self@.len(),
    {
        self.slots.len()
    }

    /// Opens a fresh, empty channel; both halves carry its number.
    pub fn channel(&mut self) -> (r: (Sender, Receiver))
        requires
            old(self)@.len() < usize::MAX,
        ensures
            final(self)@ == spec_open(old(self)@),
            r.0.id() == old(self)@.len(),
            r.1.id() == old(self)@.len(),
    {
        let id = self.slots.len();
        self.slots.push(None);
        (Sender { id }, Receiver { id })
    }

    /// Delivers `value` on the sender's channel.
    pub fn send(&mut self, sender: Sender, value: T)
        requires
            sender.id() < old(self)@.len(),
        ensures
            final(self)@ == spec_send(old(self)@, sender.id(), value),
    {
        self.slots.set(sender.id, Some(value));
    }

    /// Takes the value waiting on the receiver's channel, if there is one,
    /// without blocking. An empty channel yields `None`: its task is not done,
    /// or was abandoned.
    pub fn try_recv(&mut self, receiver: &Receiver) -> (r: Option<T>)
        requires
            receiver.id() < old(self)@.len(),
        ensures
            r == spec_polled(old(self)@, receiver.id()),
            final(self)@ == spec_after_poll(old(self)@, receiver.id()),
    {
        let mut taken: Option<T> = None;
        std::mem::swap(&mut self.slots[receiver.id], &mut taken);
        taken
    }
}

/// A result sent on a fresh channel is received exactly once: a poll before
/// the send yields nothing, the first poll after it yields the value, and the
/// next poll yields nothing again.
pub proof fn lemma_result_delivered_once<T>(slots: Seq<Option<T>>, v: T)
    ensures
        ({
            let id = slots.len();
            let opened = spec_open(slots);
            let early = spec_after_poll(opened, id);
            let sent = spec_send(early, id, v);
            let received = spec_after_poll(sent, id);
            &&& spec_polled(opened, id) == None::<T>
            &&& spec_polled(sent, id) == Some(v)
            &&& spec_polled(received, id) == None::<T>
        }),
{
}

/// A channel whose sender is dropped without a send yields nothing, on every
/// poll.
pub proof fn lemma_abandoned_channel_is_empty<T>(slots: Seq<Option<T>>)
    ensures
        ({
            let id = slots.len();
            let opened = spec_open(slots);
            &&& spec_polled(opened, id) == None::<T>
            &&& spec_polled(spec_after_poll(opened, id), id) == None::<T>
        }),
{
}

} // verus!
