//! A mailbox that queues messages and hands each recipient the oldest message
//! addressed to it.
use vstd::prelude::*;

verus! {

/// A message addressed to the satellite with identifier `to`.
pub struct Message {
    pub to: u64,
    pub content: String,
}

/// Messages in the order they were posted.
pub struct MailBox {
    pub messages: Vec<Message>,
}

/// A satellite, known by its identifier.
#[derive(PartialEq, Eq, Structural, Debug, Clone, Copy)]
pub struct CubeSat {
    pub id: u64,
}

/// The ground station that talks to the satellites.
pub struct GroundStation;

/// Whether the message at index `i` is the oldest one addressed to `id`.
pub open spec fn first_for(messages: Seq<Message>, id: u64, i: int) -> bool {
    &&& 0 <= i < messages.len()
    &&& messages[i].to == id
    &&& forall|j: int| 0 <= j < i ==> messages[j].to != id
}

impl MailBox {
    /// An empty mailbox.
    pub fn new() -> (r: MailBox)
        ensures
            r.messages@ == Seq::<Message>::empty(),
    {
        MailBox { messages: Vec::new() }
    }

    /// Appends `msg` to the queue.
    pub fn post(&mut self, msg: Message)
        ensures
            final(self).messages@ == old(self).messages@.push(msg),
    {
        self.messages.push(msg);
    }

    /// Removes and returns the oldest message addressed to `recipient`, or
    /// returns `None` and leaves the queue as it is if there is none.
    pub fn deliver(&mut self, recipient: &CubeSat) -> (r: Option<Message>)
        ensures
            r is None ==> final(self).messages@ == old(self).messages@ && forall|j: int|
                0 <= j < old(self).messages@.len() ==> old(self).messages@[j].to != recipient.id,
            r is Some ==> exists|i: int|
                first_for(old(self).messages@, recipient.id, i) && r == Some(
                    old(self).messages@[i],
                ) && final(self).messages@ == old(self).messages@.remove(i),
    {
        let mut i: usize = 0;
        while i < self.messages.len()
            invariant
                self.messages@ == old(self).messages@,
                i <= self.messages@.len(),
                forall|j: int| 0 <= j < i ==> self.messages@[j].to != recipient.id,
            decreases self.messages@.len() - i,
        {
            if self.messages[i].to == recipient.id {
                let msg = self.messages.remove(i);
                assert(first_for(old(self).messages@, recipient.id, i as int));
                return Some(msg);
            }
            i = i + 1;
        }
        None
    }
}

impl CubeSat {
    /// Takes this satellite's oldest message out of `mailbox`.
    pub fn recv(&self, mailbox: &mut MailBox) -> (r: Option<Message>)
        ensures
            r is None ==> final(mailbox).messages@ == old(mailbox).messages@ && forall|j: int|
                0 <= j < old(mailbox).messages@.len() ==> old(mailbox).messages@[j].to != self.id,
            r is Some ==> exists|i: int|
                first_for(old(mailbox).messages@, self.id, i) && r == Some(
                    old(mailbox).messages@[i],
                ) && final(mailbox).messages@ == old(mailbox).messages@.remove(i),
    {
        mailbox.deliver(self)
    }
}

impl GroundStation {
    /// Posts `msg` to `mailbox`; the satellite collects it with `recv`.
    pub fn send(&self, mailbox: &mut MailBox, to: &CubeSat, msg: Message)
        ensures
            final(mailbox).messages@ == old(mailbox).messages@.push(msg),
    {
        mailbox.post(msg);
    }

    /// A handle on the satellite with identifier `sat_id`.
    pub fn connect(&self, sat_id: u64) -> (r: CubeSat)
        ensures
            r.id == sat_id,
    {
        CubeSat { id: sat_id }
    }
}

/// The identifiers of the satellites in orbit.
pub fn fetch_sat_ids() -> (r: Vec<u64>)
    ensures
        r@ == seq![1u64, 2u64, 3u64],
{
    vec![1, 2, 3]
}

} // verus!
