//! The reading half's book of questions still waiting for an answer, and the routing of
//! each incoming message: to the question it answers, to the user, or nowhere.
use vstd::prelude::*;

use crate::channels::{oneshot_is_closed, oneshot_send, unbounded_len, unbounded_try_recv};
use crate::error::Error;
use crate::laws::{lemma_routing_keeps_awaited, selects_awaited};
use crate::message::{InternalMessage, ReceivedMessage};

verus! {

/// A question of ours that waits for its answer: where the answer goes, and the number of
/// the conversation it belongs to.
#[verifier::reject_recursive_types(T)]
pub struct ReplySender<T> {
    reply_sender: tokio::sync::oneshot::Sender<Result<T, Error>>,
    conversation_id: u64,
}

impl<T> ReplySender<T> {
    /// The conversation whose answer is awaited.
    pub closed spec fn conversation(&self) -> u64 {
        self.conversation_id
    }

    pub(crate) fn new(reply_sender: tokio::sync::oneshot::Sender<Result<T, Error>>, conversation_id: u64) -> (r: Self)
        ensures
            r.conversation() == conversation_id,
    {
        ReplySender { reply_sender, conversation_id }
    }

    /// Hands the answer to whoever waits for it: the asker receives `Ok(value)`. If the
    /// asker has stopped waiting, that same answer comes back unreceived.
    pub fn deliver(self, value: T) -> (r: Result<(), Result<T, Error>>)
        ensures
            r matches Err(back) ==> back == Ok::<T, Error>(value),
    {
        oneshot_send(self.reply_sender, value)
    }

    /// Whether the asker has stopped waiting (it timed out or went away).
    fn is_abandoned(&self) -> bool {
        oneshot_is_closed(&self.reply_sender)
    }
}

/// What becomes of an incoming message.
#[verifier::reject_recursive_types(T)]
pub enum Routed<W, T> {
    /// It answers one of our questions: `value` is for `waiter`.
    Reply { waiter: ReplySender<T>, value: T },
    /// It answers no question still awaited: it is for the user.
    Message(ReceivedMessage<W, T>),
    /// It answers a question whose asker has given up: the answer goes nowhere.
    Late,
    /// It answers more than one awaited question (their numbers repeat); nothing was done.
    Ambiguous(InternalMessage<T>),
}

/// `entry`, still awaited, is answered by a message numbered `id`.
pub open spec fn answers<T>(entry: ReplySender<T>, abandoned: bool, id: u64, is_reply: bool) -> bool {
    !abandoned && is_reply && entry.conversation() == id
}

/// `entry` stays in the book when a message numbered `id` arrives: it is still awaited
/// and not answered by that message.
pub open spec fn stays<T>(entry: ReplySender<T>, abandoned: bool, id: u64, is_reply: bool) -> bool {
    !abandoned && !(is_reply && entry.conversation() == id)
}

/// The entries that stay, in their order.
pub open spec fn kept<T>(entries: Seq<ReplySender<T>>, abandoned: Seq<bool>, id: u64, is_reply: bool) -> Seq<ReplySender<T>>
    decreases entries.len(),
{
    if entries.len() == 0 {
        Seq::empty()
    } else {
        let last = entries.len() - 1;
        let prior = kept(entries.drop_last(), abandoned.take(last), id, is_reply);
        if stays(entries[last], abandoned[last], id, is_reply) {
            prior.push(entries[last])
        } else {
            prior
        }
    }
}

/// The entry at `i` is answered by a message numbered `id`.
pub open spec fn answered_at<T>(entries: Seq<ReplySender<T>>, abandoned: Seq<bool>, id: u64, is_reply: bool, i: int) -> bool {
    0 <= i < entries.len() && answers(entries[i], abandoned[i], id, is_reply)
}

/// A message numbered `id` answers at most one awaited entry.
pub open spec fn unambiguous<T>(entries: Seq<ReplySender<T>>, abandoned: Seq<bool>, id: u64, is_reply: bool) -> bool {
    forall|i: int, j: int|
        #[trigger] answered_at(entries, abandoned, id, is_reply, i) && #[trigger] answered_at(entries, abandoned, id, is_reply, j)
            ==> i == j
}

/// The entry at `i` was abandoned by its asker, and a message numbered `id` is a reply to it.
pub open spec fn late_for<T>(entries: Seq<ReplySender<T>>, abandoned: Seq<bool>, id: u64, is_reply: bool, i: int) -> bool {
    0 <= i < entries.len() && abandoned[i] && is_reply && entries[i].conversation() == id
}

/// What becomes of `msg`: if it answers an awaited entry, the answer goes to that entry;
/// otherwise, if it is a reply to a question whose asker gave up, it goes nowhere;
/// otherwise the message goes to the user, together with the handle that replies are
/// written through.
pub open spec fn routed_as<W, T>(
    res: Routed<W, T>,
    entries: Seq<ReplySender<T>>,
    abandoned: Seq<bool>,
    msg: InternalMessage<T>,
    write: W,
) -> bool {
    if exists|i: int| answered_at(entries, abandoned, msg.conversation_id, msg.is_reply, i) {
        exists|i: int|
            answered_at(entries, abandoned, msg.conversation_id, msg.is_reply, i)
                && res == (Routed::<W, T>::Reply { waiter: entries[i], value: msg.user_message })
    } else if exists|i: int| late_for(entries, abandoned, msg.conversation_id, msg.is_reply, i) {
        res is Late
    } else {
        &&& res is Message
        &&& res->Message_0.held() == Some(msg.user_message)
        &&& res->Message_0.conversation() == msg.conversation_id
        &&& res->Message_0.writer() == write
    }
}

/// What `receive` did with `msg`, when the questions `arrived` had been registered since
/// last time and `abandoned` tells which of all the awaited questions had been abandoned.
pub open spec fn received_as<W, T>(
    before: Seq<ReplySender<T>>,
    after: Seq<ReplySender<T>>,
    res: Routed<W, T>,
    msg: InternalMessage<T>,
    write: W,
    arrived: Seq<ReplySender<T>>,
    abandoned: Seq<bool>,
) -> bool {
    let all = before + arrived;
    &&& abandoned.len() == all.len()
    &&& if unambiguous(all, abandoned, msg.conversation_id, msg.is_reply) {
        &&& after == kept(all, abandoned, msg.conversation_id, msg.is_reply)
        &&& routed_as(res, all, abandoned, msg, write)
    } else {
        &&& after == all
        &&& res == Routed::<W, T>::Ambiguous(msg)
    }
}

proof fn lemma_kept_step<T>(entries: Seq<ReplySender<T>>, abandoned: Seq<bool>, id: u64, is_reply: bool, k: int)
    requires
        0 <= k < entries.len(),
        entries.len() == abandoned.len(),
    ensures
        kept(entries.take(k + 1), abandoned.take(k + 1), id, is_reply) == if stays(entries[k], abandoned[k], id, is_reply) {
            kept(entries.take(k), abandoned.take(k), id, is_reply).push(entries[k])
        } else {
            kept(entries.take(k), abandoned.take(k), id, is_reply)
        },
{
    assert(entries.take(k + 1).drop_last() =~= entries.take(k));
    assert(abandoned.take(k + 1).take(k) =~= abandoned.take(k));
}

/// The questions of one connection that wait for their answers.
#[verifier::reject_recursive_types(T)]
pub struct PendingReplies<T> {
    reply_data_receiver: tokio::sync::mpsc::UnboundedReceiver<ReplySender<T>>,
    pending_reply: Vec<ReplySender<T>>,
}

impl<T> View for PendingReplies<T> {
    type V = Seq<ReplySender<T>>;

    /// The awaited questions, oldest first.
    closed spec fn view(&self) -> Seq<ReplySender<T>> {
        self.pending_reply@
    }
}

impl<T> PendingReplies<T> {
    pub(crate) fn new(reply_data_receiver: tokio::sync::mpsc::UnboundedReceiver<ReplySender<T>>) -> (r: Self)
        ensures
            r@ == Seq::<ReplySender<T>>::empty(),
    {
        PendingReplies { reply_data_receiver, pending_reply: Vec::new() }
    }

    /// The questions that the writing half has registered since last time, in the order
    /// they were registered: as many as the queue holds when this starts (one registered
    /// meanwhile is taken with the next message). The book itself is left as it was.
    fn take_registrations(&mut self) -> (taken: Vec<ReplySender<T>>)
        ensures
            final(self)@ == old(self)@,
    {
        let mut taken: Vec<ReplySender<T>> = Vec::new();
        let n = unbounded_len(&self.reply_data_receiver);
        let mut i: usize = 0;
        while i < n
            invariant
                i <= n,
                self@ == old(self)@,
            decreases n - i,
        {
            match unbounded_try_recv(&mut self.reply_data_receiver) {
                Some(entry) => {
                    taken.push(entry);
                },
                None => {
                    break;
                },
            }
            i = i + 1;
        }
        taken
    }

    /// Takes the questions `arrived` into the book: the book is what it was, followed by
    /// exactly those questions, in their order.
    fn absorb_registrations(&mut self, arrived: Vec<ReplySender<T>>)
        ensures
            final(self)@ == old(self)@ + arrived@,
    {
        let mut arrived = arrived;
        self.pending_reply.append(&mut arrived);
    }

    /// Whether each awaited question has been abandoned by its asker, as seen now.
    fn observe_abandoned(&self) -> (r: Vec<bool>)
        ensures
            r@.len() == self@.len(),
    {
        let mut r: Vec<bool> = Vec::new();
        let n = self.pending_reply.len();
        let mut i: usize = 0;
        while i < n
            invariant
                i <= n,
                n == self.pending_reply@.len(),
                r@.len() == i,
            decreases n - i,
        {
            r.push(self.pending_reply[i].is_abandoned());
            i = i + 1;
        }
        r
    }

    /// Whether a message numbered `id` would answer more than one awaited question.
    pub fn is_ambiguous(&self, abandoned: &Vec<bool>, id: u64, is_reply: bool) -> (b: bool)
        requires
            abandoned@.len() == self@.len(),
        ensures
            b == !unambiguous(self@, abandoned@, id, is_reply),
    {
        let ghost entries = self@;
        let n = self.pending_reply.len();
        let mut first: Option<usize> = None;
        let mut i: usize = 0;
        while i < n
            invariant
                i <= n,
                n == entries.len(),
                entries == self@,
                abandoned@.len() == n,
                match first {
                    None => forall|j: int| 0 <= j < i ==> !answered_at(entries, abandoned@, id, is_reply, j),
                    Some(f) => f < i && answered_at(entries, abandoned@, id, is_reply, f as int)
                        && forall|j: int| 0 <= j < i && answered_at(entries, abandoned@, id, is_reply, j) ==> j == f,
                },
            decreases n - i,
        {
            if !abandoned[i] && is_reply && self.pending_reply[i].conversation_id == id {
                match first {
                    Some(f) => {
                        assert(answered_at(entries, abandoned@, id, is_reply, f as int));
                        assert(answered_at(entries, abandoned@, id, is_reply, i as int));
                        return true;
                    },
                    None => {
                        first = Some(i);
                    },
                }
            }
            i = i + 1;
        }
        false
    }

    /// Routes `msg`, given which awaited questions have been abandoned: the entry it
    /// answers and every abandoned entry leave the book, the others stay in their order
    /// (whether or not the message answers anything);
    /// what becomes of the message is `routed_as`.
    pub fn route<W>(&mut self, msg: InternalMessage<T>, abandoned: &Vec<bool>, write: W) -> (res: Routed<W, T>)
        requires
            abandoned@.len() == old(self)@.len(),
            unambiguous(old(self)@, abandoned@, msg.conversation_id, msg.is_reply),
        ensures
            final(self)@ == kept(old(self)@, abandoned@, msg.conversation_id, msg.is_reply),
            exists|f: Seq<int>|
                selects_awaited(f, final(self)@, old(self)@, abandoned@, msg.conversation_id, msg.is_reply),
            routed_as(res, old(self)@, abandoned@, msg, write),
    {
        let ghost old_entries = self@;
        let ghost ab = abandoned@;
        let InternalMessage { user_message, conversation_id, is_reply } = msg;
        let mut entries: Vec<ReplySender<T>> = Vec::new();
        std::mem::swap(&mut entries, &mut self.pending_reply);
        let n = entries.len();
        let mut rev: Vec<ReplySender<T>> = Vec::new();
        while entries.len() > 0
            invariant
                entries@.len() + rev@.len() == n,
                n == old_entries.len(),
                entries@ == old_entries.take(entries@.len() as int),
                forall|j: int| 0 <= j < rev@.len() ==> #[trigger] rev@[j] == old_entries[n - 1 - j],
            decreases entries@.len(),
        {
            let e = entries.pop().unwrap();
            rev.push(e);
            assert(entries@ =~= old_entries.take(entries@.len() as int));
        }
        let mut waiter: Option<ReplySender<T>> = None;
        let mut late = false;
        let mut k: usize = 0;
        assert(old_entries.take(0) =~= Seq::<ReplySender<T>>::empty());
        while rev.len() > 0
            invariant
                k + rev@.len() == n,
                n == old_entries.len(),
                ab.len() == n,
                ab == abandoned@,
                forall|j: int| 0 <= j < rev@.len() ==> #[trigger] rev@[j] == old_entries[n - 1 - j],
                self.pending_reply@ == kept(old_entries.take(k as int), ab.take(k as int), conversation_id, is_reply),
                unambiguous(old_entries, ab, conversation_id, is_reply),
                late <==> exists|j: int| 0 <= j < k && #[trigger] late_for(old_entries, ab, conversation_id, is_reply, j),
                match waiter {
                    None => forall|j: int| 0 <= j < k ==> !answered_at(old_entries, ab, conversation_id, is_reply, j),
                    Some(w) => exists|j: int| 0 <= j < k && answered_at(old_entries, ab, conversation_id, is_reply, j)
                        && w == old_entries[j],
                },
            decreases rev@.len(),
        {
            let ghost kk = k as int;
            let entry = rev.pop().unwrap();
            assert(entry == old_entries[kk]);
            proof {
                lemma_kept_step(old_entries, ab, conversation_id, is_reply, kk);
            }
            if abandoned[k] {
                if is_reply && entry.conversation_id == conversation_id {
                    assert(late_for(old_entries, ab, conversation_id, is_reply, kk));
                    late = true;
                }
            } else if is_reply && entry.conversation_id == conversation_id {
                assert(answered_at(old_entries, ab, conversation_id, is_reply, kk));
                waiter = Some(entry);
            } else {
                self.pending_reply.push(entry);
            }
            k = k + 1;
        }
        assert(old_entries.take(n as int) =~= old_entries);
        assert(ab.take(n as int) =~= ab);
        proof {
            lemma_routing_keeps_awaited(old_entries, ab, conversation_id, is_reply);
        }
        match waiter {
            Some(w) => Routed::Reply { waiter: w, value: user_message },
            None => {
                if late {
                    Routed::Late
                } else {
                    Routed::Message(ReceivedMessage::new(user_message, conversation_id, write))
                }
            },
        }
    }

    /// Routes an incoming message: takes in the questions registered since last time,
    /// sees which ones have been abandoned, and routes the message as `route` does, unless
    /// it would answer more than one of them, in which case the book is left as it was.
    pub fn receive<W>(&mut self, msg: InternalMessage<T>, write: W) -> (res: Routed<W, T>)
        ensures
            exists|arrived: Seq<ReplySender<T>>, abandoned: Seq<bool>|
                #[trigger] received_as(old(self)@, final(self)@, res, msg, write, arrived, abandoned),
    {
        let taken = self.take_registrations();
        let ghost arrived = taken@;
        self.absorb_registrations(taken);
        let ghost all = self@;
        let abandoned = self.observe_abandoned();
        if self.is_ambiguous(&abandoned, msg.conversation_id, msg.is_reply) {
            let ghost m = msg;
            let res = Routed::Ambiguous(msg);
            assert(received_as(old(self)@, self@, res, m, write, arrived, abandoned@));
            res
        } else {
            let ghost m = msg;
            let ghost w = write;
            let res = self.route(msg, &abandoned, write);
            assert(received_as(old(self)@, self@, res, m, w, arrived, abandoned@));
            res
        }
    }
}

} // verus!
