//! Properties of the library as a whole, proved over the contracts of its functions.
use vstd::prelude::*;

use crate::asking::{after_sends, following, id_after};
use crate::message::InternalMessage;
use crate::replies::{answered_at, answers, kept, late_for, routed_as, stays, unambiguous, ReplySender, Routed};

verus! {

/// The book keeps nothing new: every entry left after routing was in the book before and
/// stays; and every entry that stays is still there.
#[verifier::spinoff_prover]
pub proof fn lemma_kept_members<T>(entries: Seq<ReplySender<T>>, abandoned: Seq<bool>, id: u64, is_reply: bool)
    requires
        abandoned.len() == entries.len(),
    ensures
        forall|k: int|
            #![trigger kept(entries, abandoned, id, is_reply)[k]]
            0 <= k < kept(entries, abandoned, id, is_reply).len() ==> exists|i: int|
                #![trigger entries[i]]
                0 <= i < entries.len() && kept(entries, abandoned, id, is_reply)[k] == entries[i]
                    && stays(entries[i], abandoned[i], id, is_reply),
        forall|i: int|
            0 <= i < entries.len() && stays(entries[i], abandoned[i], id, is_reply) ==> #[trigger] kept(
                entries,
                abandoned,
                id,
                is_reply,
            ).contains(entries[i]),
    decreases entries.len(),
{
    if entries.len() > 0 {
        let last = entries.len() - 1;
        let pe = entries.drop_last();
        let pa = abandoned.take(last);
        lemma_kept_members(pe, pa, id, is_reply);
        let prior = kept(pe, pa, id, is_reply);
        let now = kept(entries, abandoned, id, is_reply);
        assert(now == if stays(entries[last], abandoned[last], id, is_reply) {
            prior.push(entries[last])
        } else {
            prior
        });
        assert forall|k: int| #![trigger now[k]] 0 <= k < now.len() implies exists|i: int|
            #![trigger entries[i]]
            0 <= i < entries.len() && now[k] == entries[i] && stays(entries[i], abandoned[i], id, is_reply) by {
            if k < prior.len() {
                assert(now[k] == prior[k]);
                let i = choose|i: int| #![trigger pe[i]] 0 <= i < pe.len() && prior[k] == pe[i] && stays(pe[i], pa[i], id, is_reply);
                assert(pe[i] == entries[i] && pa[i] == abandoned[i]);
                assert(now[k] == entries[i]);
            } else {
                assert(now[k] == entries[last]);
            }
        }
        assert forall|i: int| 0 <= i < entries.len() && stays(entries[i], abandoned[i], id, is_reply) implies #[trigger] now.contains(
            entries[i],
        ) by {
            if i < last {
                assert(pe[i] == entries[i] && pa[i] == abandoned[i]);
                assert(prior.contains(pe[i]));
                let k = choose|k: int| 0 <= k < prior.len() && prior[k] == pe[i];
                assert(now[k] == entries[i]);
            } else {
                assert(now[now.len() - 1] == entries[i]);
            }
        }
    }
}

/// `f` picks out, in increasing order, the positions in `entries` of the entries of
/// `left`, and those positions are exactly the questions still awaited (not abandoned)
/// whose number differs from the number of an incoming reply numbered `id`.
pub open spec fn selects_awaited<T>(
    f: Seq<int>,
    left: Seq<ReplySender<T>>,
    entries: Seq<ReplySender<T>>,
    abandoned: Seq<bool>,
    id: u64,
    is_reply: bool,
) -> bool {
    &&& f.len() == left.len()
    &&& forall|k: int| #![trigger f[k]] 0 <= k < f.len() ==> 0 <= f[k] < entries.len() && left[k] == entries[f[k]]
    &&& forall|k: int, l: int| #![trigger f[k], f[l]] 0 <= k < l < f.len() ==> f[k] < f[l]
    &&& forall|i: int|
        #![trigger abandoned[i]]
        0 <= i < entries.len() ==> ((!abandoned[i] && !(is_reply && entries[i].conversation() == id)) <==> picks(f, i))
}

/// Position `i` is one of those in `f`.
pub open spec fn picks(f: Seq<int>, i: int) -> bool {
    exists|k: int| 0 <= k < f.len() && #[trigger] f[k] == i
}

/// Routing keeps in the book, in their order, every question still awaited whose number
/// differs from the number an incoming reply carries (every question, for a message that
/// is not a reply), and nothing else: the abandoned ones and the one answered leave.
#[verifier::spinoff_prover]
pub proof fn lemma_routing_keeps_awaited<T>(entries: Seq<ReplySender<T>>, abandoned: Seq<bool>, id: u64, is_reply: bool)
    requires
        abandoned.len() == entries.len(),
    ensures
        exists|f: Seq<int>| selects_awaited(f, kept(entries, abandoned, id, is_reply), entries, abandoned, id, is_reply),
    decreases entries.len(),
{
    let left = kept(entries, abandoned, id, is_reply);
    if entries.len() == 0 {
        assert(selects_awaited(Seq::<int>::empty(), left, entries, abandoned, id, is_reply));
    } else {
        let last = entries.len() - 1;
        let pe = entries.drop_last();
        let pa = abandoned.take(last);
        lemma_routing_keeps_awaited(pe, pa, id, is_reply);
        let prior = kept(pe, pa, id, is_reply);
        let g = choose|g: Seq<int>| selects_awaited(g, prior, pe, pa, id, is_reply);
        lemma_selects_step(entries, abandoned, id, is_reply, g);
    }
}

/// One step of `lemma_routing_keeps_awaited`: from the positions kept among all but the
/// last entry to the positions kept among all of them.
#[verifier::spinoff_prover]
proof fn lemma_selects_step<T>(entries: Seq<ReplySender<T>>, abandoned: Seq<bool>, id: u64, is_reply: bool, g: Seq<int>)
    requires
        abandoned.len() == entries.len(),
        entries.len() > 0,
        selects_awaited(
            g,
            kept(entries.drop_last(), abandoned.take(entries.len() - 1), id, is_reply),
            entries.drop_last(),
            abandoned.take(entries.len() - 1),
            id,
            is_reply,
        ),
    ensures
        exists|f: Seq<int>| selects_awaited(f, kept(entries, abandoned, id, is_reply), entries, abandoned, id, is_reply),
{
    let last = entries.len() - 1;
    let keep_last = !abandoned[last] && !(is_reply && entries[last].conversation() == id);
    if keep_last {
        lemma_selects_push(entries, abandoned, id, is_reply, g, g.push(last));
    } else {
        lemma_selects_push(entries, abandoned, id, is_reply, g, g);
    }
}

/// `lemma_selects_step` for the positions `f` that follow from `g`.
#[verifier::spinoff_prover]
proof fn lemma_selects_push<T>(entries: Seq<ReplySender<T>>, abandoned: Seq<bool>, id: u64, is_reply: bool, g: Seq<int>, f: Seq<int>)
    requires
        abandoned.len() == entries.len(),
        entries.len() > 0,
        selects_awaited(
            g,
            kept(entries.drop_last(), abandoned.take(entries.len() - 1), id, is_reply),
            entries.drop_last(),
            abandoned.take(entries.len() - 1),
            id,
            is_reply,
        ),
        f == if !abandoned[entries.len() - 1] && !(is_reply && entries[entries.len() - 1].conversation() == id) {
            g.push(entries.len() - 1)
        } else {
            g
        },
    ensures
        selects_awaited(f, kept(entries, abandoned, id, is_reply), entries, abandoned, id, is_reply),
{
    let left = kept(entries, abandoned, id, is_reply);
    let last = entries.len() - 1;
    let pe = entries.drop_last();
    let pa = abandoned.take(last);
    let prior = kept(pe, pa, id, is_reply);
    let keep_last = !abandoned[last] && !(is_reply && entries[last].conversation() == id);
    assert(left == if keep_last { prior.push(entries[last]) } else { prior });
    assert forall|k: int| #![trigger f[k]] 0 <= k < f.len() implies 0 <= f[k] < entries.len() && left[k] == entries[f[k]] by {
        if k < g.len() {
            assert(f[k] == g[k]);
            assert(pe[g[k]] == entries[g[k]]);
        }
    }
    assert forall|k: int, l: int| #![trigger f[k], f[l]] 0 <= k < l < f.len() implies f[k] < f[l] by {
        if l < g.len() {
            assert(f[k] == g[k] && f[l] == g[l]);
        } else {
            assert(f[k] == g[k]);
            assert(0 <= g[k] < pe.len());
        }
    }
    assert forall|i: int|
        #![trigger abandoned[i]]
        0 <= i < entries.len() && !abandoned[i] && !(is_reply && entries[i].conversation() == id) implies picks(f, i) by {
        if i < last {
            assert(pe[i] == entries[i] && pa[i] == abandoned[i]);
            assert(picks(g, i));
            let k = choose|k: int| 0 <= k < g.len() && #[trigger] g[k] == i;
            assert(f[k] == i);
        } else {
            assert(keep_last);
            assert(f[f.len() - 1] == last);
        }
    }
    assert forall|i: int|
        #![trigger abandoned[i]]
        0 <= i < entries.len() && picks(f, i) implies !abandoned[i] && !(is_reply && entries[i].conversation() == id) by {
        let k = choose|k: int| 0 <= k < f.len() && #[trigger] f[k] == i;
        if k < g.len() {
            assert(f[k] == g[k]);
            assert(0 <= g[k] < pe.len());
            assert(picks(g, i));
            assert(pe[i] == entries[i] && pa[i] == abandoned[i]);
        } else {
            assert(keep_last);
            assert(f[k] == last);
        }
    }
    assert(f.len() == left.len());
    assert(selects_awaited(f, left, entries, abandoned, id, is_reply));
}

/// Routing never lengthens the book, and leaves it as long as it was exactly when every
/// entry stays.
pub proof fn lemma_kept_len<T>(entries: Seq<ReplySender<T>>, abandoned: Seq<bool>, id: u64, is_reply: bool)
    requires
        abandoned.len() == entries.len(),
    ensures
        kept(entries, abandoned, id, is_reply).len() <= entries.len(),
        kept(entries, abandoned, id, is_reply).len() == entries.len() <==> forall|i: int|
            0 <= i < entries.len() ==> stays(entries[i], abandoned[i], id, is_reply),
    decreases entries.len(),
{
    if entries.len() > 0 {
        let last = entries.len() - 1;
        let pe = entries.drop_last();
        let pa = abandoned.take(last);
        lemma_kept_len(pe, pa, id, is_reply);
        assert forall|i: int| 0 <= i < last implies pe[i] == entries[i] && pa[i] == abandoned[i] by {}
    }
}

/// A message reaches the user exactly when it answers no awaited question and is not the
/// late answer to an abandoned one; it then carries its value, its number and the handle
/// for replies, whatever else was abandoned.
pub proof fn lemma_surfaced_iff_unanswered<W, T>(
    res: Routed<W, T>,
    entries: Seq<ReplySender<T>>,
    abandoned: Seq<bool>,
    msg: InternalMessage<T>,
    write: W,
)
    requires
        abandoned.len() == entries.len(),
        unambiguous(entries, abandoned, msg.conversation_id, msg.is_reply),
        routed_as(res, entries, abandoned, msg, write),
    ensures
        res is Message <==> forall|i: int|
            !answered_at(entries, abandoned, msg.conversation_id, msg.is_reply, i)
                && !late_for(entries, abandoned, msg.conversation_id, msg.is_reply, i),
        res is Message ==> {
            &&& res->Message_0.held() == Some(msg.user_message)
            &&& res->Message_0.conversation() == msg.conversation_id
            &&& res->Message_0.writer() == write
        },
{
}

/// A message that is not a reply never goes to a waiting asker: it always goes to the
/// user, with its number and value, even while abandoned questions leave the book.
pub proof fn lemma_requests_reach_the_user<W, T>(
    res: Routed<W, T>,
    entries: Seq<ReplySender<T>>,
    abandoned: Seq<bool>,
    msg: InternalMessage<T>,
    write: W,
)
    requires
        abandoned.len() == entries.len(),
        !msg.is_reply,
        routed_as(res, entries, abandoned, msg, write),
    ensures
        res is Message,
        res->Message_0.held() == Some(msg.user_message),
        res->Message_0.conversation() == msg.conversation_id,
        res->Message_0.writer() == write,
{
    assert(forall|i: int| !answered_at(entries, abandoned, msg.conversation_id, msg.is_reply, i));
}

/// A late answer, to a question whose asker gave up while it was still in the book, goes
/// nowhere: not to the user, not to any other asker; and that question leaves the book.
pub proof fn lemma_late_answers_go_nowhere<W, T>(
    res: Routed<W, T>,
    entries: Seq<ReplySender<T>>,
    abandoned: Seq<bool>,
    msg: InternalMessage<T>,
    write: W,
    i: int,
)
    requires
        abandoned.len() == entries.len(),
        late_for(entries, abandoned, msg.conversation_id, msg.is_reply, i),
        forall|j: int| !answered_at(entries, abandoned, msg.conversation_id, msg.is_reply, j),
        routed_as(res, entries, abandoned, msg, write),
    ensures
        res is Late,
        !kept(entries, abandoned, msg.conversation_id, msg.is_reply).contains(entries[i]),
{
    let n = msg.conversation_id;
    let r = msg.is_reply;
    lemma_kept_members(entries, abandoned, n, r);
    let left = kept(entries, abandoned, n, r);
    if left.contains(entries[i]) {
        let k = choose|k: int| 0 <= k < left.len() && left[k] == entries[i];
        let j = choose|j: int| #![trigger entries[j]] 0 <= j < entries.len() && left[k] == entries[j] && stays(entries[j], abandoned[j], n, r);
        assert(entries[j].conversation() == n);
        assert(!answered_at(entries, abandoned, n, r, j));
    }
}

/// A question and its answer: the question (numbered `question.conversation_id`, not a
/// reply) reaches the user at the peer; the answer built from it (same number, marked as a reply, as `into_reply`
/// builds it) goes back to exactly the asker still waiting under that number, which
/// leaves the book.
pub proof fn lemma_question_answered<W, T>(
    question: InternalMessage<T>,
    peer: Seq<ReplySender<T>>,
    peer_abandoned: Seq<bool>,
    peer_write: W,
    at_peer: Routed<W, T>,
    answer: T,
    book: Seq<ReplySender<T>>,
    abandoned: Seq<bool>,
    i: int,
    write: W,
    at_asker: Routed<W, T>,
)
    requires
        !question.is_reply,
        peer_abandoned.len() == peer.len(),
        routed_as(at_peer, peer, peer_abandoned, question, peer_write),
        abandoned.len() == book.len(),
        0 <= i < book.len(),
        book[i].conversation() == question.conversation_id,
        !abandoned[i],
        forall|j: int| 0 <= j < book.len() && j != i ==> !answers(#[trigger] book[j], abandoned[j], question.conversation_id, true),
        at_peer is Message ==> routed_as(
            at_asker,
            book,
            abandoned,
            InternalMessage { user_message: answer, conversation_id: at_peer->Message_0.conversation(), is_reply: true },
            write,
        ),
    ensures
        at_peer is Message,
        at_peer->Message_0.conversation() == question.conversation_id,
        at_peer->Message_0.held() == Some(question.user_message),
        unambiguous(book, abandoned, question.conversation_id, true),
        at_asker == (Routed::<W, T>::Reply { waiter: book[i], value: answer }),
        !kept(book, abandoned, question.conversation_id, true).contains(book[i]),
{
    lemma_requests_reach_the_user(at_peer, peer, peer_abandoned, question, peer_write);
    let n = question.conversation_id;
    assert(answered_at(book, abandoned, n, true, i));
    assert forall|a: int, b: int|
        #[trigger] answered_at(book, abandoned, n, true, a) && #[trigger] answered_at(book, abandoned, n, true, b) implies a == b by {
        assert(a == i);
        assert(b == i);
    }
    let reply = InternalMessage { user_message: answer, conversation_id: at_peer->Message_0.conversation(), is_reply: true };
    assert(answered_at(book, abandoned, reply.conversation_id, reply.is_reply, i));
    let i2 = choose|i2: int|
        answered_at(book, abandoned, reply.conversation_id, reply.is_reply, i2)
            && at_asker == (Routed::<W, T>::Reply { waiter: book[i2], value: reply.user_message });
    assert(i2 == i);
    lemma_kept_members(book, abandoned, n, true);
    let left = kept(book, abandoned, n, true);
    if left.contains(book[i]) {
        let k = choose|k: int| 0 <= k < left.len() && left[k] == book[i];
        let j = choose|j: int| 0 <= j < book.len() && left[k] == book[j] && stays(book[j], abandoned[j], n, true);
        assert(book[j].conversation() == n);
    }
}

/// The numbers of the questions a connection writes one after another: the first takes
/// the starting number, each next one the number after it.
pub proof fn lemma_numbering(start: u64, k: nat)
    ensures
        id_after(start, 0) == start,
        following(id_after(start, k)) == id_after(start, k + 1),
{
    let m: int = 0x1_0000_0000_0000_0000;
    let a: int = start + k;
    assert(id_after(start, 0) == start);
    let r: int = a % m;
    assert(following(id_after(start, k)) == ((r + 1) % m) as u64);
    assert((r + 1) % m == (a + 1) % m) by {
        vstd::arithmetic::div_mod::lemma_add_mod_noop(a, 1, m);
        vstd::arithmetic::div_mod::lemma_mod_twice(a, m);
        vstd::arithmetic::div_mod::lemma_add_mod_noop(r, 1, m);
    }
}

/// A connection numbers its questions in the order they are written: starting from
/// `start` (zero for a fresh connection), after `k` questions were written, each followed
/// by `sent`, the next question carries `start + k` wrapped to the `u64` range; from a
/// fresh connection that is `k mod 2^64`.
pub proof fn lemma_questions_numbered_in_order(start: u64, k: nat)
    ensures
        after_sends(start, k) == id_after(start, k),
        after_sends(0, k) == (k % 0x1_0000_0000_0000_0000) as u64,
    decreases k,
{
    if k > 0 {
        lemma_questions_numbered_in_order(start, (k - 1) as nat);
        lemma_numbering(start, (k - 1) as nat);
        lemma_numbering(0, (k - 1) as nat);
    } else {
        lemma_numbering(start, 0);
    }
}

/// Questions written one after another carry different numbers, as long as fewer than
/// 2^64 of them lie between: the reading half cannot confuse their answers.
pub proof fn lemma_numbers_distinct(start: u64, j: nat, k: nat)
    requires
        j < k,
        k - j < 0x1_0000_0000_0000_0000,
    ensures
        id_after(start, j) != id_after(start, k),
{
    let m: int = 0x1_0000_0000_0000_0000;
    let a: int = start + j;
    let b: int = start + k;
    if a % m == b % m {
        vstd::arithmetic::div_mod::lemma_mod_sub_multiples_vanish(b - a, m);
        vstd::arithmetic::div_mod::lemma_sub_mod_noop(b, a, m);
        assert((b - a) % m == 0);
        vstd::arithmetic::div_mod::lemma_small_mod((b - a) as nat, m as nat);
    }
}

} // verus!
