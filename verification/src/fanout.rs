//! Read receipts on messages: each user's marker is shown once in a list of
//! messages, on the newest message that the user has read.

use crate::message::{lemma_replies_view, Message, MessageView};
use crate::receipts::{
    lemma_filter_latest_first, lemma_queued_one_each, one_each, queued, Receipt,
    ReceiptQueue, ReceiptView,
};
use crate::username::{fresh, Username, UsernameView};
use crate::views::{group_views, views};
use vstd::prelude::*;

verus! {

broadcast use group_views;

/// The index of the message on which a read marker set at `timestamp` is
/// shown: the last of the list that was sent by then. It is -1 where no
/// message of the list was.
pub open spec fn target_index(ms: Seq<MessageView>, timestamp: u64) -> int
    decreases ms.len(),
{
    if ms.len() == 0 {
        -1
    } else if ms.last().sent <= timestamp {
        ms.len() - 1
    } else {
        target_index(ms.drop_last(), timestamp)
    }
}

/// The target of a marker is the last message sent by then.
pub proof fn lemma_target_index(ms: Seq<MessageView>, timestamp: u64)
    ensures
        -1 <= target_index(ms, timestamp) < ms.len(),
        target_index(ms, timestamp) >= 0 ==> ms[target_index(ms, timestamp)].sent <= timestamp,
        forall|j: int| target_index(ms, timestamp) < j < ms.len() ==> ms[j].sent > timestamp,
    decreases ms.len(),
{
    if ms.len() > 0 && ms.last().sent > timestamp {
        lemma_target_index(ms.drop_last(), timestamp);
        assert forall|j: int| target_index(ms, timestamp) < j < ms.len() implies ms[j].sent
            > timestamp by {
            if j < ms.len() - 1 {
                assert(ms.drop_last()[j].sent > timestamp);
            }
        }
    }
}

/// The target depends on the times of the messages alone.
pub proof fn lemma_target_by_times(a: Seq<MessageView>, b: Seq<MessageView>, timestamp: u64)
    requires
        a.len() == b.len(),
        forall|i: int| 0 <= i < a.len() ==> a[i].sent == b[i].sent,
    ensures
        target_index(a, timestamp) == target_index(b, timestamp),
    decreases a.len(),
{
    if a.len() > 0 {
        assert(a.last().sent == b.last().sent);
        assert forall|i: int| 0 <= i < a.drop_last().len() implies a.drop_last()[i].sent
            == b.drop_last()[i].sent by {
            assert(a[i].sent == b[i].sent);
        }
        lemma_target_by_times(a.drop_last(), b.drop_last(), timestamp);
    }
}

/// The users whose markers, taken from `rs` in order, are shown on the
/// message `i` of `ms`.
pub open spec fn read_by(ms: Seq<MessageView>, rs: Seq<ReceiptView>, i: int) -> Seq<UsernameView>
    decreases rs.len(),
{
    if rs.len() == 0 {
        Seq::empty()
    } else if target_index(ms, rs.last().timestamp) == i {
        read_by(ms, rs.drop_last(), i).push(fresh(rs.last().user_id))
    } else {
        read_by(ms, rs.drop_last(), i)
    }
}

/// Holds of the receipts that are older than every message of `ms`.
pub open spec fn unread(ms: Seq<MessageView>) -> spec_fn(ReceiptView) -> bool {
    |r: ReceiptView| target_index(ms, r.timestamp) < 0
}

/// The tree `ms` with the receipts `rs` shown: in every list of the tree,
/// the messages of a room and the replies to each message alike, each
/// receipt is added to the message that `target_index` gives, after the
/// receipts that the message has.
pub open spec fn with_receipts(ms: Seq<MessageView>, rs: Seq<ReceiptView>) -> Seq<MessageView>
    decreases ms,
{
    Seq::new(
        ms.len(),
        |i: int|
            if 0 <= i < ms.len() {
                MessageView {
                    receipts: ms[i].receipts + read_by(ms, rs, i),
                    replies: with_receipts(ms[i].replies, rs),
                    ..ms[i]
                }
            } else {
                arbitrary()
            },
    )
}

/// How often the marker of the user `user_id` is among `names`.
pub open spec fn shown_times(names: Seq<UsernameView>, user_id: Seq<char>) -> nat
    decreases names.len(),
{
    if names.len() == 0 {
        0
    } else if names.last().id == user_id {
        shown_times(names.drop_last(), user_id) + 1
    } else {
        shown_times(names.drop_last(), user_id)
    }
}

/// How often the user `user_id` has a receipt in `rs` that is shown on the
/// message `i` of `ms`.
pub open spec fn receipts_for(ms: Seq<MessageView>, rs: Seq<ReceiptView>, user_id: Seq<char>, i: int) -> nat
    decreases rs.len(),
{
    if rs.len() == 0 {
        0
    } else if rs.last().user_id == user_id && target_index(ms, rs.last().timestamp) == i {
        receipts_for(ms, rs.drop_last(), user_id, i) + 1
    } else {
        receipts_for(ms, rs.drop_last(), user_id, i)
    }
}

/// A message shows the marker of a user once for each receipt of the user
/// that has the message as its target.
pub proof fn lemma_read_by_counts(ms: Seq<MessageView>, rs: Seq<ReceiptView>, user_id: Seq<char>, i: int)
    ensures
        shown_times(read_by(ms, rs, i), user_id) == receipts_for(ms, rs, user_id, i),
    decreases rs.len(),
{
    if rs.len() > 0 {
        lemma_read_by_counts(ms, rs.drop_last(), user_id, i);
        if target_index(ms, rs.last().timestamp) == i {
            assert(read_by(ms, rs, i).drop_last() == read_by(ms, rs.drop_last(), i));
        }
    }
}

/// Where each user has one receipt at most, the receipt `rs[k]` puts its
/// user's marker on one message of the list and on no other: on the newest
/// message sent by the time of the receipt, if there is one.
pub proof fn lemma_one_marker(ms: Seq<MessageView>, rs: Seq<ReceiptView>, k: int, i: int)
    requires
        0 <= k < rs.len(),
        forall|a: int, b: int| 0 <= a < b < rs.len() ==> rs[a].user_id != rs[b].user_id,
        0 <= i < ms.len(),
    ensures
        shown_times(read_by(ms, rs, i), rs[k].user_id) == if i == target_index(
            ms,
            rs[k].timestamp,
        ) {
            1nat
        } else {
            0nat
        },
{
    lemma_read_by_counts(ms, rs, rs[k].user_id, i);
    lemma_receipts_for_one(ms, rs, k, i, rs.len() as int);
}

proof fn lemma_receipts_for_one(ms: Seq<MessageView>, rs: Seq<ReceiptView>, k: int, i: int, n: int)
    requires
        0 <= k < rs.len(),
        0 <= n <= rs.len(),
        forall|a: int, b: int| 0 <= a < b < rs.len() ==> rs[a].user_id != rs[b].user_id,
    ensures
        receipts_for(ms, rs.take(n), rs[k].user_id, i) == if k < n && i == target_index(
            ms,
            rs[k].timestamp,
        ) {
            1nat
        } else {
            0nat
        },
        n == rs.len() ==> rs.take(n) == rs,
    decreases n,
{
    if n > 0 {
        lemma_receipts_for_one(ms, rs, k, i, n - 1);
        assert(rs.take(n).drop_last() == rs.take(n - 1));
        assert(rs.take(n).last() == rs[n - 1]);
        if n - 1 != k {
            if n - 1 < k {
                assert(rs[n - 1].user_id != rs[k].user_id);
            } else {
                assert(rs[k].user_id != rs[n - 1].user_id);
            }
        }
    }
    if n == rs.len() {
        assert(rs.take(n) == rs);
    }
}

/// The index of the newest message sent by `timestamp`.
fn newest_read(messages: &Vec<Message>, timestamp: u64) -> (found: Option<usize>)
    ensures
        match found {
            Some(i) => target_index(views(messages@), timestamp) == i,
            None => target_index(views(messages@), timestamp) == -1,
        },
{
    let ghost ms = views(messages@);
    let mut i: usize = messages.len();
    assert(ms.take(i as int) == ms);
    while i > 0
        invariant
            i <= messages.len(),
            ms == views(messages@),
            target_index(ms, timestamp) == target_index(ms.take(i as int), timestamp),
        decreases i,
    {
        assert(ms.take(i as int).last() == ms[i - 1]);
        assert(ms.take(i as int).drop_last() == ms.take(i - 1));
        if messages[i - 1].sent <= timestamp {
            return Some(i - 1);
        }
        i -= 1;
    }
    None
}

impl Message {
    /// Shows the receipts of `queue` on the tree: see `with_receipts`. The
    /// queue is left with the receipts that no message of the room takes.
    pub fn apply_receipts(messages: &mut Vec<Message>, queue: &mut ReceiptQueue)
        requires
            old(queue).wf(),
        ensures
            views(final(messages)@) == with_receipts(views(old(messages)@), old(queue)@),
            final(queue)@ == old(queue)@.filter(unread(views(old(messages)@))),
            final(queue).wf(),
        decreases *old(messages),
    {
        let ghost ms = views(messages@);
        let ghost rs = queue@;
        let n: usize = messages.len();
        let mut i: usize = 0;
        while i < n
            invariant
                i <= n,
                n == messages.len(),
                ms == views(old(messages)@),
                ms.len() == n,
                rs == queue@,
                queue.wf(),
                forall|j: int|
                    0 <= j < i ==> (#[trigger] messages@[j])@ == (MessageView {
                        replies: with_receipts(ms[j].replies, rs),
                        ..ms[j]
                    }),
                forall|j: int| i <= j < n ==> (#[trigger] messages@[j]) == old(messages)@[j],
            decreases n - i,
        {
            let m = &mut messages[i];
            proof {
                lemma_replies_view(*m);
            }
            if m.replies.len() > 0 {
                let mut all = queue.copy();
                Message::apply_receipts(&mut m.replies, &mut all);
            } else {
                assert(with_receipts(ms[i as int].replies, rs) =~= ms[i as int].replies);
            }
            proof {
                let now = messages@[i as int];
                lemma_replies_view(now);
                assert(now@.replies == with_receipts(ms[i as int].replies, rs));
            }
            i += 1;
        }
        let total: usize = queue.len();
        let mut left: Vec<Receipt> = Vec::new();
        let mut k: usize = 0;
        proof {
            reveal(Seq::filter);
            assert(rs.take(0).filter(unread(ms)) == Seq::<ReceiptView>::empty());
            assert(rs.skip(0) == rs);
            assert forall|j: int| 0 <= j < n implies (#[trigger] messages@[j])@ == (MessageView {
                receipts: ms[j].receipts + read_by(ms, rs.take(0), j),
                replies: with_receipts(ms[j].replies, rs),
                ..ms[j]
            }) by {
                assert(ms[j].receipts + read_by(ms, rs.take(0), j) == ms[j].receipts);
            }
        }
        while k < total
            invariant
                k <= total,
                total == rs.len(),
                n == messages.len(),
                ms.len() == n,
                queue.wf(),
                queue@ == rs.skip(k as int),
                views(left@) == rs.take(k as int).filter(unread(ms)),
                forall|j: int|
                    0 <= j < n ==> (#[trigger] messages@[j])@ == (MessageView {
                        receipts: ms[j].receipts + read_by(ms, rs.take(k as int), j),
                        replies: with_receipts(ms[j].replies, rs),
                        ..ms[j]
                    }),
            decreases total - k,
        {
            let ghost seen = messages@;
            let top = queue.pop();
            let receipt = top.unwrap();
            proof {
                assert(receipt@ == rs[k as int]);
                assert(rs.skip(k as int).drop_first() == rs.skip(k + 1));
                assert(rs.take(k + 1) == rs.take(k as int).push(rs[k as int]));
                assert(rs.take(k + 1).drop_last() == rs.take(k as int));
                rs.take(k as int).lemma_filter_push(rs[k as int], unread(ms));
                assert forall|j: int| 0 <= j < n implies (#[trigger] views(messages@)[j]).sent
                    == ms[j].sent by {
                    assert(messages@[j]@.sent == ms[j].sent);
                }
                lemma_target_by_times(views(messages@), ms, receipt.timestamp);
                lemma_target_index(ms, receipt.timestamp);
            }
            match newest_read(messages, receipt.timestamp) {
                Some(t) => {
                    let m = &mut messages[t];
                    proof {
                        lemma_replies_view(*m);
                    }
                    m.receipts.push(Username::new(receipt.user_id));
                    proof {
                        let now = messages@[t as int];
                        lemma_replies_view(now);
                        assert(now@.receipts == (ms[t as int].receipts + read_by(
                            ms,
                            rs.take(k as int),
                            t as int,
                        )).push(fresh(rs[k as int].user_id)));
                        assert(now@.receipts == ms[t as int].receipts + read_by(
                            ms,
                            rs.take(k + 1),
                            t as int,
                        ));
                        assert forall|j: int| 0 <= j < n implies (#[trigger] messages@[j])@ == (
                        MessageView {
                            receipts: ms[j].receipts + read_by(ms, rs.take(k + 1), j),
                            replies: with_receipts(ms[j].replies, rs),
                            ..ms[j]
                        }) by {
                            if j != t {
                                assert(messages@[j] == seen[j]);
                            }
                        }
                    }
                },
                None => {
                    left.push(receipt);
                },
            }
            k += 1;
        }
        proof {
            assert(rs.take(total as int) == rs);
            lemma_filter_latest_first(rs, unread(ms));
            assert(views(messages@) =~= with_receipts(ms, rs));
        }
        *queue = ReceiptQueue::from_ordered(left);
    }
}

/// Each user's read marker is shown once in a list of messages: where no
/// user has two receipts, the receipt of a user puts the marker of that
/// user on the newest message of the list that was sent by the time of the
/// receipt, and on no other message of the list.
pub proof fn lemma_fan_out(ms: Seq<MessageView>, receipts: Seq<ReceiptView>, ignore: Seq<char>, k: int, i: int)
    requires
        one_each(receipts, ignore),
        0 <= k < receipts.len(),
        0 <= i < ms.len(),
    ensures
        queued(receipts).len() == receipts.len(),
        shown_times(read_by(ms, queued(receipts), i), queued(receipts)[k].user_id) == if i
            == target_index(ms, queued(receipts)[k].timestamp) {
            1nat
        } else {
            0nat
        },
        with_receipts(ms, queued(receipts))[i].receipts == ms[i].receipts + read_by(
            ms,
            queued(receipts),
            i,
        ),
{
    lemma_queued_one_each(receipts, ignore);
    crate::receipts::lemma_queued_members(receipts);
    lemma_one_marker(ms, queued(receipts), k, i);
}

} // verus!
