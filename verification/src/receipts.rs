//! Read receipts: which user has read a room up to which point.

use crate::username::{fresh, Username, UsernameView};
use crate::views::{group_views, views};
use vstd::prelude::*;

verus! {

broadcast use group_views;

/// The read marker of one user: the event it stands on and when the user
/// set it, in milliseconds since the Unix epoch.
pub struct Receipt {
    pub event_id: String,
    pub user_id: String,
    pub timestamp: u64,
}

pub struct ReceiptView {
    pub event_id: Seq<char>,
    pub user_id: Seq<char>,
    pub timestamp: u64,
}

impl View for Receipt {
    type V = ReceiptView;

    open spec fn view(&self) -> ReceiptView {
        ReceiptView { event_id: self.event_id@, user_id: self.user_id@, timestamp: self.timestamp }
    }
}

impl Receipt {
    pub fn copy(&self) -> (c: Receipt)
        ensures
            c@ == self@,
    {
        Receipt {
            event_id: self.event_id.clone(),
            user_id: self.user_id.clone(),
            timestamp: self.timestamp,
        }
    }
}

/// The latest receipt comes first.
pub open spec fn latest_first(rs: Seq<ReceiptView>) -> bool {
    forall|i: int, j: int| 0 <= i < j < rs.len() ==> rs[i].timestamp >= rs[j].timestamp
}

/// Where a receipt goes in a queue: behind those that are as late or later.
pub open spec fn rank(rs: Seq<ReceiptView>, timestamp: u64) -> int
    decreases rs.len(),
{
    if rs.len() == 0 || rs[0].timestamp < timestamp {
        0
    } else {
        1 + rank(rs.drop_first(), timestamp)
    }
}

proof fn lemma_rank(rs: Seq<ReceiptView>, timestamp: u64)
    requires
        latest_first(rs),
    ensures
        0 <= rank(rs, timestamp) <= rs.len(),
        forall|i: int| 0 <= i < rank(rs, timestamp) ==> rs[i].timestamp >= timestamp,
        forall|i: int| rank(rs, timestamp) <= i < rs.len() ==> rs[i].timestamp < timestamp,
    decreases rs.len(),
{
    if rs.len() > 0 && rs[0].timestamp >= timestamp {
        let rest = rs.drop_first();
        assert forall|i: int, j: int| 0 <= i < j < rest.len() implies rest[i].timestamp
            >= rest[j].timestamp by {
            assert(rs[i + 1].timestamp >= rs[j + 1].timestamp);
        }
        lemma_rank(rest, timestamp);
        assert forall|i: int| 0 <= i < rank(rs, timestamp) implies rs[i].timestamp >= timestamp by {
            if i > 0 {
                assert(rest[i - 1].timestamp >= timestamp);
            }
        }
        assert forall|i: int| rank(rs, timestamp) <= i < rs.len() implies rs[i].timestamp
            < timestamp by {
            assert(rest[i - 1].timestamp < timestamp);
        }
    } else if rs.len() > 0 {
        assert forall|i: int| 0 <= i < rs.len() implies rs[i].timestamp < timestamp by {
            if i > 0 {
                assert(rs[0].timestamp >= rs[i].timestamp);
            }
        }
    }
}

/// Receipts in the order in which they are handed out: the latest first,
/// and of two that are equally late the one that came in first.
pub struct ReceiptQueue {
    items: Vec<Receipt>,
}

impl View for ReceiptQueue {
    type V = Seq<ReceiptView>;

    closed spec fn view(&self) -> Seq<ReceiptView> {
        views(self.items@)
    }
}

impl ReceiptQueue {
    /// The queue hands its receipts out latest first.
    pub open spec fn wf(&self) -> bool {
        latest_first(self@)
    }

    pub fn new() -> (q: ReceiptQueue)
        ensures
            q@ == Seq::<ReceiptView>::empty(),
            q.wf(),
    {
        ReceiptQueue { items: Vec::new() }
    }

    pub fn len(&self) -> (n: usize)
        ensures
            n == self@.len(),
    {
        self.items.len()
    }

    /// Adds a receipt at its rank.
    pub fn push(&mut self, receipt: Receipt)
        requires
            old(self).wf(),
        ensures
            final(self).wf(),
            final(self)@ == old(self)@.insert(rank(old(self)@, receipt.timestamp), receipt@),
    {
        let ghost given = self@;
        let mut k: usize = 0;
        assert(given.skip(0) == given);
        while k < self.items.len() && self.items[k].timestamp >= receipt.timestamp
            invariant
                k <= self.items.len(),
                given == views(self.items@),
                rank(given, receipt.timestamp) == k + rank(
                    given.skip(k as int),
                    receipt.timestamp,
                ),
            decreases self.items.len() - k,
        {
            assert(given.skip(k as int).drop_first() == given.skip(k + 1));
            k += 1;
        }
        proof {
            lemma_rank(given, receipt.timestamp);
            assert(rank(given, receipt.timestamp) == k);
        }
        self.items.insert(k, receipt);
        proof {
            let out = given.insert(k as int, receipt@);
            assert(self@ == out);
            assert forall|i: int, j: int| 0 <= i < j < out.len() implies out[i].timestamp
                >= out[j].timestamp by {
                if i < k && j > k {
                    assert(given[i].timestamp >= given[j - 1].timestamp);
                } else if i > k {
                    assert(given[i - 1].timestamp >= given[j - 1].timestamp);
                } else if j < k {
                    assert(given[i].timestamp >= given[j].timestamp);
                }
            }
        }
    }

    /// The receipt that `pop` would hand out.
    pub fn peek(&self) -> (top: Option<&Receipt>)
        ensures
            self@.len() == 0 ==> top is None,
            self@.len() > 0 ==> (top matches Some(r) && r@ == self@[0]),
    {
        if self.items.len() == 0 {
            None
        } else {
            Some(&self.items[0])
        }
    }

    /// Hands out the latest receipt.
    pub fn pop(&mut self) -> (top: Option<Receipt>)
        requires
            old(self).wf(),
        ensures
            final(self).wf(),
            old(self)@.len() == 0 ==> top is None && final(self)@ == old(self)@,
            old(self)@.len() > 0 ==> (top matches Some(r) && r@ == old(self)@[0] && final(self)@
                == old(self)@.drop_first()),
    {
        if self.items.len() == 0 {
            None
        } else {
            let ghost given = self@;
            let top = self.items.remove(0);
            proof {
                assert(self@ == given.drop_first());
                assert forall|i: int, j: int| 0 <= i < j < self@.len() implies self@[i].timestamp
                    >= self@[j].timestamp by {
                    assert(given[i + 1].timestamp >= given[j + 1].timestamp);
                }
            }
            Some(top)
        }
    }

    /// A queue of receipts that stand latest first already.
    pub fn from_ordered(items: Vec<Receipt>) -> (q: ReceiptQueue)
        requires
            latest_first(views(items@)),
        ensures
            q.wf(),
            q@ == views(items@),
    {
        ReceiptQueue { items }
    }

    /// The receipt at place `i` of the queue.
    pub fn get(&self, i: usize) -> (r: &Receipt)
        requires
            i < self@.len(),
        ensures
            r@ == self@[i as int],
    {
        &self.items[i]
    }

    pub fn copy(&self) -> (c: ReceiptQueue)
        ensures
            c@ == self@,
    {
        let mut items: Vec<Receipt> = Vec::new();
        let mut i: usize = 0;
        while i < self.items.len()
            invariant
                i <= self.items.len(),
                views(items@) == views(self.items@.take(i as int)),
            decreases self.items.len() - i,
        {
            items.push(self.items[i].copy());
            assert(self.items@.take(i + 1) == self.items@.take(i as int).push(self.items@[i as int]));
            i += 1;
        }
        assert(self.items@.take(self.items.len() as int) == self.items@);
        ReceiptQueue { items }
    }
}

/// One entry of a receipt event: `user_id` has read up to `event_id`.
pub struct ReadReceipt {
    pub event_id: String,
    pub user_id: String,
    pub timestamp: u64,
}

impl View for ReadReceipt {
    type V = ReceiptView;

    open spec fn view(&self) -> ReceiptView {
        ReceiptView { event_id: self.event_id@, user_id: self.user_id@, timestamp: self.timestamp }
    }
}

/// Holds of the receipts of other users than `user_id`.
pub open spec fn not_of(user_id: Seq<char>) -> spec_fn(ReceiptView) -> bool {
    |r: ReceiptView| r.user_id != user_id
}

/// The receipts `rs` after the receipt `r` came in: it takes the place of
/// the receipt that its user had before. The user `ignore` has none.
pub open spec fn recorded(rs: Seq<ReceiptView>, r: ReceiptView, ignore: Seq<char>) -> Seq<
    ReceiptView,
> {
    if r.user_id == ignore {
        rs
    } else {
        rs.filter(not_of(r.user_id)).push(r)
    }
}

/// The receipts `rs` after each of `entries` came in, in order.
pub open spec fn recorded_all(rs: Seq<ReceiptView>, entries: Seq<ReceiptView>, ignore: Seq<char>) -> Seq<
    ReceiptView,
>
    decreases entries.len(),
{
    if entries.len() == 0 {
        rs
    } else {
        recorded(recorded_all(rs, entries.drop_last(), ignore), entries.last(), ignore)
    }
}

/// No user has two receipts, and the user `ignore` has none.
pub open spec fn one_each(rs: Seq<ReceiptView>, ignore: Seq<char>) -> bool {
    &&& forall|i: int, j: int| 0 <= i < j < rs.len() ==> rs[i].user_id != rs[j].user_id
    &&& forall|i: int| 0 <= i < rs.len() ==> rs[i].user_id != ignore
}

/// Recording a receipt keeps one receipt for each user.
pub proof fn lemma_recorded_one_each(rs: Seq<ReceiptView>, r: ReceiptView, ignore: Seq<char>)
    requires
        one_each(rs, ignore),
    ensures
        one_each(recorded(rs, r, ignore), ignore),
{
    if r.user_id != ignore {
        let kept = rs.filter(not_of(r.user_id));
        let out = kept.push(r);
        lemma_filter_order(rs, not_of(r.user_id));
        assert forall|i: int, j: int| 0 <= i < j < out.len() implies out[i].user_id
            != out[j].user_id by {
            if j < kept.len() {
                assert(stands_before(rs, kept[i], kept[j]));
                let (a, b) = choose|a: int, b: int|
                    0 <= a < b < rs.len() && rs[a] == kept[i] && rs[b] == kept[j];
                assert(rs[a].user_id != rs[b].user_id);
            } else {
                rs.lemma_filter_pred(not_of(r.user_id), i);
            }
        }
        assert forall|i: int| 0 <= i < out.len() implies out[i].user_id != ignore by {
            if i < kept.len() {
                assert(kept.contains(kept[i]));
                rs.lemma_filter_contains_rev(not_of(r.user_id), kept[i]);
                let a = rs.index_of(kept[i]);
                assert(rs[a].user_id != ignore);
            }
        }
    }
}

/// Whether `x` stands before `y` in `s`.
pub open spec fn stands_before<A>(s: Seq<A>, x: A, y: A) -> bool {
    exists|a: int, b: int| 0 <= a < b < s.len() && s[a] == x && s[b] == y
}

/// What a filter keeps stands in the order in which it stood before.
pub proof fn lemma_filter_order<A>(s: Seq<A>, p: spec_fn(A) -> bool)
    ensures
        forall|i: int, j: int|
            0 <= i < j < s.filter(p).len() ==> #[trigger] stands_before(
                s,
                s.filter(p)[i],
                s.filter(p)[j],
            ),
    decreases s.len(),
{
    reveal(Seq::filter);
    if s.len() > 0 {
        let rest = s.drop_last();
        let kept = rest.filter(p);
        let out = s.filter(p);
        lemma_filter_order(rest, p);
        assert forall|i: int, j: int| 0 <= i < j < out.len() implies #[trigger] stands_before(
            s,
            out[i],
            out[j],
        ) by {
            if j < kept.len() {
                assert(stands_before(rest, kept[i], kept[j]));
                let (a, b) = choose|a: int, b: int|
                    0 <= a < b < rest.len() && rest[a] == kept[i] && rest[b] == kept[j];
                assert(s[a] == out[i] && s[b] == out[j]);
            } else {
                assert(kept.contains(kept[i]));
                rest.lemma_filter_contains_rev(p, kept[i]);
                let a = rest.index_of(kept[i]);
                assert(s[a] == out[i] && s[s.len() - 1] == out[j]);
            }
        }
    }
}

/// A filter keeps the latest first.
pub proof fn lemma_filter_latest_first(rs: Seq<ReceiptView>, p: spec_fn(ReceiptView) -> bool)
    requires
        latest_first(rs),
    ensures
        latest_first(rs.filter(p)),
{
    lemma_filter_order(rs, p);
    let out = rs.filter(p);
    assert forall|i: int, j: int| 0 <= i < j < out.len() implies out[i].timestamp
        >= out[j].timestamp by {
        assert(stands_before(rs, out[i], out[j]));
        let (a, b) = choose|a: int, b: int| 0 <= a < b < rs.len() && rs[a] == out[i] && rs[b] == out[j];
        assert(rs[a].timestamp >= rs[b].timestamp);
    }
}

/// The read markers of a room: the last receipt of each user but one's own.
pub struct Receipts {
    entries: Vec<Receipt>,
    ignore: String,
}

impl Receipts {
    /// The receipts held, in the order in which they came in.
    pub closed spec fn entries(&self) -> Seq<ReceiptView> {
        views(self.entries@)
    }

    /// The user whose receipts are not kept.
    pub closed spec fn ignored(&self) -> Seq<char> {
        self.ignore@
    }

    /// Each user has one receipt at most, and the ignored user has none.
    pub open spec fn wf(&self) -> bool {
        one_each(self.entries(), self.ignored())
    }

    pub fn new(ignore: String) -> (r: Receipts)
        ensures
            r.wf(),
            r.entries() == Seq::<ReceiptView>::empty(),
            r.ignored() == ignore@,
    {
        Receipts { entries: Vec::new(), ignore }
    }

    /// Records one receipt: see `recorded`.
    pub fn apply(&mut self, receipt: &ReadReceipt)
        requires
            old(self).wf(),
        ensures
            final(self).wf(),
            final(self).ignored() == old(self).ignored(),
            final(self).entries() == recorded(old(self).entries(), receipt@, old(self).ignored()),
    {
        proof {
            lemma_recorded_one_each(self.entries(), receipt@, self.ignored());
        }
        if receipt.user_id == self.ignore {
            return ;
        }
        let mut all: Vec<Receipt> = Vec::new();
        std::mem::swap(&mut self.entries, &mut all);
        let ghost given = views(all@);
        proof {
            reveal(Seq::filter);
            assert(given.take(0).filter(not_of(receipt@.user_id)) == Seq::<ReceiptView>::empty());
        }
        for r in it: all
            invariant
                given == views(it.seq()),
                self.ignore == old(self).ignore,
                views(self.entries@) == given.take(it.index() as int).filter(
                    not_of(receipt@.user_id),
                ),
        {
            proof {
                let i = it.index() as int;
                assert(given.take(i + 1) == given.take(i).push(given[i]));
                given.take(i).lemma_filter_push(given[i], not_of(receipt@.user_id));
            }
            if r.user_id != receipt.user_id {
                self.entries.push(r);
            }
        }
        assert(given.take(given.len() as int) == given);
        self.entries.push(
            Receipt {
                event_id: receipt.event_id.clone(),
                user_id: receipt.user_id.clone(),
                timestamp: receipt.timestamp,
            },
        );
    }

    /// Records the entries of a receipt event, in order.
    pub fn apply_event(&mut self, entries: &Vec<ReadReceipt>)
        requires
            old(self).wf(),
        ensures
            final(self).wf(),
            final(self).ignored() == old(self).ignored(),
            final(self).entries() == recorded_all(
                old(self).entries(),
                views(entries@),
                old(self).ignored(),
            ),
    {
        let mut i: usize = 0;
        assert(views(entries@).take(0) == Seq::<ReceiptView>::empty());
        while i < entries.len()
            invariant
                i <= entries.len(),
                self.wf(),
                self.ignored() == old(self).ignored(),
                self.entries() == recorded_all(
                    old(self).entries(),
                    views(entries@).take(i as int),
                    old(self).ignored(),
                ),
            decreases entries.len() - i,
        {
            self.apply(&entries[i]);
            assert(views(entries@).take(i + 1).drop_last() == views(entries@).take(i as int));
            i += 1;
        }
        assert(views(entries@).take(entries.len() as int) == views(entries@));
    }

    /// The users whose read marker stands on the event `event_id`.
    pub fn get(&self, event_id: &String) -> (users: Vec<Username>)
        ensures
            views(users@) == readers_of(self.entries(), event_id@),
    {
        let mut users: Vec<Username> = Vec::new();
        let mut i: usize = 0;
        assert(self.entries().take(0) == Seq::<ReceiptView>::empty());
        while i < self.entries.len()
            invariant
                i <= self.entries.len(),
                views(users@) == readers_of(self.entries().take(i as int), event_id@),
            decreases self.entries.len() - i,
        {
            assert(self.entries().take(i + 1).drop_last() == self.entries().take(i as int));
            if self.entries[i].event_id == *event_id {
                users.push(Username::new(self.entries[i].user_id.clone()));
            }
            i += 1;
        }
        assert(self.entries().take(self.entries.len() as int) == self.entries());
        users
    }

    /// All receipts, the latest first.
    pub fn get_all(&self) -> (queue: ReceiptQueue)
        ensures
            queue.wf(),
            queue@ == queued(self.entries()),
    {
        let mut queue = ReceiptQueue::new();
        let mut i: usize = 0;
        assert(self.entries().take(0) == Seq::<ReceiptView>::empty());
        while i < self.entries.len()
            invariant
                i <= self.entries.len(),
                queue.wf(),
                queue@ == queued(self.entries().take(i as int)),
            decreases self.entries.len() - i,
        {
            assert(self.entries().take(i + 1).drop_last() == self.entries().take(i as int));
            queue.push(self.entries[i].copy());
            i += 1;
        }
        assert(self.entries().take(self.entries.len() as int) == self.entries());
        queue
    }

    /// The users that a receipt event speaks of, in its order.
    pub fn get_senders(entries: &Vec<ReadReceipt>) -> (ids: Vec<String>)
        ensures
            views(ids@) == Seq::new(entries.len() as nat, |i: int| entries@[i]@.user_id),
    {
        let mut ids: Vec<String> = Vec::new();
        let mut i: usize = 0;
        while i < entries.len()
            invariant
                i <= entries.len(),
                views(ids@) == Seq::new(i as nat, |k: int| entries@[k]@.user_id),
            decreases entries.len() - i,
        {
            ids.push(entries[i].user_id.clone());
            assert(views(ids@) =~= Seq::new((i + 1) as nat, |k: int| entries@[k]@.user_id));
            i += 1;
        }
        ids
    }
}

/// The users of the receipts of `rs` that stand on the event `event_id`.
pub open spec fn readers_of(rs: Seq<ReceiptView>, event_id: Seq<char>) -> Seq<UsernameView>
    decreases rs.len(),
{
    if rs.len() == 0 {
        Seq::empty()
    } else if rs.last().event_id == event_id {
        readers_of(rs.drop_last(), event_id).push(fresh(rs.last().user_id))
    } else {
        readers_of(rs.drop_last(), event_id)
    }
}

/// The receipts `rs` in a queue: each put in at its rank, in order.
pub open spec fn queued(rs: Seq<ReceiptView>) -> Seq<ReceiptView>
    decreases rs.len(),
{
    if rs.len() == 0 {
        Seq::empty()
    } else {
        let before = queued(rs.drop_last());
        before.insert(rank(before, rs.last().timestamp), rs.last())
    }
}

/// A queue holds the receipts that went into it and no others.
pub proof fn lemma_queued_members(rs: Seq<ReceiptView>)
    ensures
        queued(rs).len() == rs.len(),
        forall|k: int| 0 <= k < queued(rs).len() ==> rs.contains(#[trigger] queued(rs)[k]),
        latest_first(queued(rs)),
    decreases rs.len(),
{
    if rs.len() > 0 {
        let before = queued(rs.drop_last());
        let r = rs.last();
        lemma_queued_members(rs.drop_last());
        lemma_rank(before, r.timestamp);
        let at = rank(before, r.timestamp);
        let out = before.insert(at, r);
        assert forall|k: int| 0 <= k < out.len() implies rs.contains(#[trigger] out[k]) by {
            if k == at {
                assert(rs[rs.len() - 1] == r);
            } else {
                let x = if k < at {
                    before[k]
                } else {
                    before[k - 1]
                };
                assert(rs.drop_last().contains(x));
                let i = rs.drop_last().index_of(x);
                assert(rs[i] == x);
            }
        }
        assert forall|i: int, j: int| 0 <= i < j < out.len() implies out[i].timestamp
            >= out[j].timestamp by {
            if i < at && j > at {
                assert(before[i].timestamp >= before[j - 1].timestamp);
            } else if i > at {
                assert(before[i - 1].timestamp >= before[j - 1].timestamp);
            } else if j < at {
                assert(before[i].timestamp >= before[j].timestamp);
            }
        }
    }
}

/// Where no user has two receipts, no user has two in the queue.
pub proof fn lemma_queued_one_each(rs: Seq<ReceiptView>, ignore: Seq<char>)
    requires
        one_each(rs, ignore),
    ensures
        one_each(queued(rs), ignore),
    decreases rs.len(),
{
    if rs.len() > 0 {
        let rest = rs.drop_last();
        let before = queued(rest);
        let r = rs.last();
        assert forall|i: int, j: int| 0 <= i < j < rest.len() implies rest[i].user_id
            != rest[j].user_id by {
            assert(rs[i].user_id != rs[j].user_id);
        }
        assert forall|i: int| 0 <= i < rest.len() implies rest[i].user_id != ignore by {
            assert(rs[i].user_id != ignore);
        }
        lemma_queued_one_each(rest, ignore);
        lemma_queued_members(rest);
        lemma_rank(before, r.timestamp);
        let at = rank(before, r.timestamp);
        let out = before.insert(at, r);
        assert forall|k: int| 0 <= k < before.len() implies (#[trigger] before[k]).user_id
            != r.user_id by {
            assert(rest.contains(before[k]));
            let i = rest.index_of(before[k]);
            assert(rs[i].user_id != rs[rs.len() - 1].user_id);
        }
        assert forall|i: int, j: int| 0 <= i < j < out.len() implies out[i].user_id
            != out[j].user_id by {
            if i == at {
                assert(before[j - 1].user_id != r.user_id);
            } else if j == at {
                assert(before[i].user_id != r.user_id);
            } else if i < at && j > at {
                assert(before[i].user_id != before[j - 1].user_id);
            } else if i > at {
                assert(before[i - 1].user_id != before[j - 1].user_id);
            } else {
                assert(before[i].user_id != before[j].user_id);
            }
        }
        assert forall|i: int| 0 <= i < out.len() implies out[i].user_id != ignore by {
            assert(rs[rs.len() - 1].user_id != ignore);
            if i < at {
                assert(before[i].user_id != ignore);
            } else if i > at {
                assert(before[i - 1].user_id != ignore);
            }
        }
    }
}

} // verus!
