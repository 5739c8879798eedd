use vstd::prelude::*;

use crate::records::{BoardError, Posting, Reply};

verus! {

/// One reply as the board knows it: its id, the id of the posting it answers,
/// and its content.
pub type ReplyRecord = (u64, u32, Reply);

/// The replies among `records` that answer posting `posting_id`, in order.
pub open spec fn replies_of(records: Seq<ReplyRecord>, posting_id: u32) -> Seq<Reply>
    decreases records.len(),
{
    if records.len() == 0 {
        Seq::empty()
    } else {
        let before = replies_of(records.drop_last(), posting_id);
        let last = records.last();
        if last.1 == posting_id {
            before.push(last.2)
        } else {
            before
        }
    }
}

/// The ids of the replies among `records` that answer posting `posting_id`, in order.
pub open spec fn reply_ids_of(records: Seq<ReplyRecord>, posting_id: u32) -> Seq<u64>
    decreases records.len(),
{
    if records.len() == 0 {
        Seq::empty()
    } else {
        let before = reply_ids_of(records.drop_last(), posting_id);
        let last = records.last();
        if last.1 == posting_id {
            before.push(last.0)
        } else {
            before
        }
    }
}

/// `records` without the replies that answer posting `posting_id`, in order.
pub open spec fn records_without(records: Seq<ReplyRecord>, posting_id: u32) -> Seq<ReplyRecord>
    decreases records.len(),
{
    if records.len() == 0 {
        Seq::empty()
    } else {
        let before = records_without(records.drop_last(), posting_id);
        let last = records.last();
        if last.1 == posting_id {
            before
        } else {
            before.push(last)
        }
    }
}

/// The page of `postings` that starts at position `from` and holds at most
/// `limit` entries, each paired with its posting's id. Empty when `from` lies
/// past the end.
pub open spec fn page(postings: Seq<Posting>, from: u64, limit: u64) -> Seq<(u32, Posting)> {
    if from >= postings.len() {
        Seq::empty()
    } else {
        let end = if from + limit < postings.len() {
            from + limit
        } else {
            postings.len() as int
        };
        postings.subrange(from as int, end).map_values(|p: Posting| (p.id, p))
    }
}

/// Whether these parts form a board: the ownership index runs parallel to
/// the posting store and the reply index parallel to the reply store, and in
/// each store the ids increase strictly and stay below their counter.
pub open spec fn parts_consistent(
    owners: Seq<(u32, String)>,
    postings: Seq<Posting>,
    replies: Seq<(u64, Reply)>,
    links: Seq<(u64, u32)>,
    posting_id: u32,
    reply_id: u64,
) -> bool {
    &&& owners.len() == postings.len()
    &&& forall|i: int| 0 <= i < postings.len() ==> #[trigger] owners[i].0 == postings[i].id
    &&& forall|i: int, j: int|
        0 <= i < j < postings.len() ==> #[trigger] postings[i].id < #[trigger] postings[j].id
    &&& forall|i: int| 0 <= i < postings.len() ==> #[trigger] postings[i].id < posting_id
    &&& replies.len() == links.len()
    &&& forall|i: int| 0 <= i < replies.len() ==> #[trigger] replies[i].0 == links[i].0
    &&& forall|i: int, j: int|
        0 <= i < j < links.len() ==> #[trigger] links[i].0 < #[trigger] links[j].0
    &&& forall|i: int| 0 <= i < links.len() ==> #[trigger] links[i].0 < reply_id
}

/// Reply store and reply index read together, entry by entry.
pub open spec fn combined(replies: Seq<(u64, Reply)>, links: Seq<(u64, u32)>) -> Seq<ReplyRecord> {
    Seq::new(replies.len(), |i: int| (links[i].0, links[i].1, replies[i].1))
}

/// The state of a job board: the posting store, the ownership index, the
/// reply store, the reply-to-posting index and the two id counters.
///
/// The ownership index runs parallel to the posting store, and the reply
/// index parallel to the reply store: entry `i` of one belongs to entry `i`
/// of the other. Both stores keep insertion order.
#[derive(Debug)]
pub struct JobBoard {
    owners: Vec<(u32, String)>,
    postings: Vec<Posting>,
    replies: Vec<(u64, Reply)>,
    reply_links: Vec<(u64, u32)>,
    posting_id: u32,
    reply_id: u64,
}

impl JobBoard {
    /// The postings, in the order they were created.
    pub closed spec fn postings_view(&self) -> Seq<Posting> {
        self.postings@
    }

    /// The ownership index: posting id and the account that created it,
    /// entry `i` for posting `i` of `postings_view`.
    pub closed spec fn owners_view(&self) -> Seq<(u32, String)> {
        self.owners@
    }

    /// The replies, in the order they were created, each with its id and the
    /// id of the posting it answers.
    pub closed spec fn reply_records(&self) -> Seq<ReplyRecord> {
        combined(self.replies@, self.reply_links@)
    }

    /// The id that the next posting will get.
    pub closed spec fn next_posting_id(&self) -> u32 {
        self.posting_id
    }

    /// The id that the next reply will get.
    pub closed spec fn next_reply_id(&self) -> u64 {
        self.reply_id
    }

    /// The stores and their indexes agree, and ids are issued in increasing
    /// order below the counters.
    pub closed spec fn wf(&self) -> bool {
        parts_consistent(
            self.owners@,
            self.postings@,
            self.replies@,
            self.reply_links@,
            self.posting_id,
            self.reply_id,
        )
    }

    /// A board with no postings, no replies, and both counters at zero.
    pub open spec fn is_fresh(&self) -> bool {
        &&& self.postings_view().len() == 0
        &&& self.owners_view().len() == 0
        &&& self.reply_records().len() == 0
        &&& self.next_posting_id() == 0
        &&& self.next_reply_id() == 0
    }

    /// `after` is `before` with posting `p` created by account `caller`.
    pub open spec fn posting_added(before: JobBoard, after: JobBoard, caller: String, p: Posting) -> bool {
        &&& before.next_posting_id() < u32::MAX
        &&& p.id == before.next_posting_id()
        &&& after.postings_view() == before.postings_view().push(p)
        &&& after.owners_view() == before.owners_view().push((p.id, caller))
        &&& after.reply_records() == before.reply_records()
        &&& after.next_posting_id() == before.next_posting_id() + 1
        &&& after.next_reply_id() == before.next_reply_id()
    }

    /// `after` is `before` with reply `reply` to posting `posting_id` created.
    pub open spec fn reply_added(before: JobBoard, after: JobBoard, posting_id: u32, reply: Reply) -> bool {
        &&& before.next_reply_id() < u64::MAX
        &&& after.postings_view() == before.postings_view()
        &&& after.owners_view() == before.owners_view()
        &&& after.reply_records() == before.reply_records().push(
            (before.next_reply_id(), posting_id, reply),
        )
        &&& after.next_posting_id() == before.next_posting_id()
        &&& after.next_reply_id() == before.next_reply_id() + 1
    }

    /// A fresh board.
    pub fn new() -> (r: JobBoard)
        ensures
            r.wf(),
            r.is_fresh(),
    {
        let r = JobBoard {
            owners: Vec::new(),
            postings: Vec::new(),
            replies: Vec::new(),
            reply_links: Vec::new(),
            posting_id: 0,
            reply_id: 0,
        };
        assert(r.reply_records() =~= Seq::empty());
        r
    }

    /// A fresh board, unless a board already exists in the caller's storage.
    pub fn init(already_initialized: bool) -> (r: Result<JobBoard, BoardError>)
        ensures
            already_initialized <==> r == Err::<JobBoard, BoardError>(
                BoardError::AlreadyInitialized,
            ),
            r is Ok ==> r->Ok_0.wf() && r->Ok_0.is_fresh(),
    {
        if already_initialized {
            Err(BoardError::AlreadyInitialized)
        } else {
            Ok(JobBoard::new())
        }
    }

    /// Creates a posting owned by `caller` under the next posting id and
    /// returns it. Fails, changing nothing, once every `u32` id is issued.
    pub fn add_posting(&mut self, caller: String, title: String, description: String, contact: String) -> (r: Result<Posting, BoardError>)
        requires
            old(self).wf(),
        ensures
            final(self).wf(),
            old(self).next_posting_id() == u32::MAX <==> r == Err::<Posting, BoardError>(
                BoardError::IdsExhausted,
            ),
            old(self).next_posting_id() < u32::MAX <==> r is Ok,
            r is Err ==> *final(self) == *old(self),
            r is Ok ==> r->Ok_0 == (Posting {
                id: old(self).next_posting_id(),
                title,
                description,
                contact,
            }),
            r is Ok ==> JobBoard::posting_added(*old(self), *final(self), caller, r->Ok_0),
    {
        if self.posting_id == u32::MAX {
            return Err(BoardError::IdsExhausted);
        }
        let id = self.posting_id;
        let posting = Posting { id, title, description, contact };
        let ghost pre = *self;
        self.owners.push((id, caller));
        self.postings.push(posting.clone());
        self.posting_id = id + 1;
        assert(self.reply_records() =~= pre.reply_records());
        Ok(posting)
    }

    /// Creates a reply to posting `posting_id` under the next reply id and
    /// returns it. Whether that posting exists is not checked. Fails,
    /// changing nothing, once every `u64` id is issued.
    pub fn add_reply(&mut self, github: String, description: String, contact: String, posting_id: u32) -> (r: Result<Reply, BoardError>)
        requires
            old(self).wf(),
        ensures
            final(self).wf(),
            old(self).next_reply_id() == u64::MAX <==> r == Err::<Reply, BoardError>(
                BoardError::IdsExhausted,
            ),
            old(self).next_reply_id() < u64::MAX <==> r is Ok,
            r is Err ==> *final(self) == *old(self),
            r is Ok ==> r->Ok_0 == (Reply { github, description, contact }),
            r is Ok ==> JobBoard::reply_added(*old(self), *final(self), posting_id, r->Ok_0),
    {
        if self.reply_id == u64::MAX {
            return Err(BoardError::IdsExhausted);
        }
        let id = self.reply_id;
        let reply = Reply { github, description, contact };
        let ghost pre = *self;
        self.replies.push((id, reply.clone()));
        self.reply_links.push((id, posting_id));
        self.reply_id = id + 1;
        assert(self.reply_records() =~= pre.reply_records().push((id, posting_id, reply)));
        Ok(reply)
    }

    /// Whether a posting with id `id` is stored.
    pub open spec fn has_posting(&self, id: u32) -> bool {
        exists|i: int| 0 <= i < self.postings_view().len() && #[trigger] self.postings_view()[i].id == id
    }

    /// Whether the posting with id `id` is stored and was created by `caller`.
    pub open spec fn owned_by(&self, id: u32, caller: Seq<char>) -> bool {
        exists|i: int|
            0 <= i < self.postings_view().len() && #[trigger] self.postings_view()[i].id == id
                && self.owners_view()[i].1@ == caller
    }

    /// The position of the posting with id `id` in the posting store.
    pub open spec fn position_of(&self, id: u32) -> int
        recommends
            self.has_posting(id),
    {
        choose|i: int| 0 <= i < self.postings_view().len() && #[trigger] self.postings_view()[i].id == id
    }

    /// `after` is `before` after posting `id`, which was `p`, was removed together
    /// with its ownership entry and every reply that answered it.
    pub open spec fn posting_removed(before: JobBoard, after: JobBoard, id: u32, p: Posting) -> bool {
        let i = before.position_of(id);
        &&& p == before.postings_view()[i]
        &&& after.postings_view() == before.postings_view().remove(i)
        &&& !after.has_posting(id)
        &&& after.owners_view() == before.owners_view().remove(i)
        &&& after.reply_records() == records_without(before.reply_records(), id)
        &&& after.next_posting_id() == before.next_posting_id()
        &&& after.next_reply_id() == before.next_reply_id()
    }

    /// What removing posting `id` on behalf of `caller` does to board
    /// `before`, leaving `after` and returning `r`: `NotFound` when no such
    /// posting is stored, `Unauthorized` when `caller` did not create it, and
    /// otherwise the removed posting. A failure changes nothing.
    pub open spec fn removal_outcome(
        before: JobBoard,
        after: JobBoard,
        caller: Seq<char>,
        id: u32,
        r: Result<Posting, BoardError>,
    ) -> bool {
        &&& !before.has_posting(id) <==> r == Err::<Posting, BoardError>(BoardError::NotFound)
        &&& before.has_posting(id) && !before.owned_by(id, caller) <==> r == Err::<
            Posting,
            BoardError,
        >(BoardError::Unauthorized)
        &&& before.owned_by(id, caller) <==> r is Ok
        &&& r is Err ==> after == before
        &&& r is Ok ==> JobBoard::posting_removed(before, after, id, r->Ok_0)
    }

    /// The position of posting `id` in the store, if it is there.
    fn find_posting(&self, id: u32) -> (r: Option<usize>)
        requires
            self.wf(),
        ensures
            r is None <==> !self.has_posting(id),
            r is Some ==> r->Some_0 == self.position_of(id),
            r is Some ==> r->Some_0 < self.postings_view().len(),
    {
        let mut i: usize = 0;
        while i < self.postings.len()
            invariant
                self.wf(),
                0 <= i <= self.postings@.len(),
                forall|k: int| 0 <= k < i ==> #[trigger] self.postings@[k].id != id,
            decreases self.postings@.len() - i,
        {
            if self.postings[i].id == id {
                assert(self.postings_view()[i as int].id == id);
                let ghost j = self.position_of(id);
                assert(j == i) by {
                    if j < i {
                        assert(self.postings@[j].id < self.postings@[i as int].id);
                    } else if j > i {
                        assert(self.postings@[i as int].id < self.postings@[j].id);
                    }
                }
                return Some(i);
            }
            i += 1;
        }
        None
    }

    /// Removes posting `posting_id` on behalf of `caller`, with every reply
    /// to it, and returns the removed posting. Fails with `NotFound` when no
    /// such posting is stored and with `Unauthorized` when `caller` did not
    /// create it; a failure changes nothing.
    pub fn remove_posting(&mut self, caller: &String, posting_id: u32) -> (r: Result<Posting, BoardError>)
        requires
            old(self).wf(),
        ensures
            final(self).wf(),
            JobBoard::removal_outcome(*old(self), *final(self), caller@, posting_id, r),
    {
        let i = match self.find_posting(posting_id) {
            None => {
                return Err(BoardError::NotFound);
            },
            Some(i) => i,
        };
        assert(self.owners_view()[i as int].0 == posting_id);
        if !self.owners[i].1.eq(caller) {
            assert(!self.owned_by(posting_id, caller@)) by {
                if self.owned_by(posting_id, caller@) {
                    let j = choose|j: int|
                        0 <= j < self.postings_view().len() && #[trigger] self.postings_view()[j].id
                            == posting_id && self.owners_view()[j].1@ == caller@;
                    if j < i {
                        assert(self.postings@[j].id < self.postings@[i as int].id);
                    } else if j > i {
                        assert(self.postings@[i as int].id < self.postings@[j].id);
                    }
                }
            }
            return Err(BoardError::Unauthorized);
        }
        assert(self.owned_by(posting_id, caller@)) by {
            assert(self.postings_view()[i as int].id == posting_id);
        }
        let ghost pre = *self;
        let removed = self.postings.remove(i);
        self.owners.remove(i);
        assert forall|a: int, b: int| 0 <= a < b < self.postings@.len() implies #[trigger] self.postings@[a].id
            < #[trigger] self.postings@[b].id by {
            let a0 = if a < i { a } else { a + 1 };
            let b0 = if b < i { b } else { b + 1 };
            assert(pre.postings@[a0].id < pre.postings@[b0].id);
        }
        assert forall|a: int| 0 <= a < self.postings@.len() implies #[trigger] self.owners@[a].0
            == self.postings@[a].id by {
            let a0 = if a < i { a } else { a + 1 };
            assert(pre.owners@[a0].0 == pre.postings@[a0].id);
        }
        assert forall|a: int| 0 <= a < self.postings@.len() implies #[trigger] self.postings@[a].id
            < self.posting_id by {
            let a0 = if a < i { a } else { a + 1 };
            assert(pre.postings@[a0].id < pre.posting_id);
        }
        assert(!self.has_posting(posting_id)) by {
            if self.has_posting(posting_id) {
                let a = choose|a: int| 0 <= a < self.postings_view().len() && #[trigger] self.postings_view()[a].id == posting_id;
                let a0 = if a < i { a } else { a + 1 };
                if a0 < i {
                    assert(pre.postings@[a0].id < pre.postings@[i as int].id);
                } else {
                    assert(pre.postings@[i as int].id < pre.postings@[a0].id);
                }
            }
        }
        self.drop_replies_of(posting_id);
        Ok(removed)
    }

    /// Removes from the reply store and the reply index every reply that
    /// answers posting `posting_id`, keeping the order of the others.
    fn drop_replies_of(&mut self, posting_id: u32)
        requires
            old(self).wf(),
        ensures
            final(self).wf(),
            final(self).postings_view() == old(self).postings_view(),
            final(self).owners_view() == old(self).owners_view(),
            final(self).reply_records() == records_without(old(self).reply_records(), posting_id),
            final(self).next_posting_id() == old(self).next_posting_id(),
            final(self).next_reply_id() == old(self).next_reply_id(),
    {
        let ghost records = self.reply_records();
        let mut kept_replies: Vec<(u64, Reply)> = Vec::new();
        let mut kept_links: Vec<(u64, u32)> = Vec::new();
        let n = self.reply_links.len();
        let mut k: usize = 0;
        while k < n
            invariant
                self.wf(),
                records == self.reply_records(),
                n == self.reply_links@.len(),
                0 <= k <= n,
                kept_replies@.len() == kept_links@.len(),
                forall|j: int| 0 <= j < kept_links@.len() ==> #[trigger] kept_replies@[j].0 == kept_links@[j].0,
                forall|a: int, b: int|
                    0 <= a < b < kept_links@.len() ==> #[trigger] kept_links@[a].0
                        < #[trigger] kept_links@[b].0,
                forall|j: int| 0 <= j < kept_links@.len() ==> #[trigger] kept_links@[j].0 < self.reply_id,
                k < n && kept_links@.len() > 0 ==> kept_links@.last().0 < self.reply_links@[k as int].0,
                combined(kept_replies@, kept_links@) == records_without(records.take(k as int), posting_id),
            decreases n - k,
        {
            let ghost before = combined(kept_replies@, kept_links@);
            assert(records.take(k + 1).drop_last() =~= records.take(k as int));
            if self.reply_links[k].1 != posting_id {
                kept_replies.push((self.replies[k].0, self.replies[k].1.clone()));
                kept_links.push(self.reply_links[k]);
                assert(combined(kept_replies@, kept_links@) =~= before.push(records[k as int]));
            }
            if k + 1 < n {
                assert(self.reply_links@[k as int].0 < self.reply_links@[k + 1].0);
            }
            k += 1;
        }
        assert(records.take(n as int) =~= records);
        self.replies = kept_replies;
        self.reply_links = kept_links;
    }

    /// Postings `from_index` onward, at most `limit` of them, each with its
    /// id, in creation order. Empty when `from_index` lies past the last
    /// posting; fails with `EmptyCollection` on a board without postings.
    pub fn get_postings(&self, from_index: u64, limit: u64) -> (r: Result<Vec<(u32, Posting)>, BoardError>)
        requires
            self.wf(),
        ensures
            self.postings_view().len() == 0 <==> r is Err,
            r is Err ==> r == Err::<Vec<(u32, Posting)>, BoardError>(BoardError::EmptyCollection),
            r is Ok ==> r->Ok_0@ == page(self.postings_view(), from_index, limit),
            r is Ok && from_index >= self.postings_view().len() ==> r->Ok_0@.len() == 0,
    {
        let total = self.postings.len() as u64;
        if total == 0 {
            return Err(BoardError::EmptyCollection);
        }
        let mut out: Vec<(u32, Posting)> = Vec::new();
        if from_index >= total {
            assert(out@ =~= page(self.postings_view(), from_index, limit));
            return Ok(out);
        }
        let count = if limit < total - from_index { limit } else { total - from_index };
        let start = from_index as usize;
        let end = (from_index + count) as usize;
        let mut k: usize = start;
        while k < end
            invariant
                start <= k <= end <= self.postings@.len(),
                out@ == self.postings@.subrange(start as int, k as int).map_values(|p: Posting| (p.id, p)),
            decreases end - k,
        {
            let p = self.postings[k].clone();
            let ghost prefix = self.postings@.subrange(start as int, k as int);
            assert(p == self.postings@[k as int]);
            out.push((p.id, p));
            assert(self.postings@.subrange(start as int, k + 1) =~= prefix.push(self.postings@[k as int]));
            assert(prefix.push(self.postings@[k as int]).map_values(|p: Posting| (p.id, p)) =~= prefix.map_values(|p: Posting| (p.id, p)).push((self.postings@[k as int].id, self.postings@[k as int])));
            k += 1;
        }
        assert(out@ =~= page(self.postings_view(), from_index, limit));
        Ok(out)
    }

    /// The replies to posting `posting_id`, in the order they were created.
    pub fn get_postings_replies(&self, posting_id: u32) -> (r: Vec<Reply>)
        requires
            self.wf(),
        ensures
            r@ == replies_of(self.reply_records(), posting_id),
    {
        let ghost records = self.reply_records();
        let mut out: Vec<Reply> = Vec::new();
        let n = self.reply_links.len();
        let mut k: usize = 0;
        while k < n
            invariant
                self.wf(),
                records == self.reply_records(),
                n == self.reply_links@.len(),
                0 <= k <= n,
                out@ == replies_of(records.take(k as int), posting_id),
            decreases n - k,
        {
            assert(records.take(k + 1).drop_last() =~= records.take(k as int));
            if self.reply_links[k].1 == posting_id {
                out.push(self.replies[k].1.clone());
            }
            k += 1;
        }
        assert(records.take(n as int) =~= records);
        out
    }

    /// The ids of the replies to posting `posting_id`, found by a scan of the
    /// whole reply index, in the order the replies were created.
    pub fn posting_replies_filter(&self, posting_id: u32) -> (r: Vec<u64>)
        requires
            self.wf(),
        ensures
            r@ == reply_ids_of(self.reply_records(), posting_id),
    {
        let ghost records = self.reply_records();
        let mut out: Vec<u64> = Vec::new();
        let n = self.reply_links.len();
        let mut k: usize = 0;
        while k < n
            invariant
                self.wf(),
                records == self.reply_records(),
                n == self.reply_links@.len(),
                0 <= k <= n,
                out@ == reply_ids_of(records.take(k as int), posting_id),
            decreases n - k,
        {
            assert(records.take(k + 1).drop_last() =~= records.take(k as int));
            if self.reply_links[k].1 == posting_id {
                out.push(self.reply_links[k].0);
            }
            k += 1;
        }
        assert(records.take(n as int) =~= records);
        out
    }

    /// The account that created posting `posting_id`, if it is stored.
    pub fn owner_of(&self, posting_id: u32) -> (r: Option<String>)
        requires
            self.wf(),
        ensures
            r is None <==> !self.has_posting(posting_id),
            r is Some ==> r->Some_0 == self.owners_view()[self.position_of(posting_id)].1,
    {
        match self.find_posting(posting_id) {
            None => None,
            Some(i) => Some(self.owners[i].1.clone()),
        }
    }

    /// How many postings are stored.
    pub fn posting_count(&self) -> (r: usize)
        ensures
            r == self.postings_view().len(),
    {
        self.postings.len()
    }

    /// How many replies are stored.
    pub fn reply_count(&self) -> (r: usize)
        ensures
            r == self.reply_records().len(),
    {
        self.replies.len()
    }

    /// The id that the next posting will get.
    pub fn current_posting_id(&self) -> (r: u32)
        ensures
            r == self.next_posting_id(),
    {
        self.posting_id
    }

    /// The id that the next reply will get.
    pub fn current_reply_id(&self) -> (r: u64)
        ensures
            r == self.next_reply_id(),
    {
        self.reply_id
    }

    /// Takes the board apart into its ownership index, posting store, reply
    /// store, reply index and counters, for storage.
    pub fn into_parts(self) -> (r: (Vec<(u32, String)>, Vec<Posting>, Vec<(u64, Reply)>, Vec<(u64, u32)>, u32, u64))
        requires
            self.wf(),
        ensures
            parts_consistent(r.0@, r.1@, r.2@, r.3@, r.4, r.5),
            r.0@ == self.owners_view(),
            r.1@ == self.postings_view(),
            combined(r.2@, r.3@) == self.reply_records(),
            r.4 == self.next_posting_id(),
            r.5 == self.next_reply_id(),
    {
        (self.owners, self.postings, self.replies, self.reply_links, self.posting_id, self.reply_id)
    }

    /// Puts a board together from parts taken out of storage, or `None` when
    /// they do not form a board.
    pub fn from_parts(
        owners: Vec<(u32, String)>,
        postings: Vec<Posting>,
        replies: Vec<(u64, Reply)>,
        reply_links: Vec<(u64, u32)>,
        posting_id: u32,
        reply_id: u64,
    ) -> (r: Option<JobBoard>)
        ensures
            r is Some <==> parts_consistent(owners@, postings@, replies@, reply_links@, posting_id, reply_id),
            r is Some ==> r->Some_0.wf(),
            r is Some ==> r->Some_0.owners_view() == owners@,
            r is Some ==> r->Some_0.postings_view() == postings@,
            r is Some ==> r->Some_0.reply_records() == combined(replies@, reply_links@),
            r is Some ==> r->Some_0.next_posting_id() == posting_id,
            r is Some ==> r->Some_0.next_reply_id() == reply_id,
    {
        if owners.len() != postings.len() || replies.len() != reply_links.len() {
            return None;
        }
        let mut i: usize = 0;
        while i < postings.len()
            invariant
                owners@.len() == postings@.len(),
                0 <= i <= postings@.len(),
                forall|k: int| 0 <= k < i ==> #[trigger] owners@[k].0 == postings@[k].id,
                forall|a: int, b: int|
                    0 <= a < b < i ==> #[trigger] postings@[a].id < #[trigger] postings@[b].id,
                forall|k: int| 0 <= k < i ==> #[trigger] postings@[k].id < posting_id,
            decreases postings@.len() - i,
        {
            let id = postings[i].id;
            if owners[i].0 != id || id >= posting_id || (i > 0 && postings[i - 1].id >= id) {
                return None;
            }
            assert forall|a: int| 0 <= a < i implies #[trigger] postings@[a].id < id by {
                if a < i - 1 {
                    assert(postings@[a].id < postings@[i - 1].id);
                }
            }
            i += 1;
        }
        let mut k: usize = 0;
        while k < reply_links.len()
            invariant
                replies@.len() == reply_links@.len(),
                0 <= k <= reply_links@.len(),
                forall|j: int| 0 <= j < k ==> #[trigger] replies@[j].0 == reply_links@[j].0,
                forall|a: int, b: int|
                    0 <= a < b < k ==> #[trigger] reply_links@[a].0 < #[trigger] reply_links@[b].0,
                forall|j: int| 0 <= j < k ==> #[trigger] reply_links@[j].0 < reply_id,
            decreases reply_links@.len() - k,
        {
            let id = reply_links[k].0;
            if replies[k].0 != id || id >= reply_id || (k > 0 && reply_links[k - 1].0 >= id) {
                return None;
            }
            assert forall|a: int| 0 <= a < k implies #[trigger] reply_links@[a].0 < id by {
                if a < k - 1 {
                    assert(reply_links@[a].0 < reply_links@[k - 1].0);
                }
            }
            k += 1;
        }
        Some(JobBoard { owners, postings, replies, reply_links, posting_id, reply_id })
    }
}

} // verus!
