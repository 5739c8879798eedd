//! Properties of the board that span several operations, stated over the
//! contracts of `JobBoard`'s operations and proved from them.

use vstd::prelude::*;

use crate::board::{page, records_without, replies_of, JobBoard, ReplyRecord};
use crate::records::{BoardError, Posting, Reply};

verus! {

/// No reply to posting `id` is left once the replies to it are taken out.
pub proof fn lemma_no_replies_left(records: Seq<ReplyRecord>, id: u32)
    ensures
        replies_of(records_without(records, id), id) == Seq::<Reply>::empty(),
    decreases records.len(),
{
    if records.len() > 0 {
        lemma_no_replies_left(records.drop_last(), id);
        let rest = records_without(records.drop_last(), id);
        if records.last().1 != id {
            assert(rest.push(records.last()).drop_last() =~= rest);
        }
    }
}

/// The replies to `id` among `records` with one more record appended.
proof fn lemma_replies_of_push(records: Seq<ReplyRecord>, r: ReplyRecord, id: u32)
    ensures
        replies_of(records.push(r), id) == if r.1 == id {
            replies_of(records, id).push(r.2)
        } else {
            replies_of(records, id)
        },
{
    assert(records.push(r).drop_last() =~= records);
}

/// Postings created one after another on a fresh board get the ids 0, 1,
/// 2, ... in the order of the calls, and the store then holds exactly them in
/// that order, so that a listing from position 0 of as many entries as were
/// created returns every one of them, each with its id, in creation order.
///
/// `boards[k + 1]` is the board after the `k`-th creation, made by
/// `callers[k]`, which returned `created[k]`.
pub proof fn law_ids_follow_creation_order(
    boards: Seq<JobBoard>,
    callers: Seq<String>,
    created: Seq<Posting>,
)
    requires
        boards.len() == created.len() + 1,
        callers.len() == created.len(),
        boards[0].is_fresh(),
        forall|k: int|
            0 <= k < created.len() ==> JobBoard::posting_added(
                boards[k],
                boards[k + 1],
                callers[k],
                #[trigger] created[k],
            ),
    ensures
        forall|k: int| 0 <= k < created.len() ==> #[trigger] created[k].id == k,
        boards.last().postings_view() == created,
        created.len() <= u32::MAX,
        page(boards.last().postings_view(), 0, created.len() as u64) == created.map_values(
            |p: Posting| (p.id, p),
        ),
{
    lemma_creation_prefix(boards, callers, created, created.len() as int);
    let n = created.len();
    let f = |p: Posting| (p.id, p);
    if n > 0 {
        assert(created.subrange(0, n as int) =~= created);
    }
    assert(page(created, 0, n as u64) =~= created.map_values(f));
}

/// After the first `m` creations of `law_ids_follow_creation_order`, the store
/// holds the first `m` postings created and the counter stands at `m`.
proof fn lemma_creation_prefix(
    boards: Seq<JobBoard>,
    callers: Seq<String>,
    created: Seq<Posting>,
    m: int,
)
    requires
        boards.len() == created.len() + 1,
        callers.len() == created.len(),
        boards[0].is_fresh(),
        forall|k: int|
            0 <= k < created.len() ==> JobBoard::posting_added(
                boards[k],
                boards[k + 1],
                callers[k],
                #[trigger] created[k],
            ),
        0 <= m <= created.len(),
    ensures
        boards[m].postings_view() == created.take(m),
        boards[m].next_posting_id() == m,
        forall|k: int| 0 <= k < m ==> #[trigger] created[k].id == k,
    decreases m,
{
    if m == 0 {
        assert(created.take(0) =~= boards[0].postings_view());
    } else {
        lemma_creation_prefix(boards, callers, created, m - 1);
        assert(JobBoard::posting_added(boards[m - 1], boards[m], callers[m - 1], created[m - 1]));
        assert(created.take(m) =~= created.take(m - 1).push(created[m - 1]));
    }
}

/// Deleting a posting on behalf of an account that did not create it fails
/// with `Unauthorized` and leaves every listing of postings as it was.
pub proof fn law_foreign_delete_is_refused(
    before: JobBoard,
    after: JobBoard,
    caller: Seq<char>,
    id: u32,
    r: Result<Posting, BoardError>,
    from: u64,
    limit: u64,
)
    requires
        JobBoard::removal_outcome(before, after, caller, id, r),
        before.has_posting(id),
        !before.owned_by(id, caller),
    ensures
        r == Err::<Posting, BoardError>(BoardError::Unauthorized),
        after.postings_view() == before.postings_view(),
        page(after.postings_view(), from, limit) == page(before.postings_view(), from, limit),
{
}

/// Deleting a posting on behalf of the account that created it succeeds, and
/// afterwards neither the posting nor any reply to it is listed.
pub proof fn law_owner_delete_cascades(
    before: JobBoard,
    after: JobBoard,
    caller: Seq<char>,
    id: u32,
    r: Result<Posting, BoardError>,
)
    requires
        JobBoard::removal_outcome(before, after, caller, id, r),
        before.owned_by(id, caller),
    ensures
        r is Ok,
        !after.has_posting(id),
        after.postings_view().len() + 1 == before.postings_view().len(),
        replies_of(after.reply_records(), id) == Seq::<Reply>::empty(),
{
    lemma_no_replies_left(before.reply_records(), id);
}

/// The replies listed for a posting after a run of reply creations are those
/// listed before it, followed by exactly the replies created for that posting
/// during the run, in creation order, however they were interleaved with
/// replies to other postings. From a fresh board these are exactly the
/// replies created for it.
///
/// `boards[k + 1]` is the board after the `k`-th creation, of reply
/// `created[k].2` to posting `created[k].1`.
pub proof fn law_replies_listed_by_posting(
    boards: Seq<JobBoard>,
    created: Seq<ReplyRecord>,
    posting_id: u32,
)
    requires
        boards.len() == created.len() + 1,
        forall|k: int|
            0 <= k < created.len() ==> JobBoard::reply_added(
                boards[k],
                boards[k + 1],
                (#[trigger] created[k]).1,
                created[k].2,
            ),
    ensures
        replies_of(boards.last().reply_records(), posting_id) == replies_of(
            boards[0].reply_records(),
            posting_id,
        ) + replies_of(created, posting_id),
        boards[0].is_fresh() ==> replies_of(boards.last().reply_records(), posting_id)
            == replies_of(created, posting_id),
{
    lemma_replies_prefix(boards, created, posting_id, created.len() as int);
    assert(created.take(created.len() as int) =~= created);
    if boards[0].is_fresh() {
        assert(replies_of(boards[0].reply_records(), posting_id) =~= Seq::<Reply>::empty());
        assert(Seq::<Reply>::empty() + replies_of(created, posting_id) =~= replies_of(
            created,
            posting_id,
        ));
    }
}

/// After the first `m` creations of `law_replies_listed_by_posting`.
proof fn lemma_replies_prefix(
    boards: Seq<JobBoard>,
    created: Seq<ReplyRecord>,
    posting_id: u32,
    m: int,
)
    requires
        boards.len() == created.len() + 1,
        forall|k: int|
            0 <= k < created.len() ==> JobBoard::reply_added(
                boards[k],
                boards[k + 1],
                (#[trigger] created[k]).1,
                created[k].2,
            ),
        0 <= m <= created.len(),
    ensures
        replies_of(boards[m].reply_records(), posting_id) == replies_of(
            boards[0].reply_records(),
            posting_id,
        ) + replies_of(created.take(m), posting_id),
    decreases m,
{
    let start = replies_of(boards[0].reply_records(), posting_id);
    if m == 0 {
        assert(replies_of(created.take(0), posting_id) =~= Seq::<Reply>::empty());
        assert(start + Seq::<Reply>::empty() =~= start);
    } else {
        lemma_replies_prefix(boards, created, posting_id, m - 1);
        let c = created[m - 1];
        assert(JobBoard::reply_added(boards[m - 1], boards[m], c.1, c.2));
        let rec = (boards[m - 1].next_reply_id(), c.1, c.2);
        lemma_replies_of_push(boards[m - 1].reply_records(), rec, posting_id);
        assert(created.take(m) =~= created.take(m - 1).push(c));
        lemma_replies_of_push(created.take(m - 1), c, posting_id);
        let mid = replies_of(created.take(m - 1), posting_id);
        if c.1 == posting_id {
            assert((start + mid).push(c.2) =~= start + mid.push(c.2));
        }
    }
}

} // verus!
