//! What holds of every pass: the properties that the engine's model keeps,
//! proved over `tally`, the model that `Pass` follows step by step.
use vstd::prelude::*;

use crate::engine::{
    bump, is_kept, is_pinned, record_key, tally, verdict, Config, DeleteReply, Policy, Progress,
    RecordView, Tally, Verdict,
};
use crate::timestamp::earlier;

verus! {

/// `r` is older than the cutoff and nothing keeps it: it is no repost that
/// is kept, not the pinned record that is kept, and not protected.
pub open spec fn due(pol: Policy, r: RecordView) -> bool {
    &&& r.time matches Some(t) && earlier(t, pol.config.cutoff)
    &&& !(r.repost && !pol.config.delete_reposts)
    &&& !(is_pinned(pol, r) && !pol.config.delete_pinned)
    &&& !is_kept(pol, r)
}

/// From `before` to `after` the pass asked for a deletion: it took a reply,
/// or it waits for one.
pub open spec fn asked_deletion(before: Tally, after: Tally) -> bool {
    after.replies_used > before.replies_used || after.progress is Awaiting
}

/// The number of `Deleted` replies in `replies`, counted as a pass counts.
pub open spec fn deleted_count(replies: Seq<DeleteReply>) -> u64
    decreases replies.len(),
{
    if replies.len() == 0 {
        0
    } else if replies.last() == DeleteReply::Deleted {
        bump(deleted_count(replies.drop_last()))
    } else {
        deleted_count(replies.drop_last())
    }
}

/// The records of `pages`, one page after the other.
pub open spec fn concat_pages(pages: Seq<Seq<RecordView>>) -> Seq<RecordView>
    decreases pages.len(),
{
    if pages.len() == 0 {
        Seq::empty()
    } else {
        concat_pages(pages.drop_last()) + pages.last()
    }
}

/// The number of records in `pages`.
pub open spec fn total_records(pages: Seq<Seq<RecordView>>) -> nat
    decreases pages.len(),
{
    if pages.len() == 0 {
        0
    } else {
        total_records(pages.drop_last()) + pages.last().len()
    }
}

/// The same policy, in a dry run or a live one.
pub open spec fn with_dry_run(pol: Policy, dry_run: bool) -> Policy {
    Policy { config: Config { dry_run, ..pol.config }, ..pol }
}

proof fn lemma_delete_iff_due(pol: Policy, r: RecordView)
    ensures
        (verdict(pol, r) == Verdict::Delete) == due(pol, r),
{
}

/// Cutoff correctness. A record that the pass reads while running is
/// deleted exactly when it is older than the cutoff and nothing keeps it:
/// in a live run its deletion is asked for, under its key; in a dry run it is
/// counted as deleted. A record not older than the cutoff changes nothing,
/// wherever it stands among the records.
pub proof fn cutoff_correctness(
    pol: Policy,
    recs: Seq<RecordView>,
    replies: Seq<DeleteReply>,
    r: RecordView,
)
    requires
        tally(pol, recs, replies).progress is Running,
    ensures
        ({
            let before = tally(pol, recs, replies);
            let after = tally(pol, recs.push(r), replies);
            &&& !pol.config.dry_run ==> (asked_deletion(before, after) <==> due(pol, r))
            &&& !pol.config.dry_run && after.progress is Awaiting ==> after.progress
                == Progress::Awaiting(record_key(r.uri))
            &&& pol.config.dry_run ==> !asked_deletion(before, after)
            &&& pol.config.dry_run && due(pol, r) ==> after.outcome.deleted == bump(
                before.outcome.deleted,
            )
            &&& (r.time matches Some(t) && !earlier(t, pol.config.cutoff)) ==> {
                &&& after.outcome == before.outcome
                &&& after.replies_used == before.replies_used
                &&& after.progress is Running
            }
        }),
{
    assert(recs.push(r).drop_last() =~= recs);
    lemma_delete_iff_due(pol, r);
}

/// Protection precedence. A record that the keep-list protects is never
/// deleted, however old, pinned or not: no deletion is asked for, and it is
/// not counted as deleted.
pub proof fn protection_precedence(
    pol: Policy,
    recs: Seq<RecordView>,
    replies: Seq<DeleteReply>,
    r: RecordView,
)
    requires
        is_kept(pol, r),
    ensures
        ({
            let before = tally(pol, recs, replies);
            let after = tally(pol, recs.push(r), replies);
            &&& after.replies_used == before.replies_used
            &&& !(after.progress is Awaiting) || before.progress is Awaiting
            &&& after.outcome.deleted == before.outcome.deleted
        }),
{
    assert(recs.push(r).drop_last() =~= recs);
}

/// The pinned exception. While pinned records are kept, the pinned record
/// is never deleted, even old and unprotected. Once they are not, being
/// pinned changes nothing of a record's fate.
pub proof fn pinned_exception(
    pol: Policy,
    recs: Seq<RecordView>,
    replies: Seq<DeleteReply>,
    r: RecordView,
)
    ensures
        is_pinned(pol, r) && !pol.config.delete_pinned ==> ({
            let before = tally(pol, recs, replies);
            let after = tally(pol, recs.push(r), replies);
            &&& after.replies_used == before.replies_used
            &&& !(after.progress is Awaiting) || before.progress is Awaiting
            &&& after.outcome.deleted == before.outcome.deleted
        }),
        pol.config.delete_pinned ==> verdict(pol, r) == verdict(
            Policy { pinned: None, ..pol },
            RecordView { pinned: false, ..r },
        ),
{
    assert(recs.push(r).drop_last() =~= recs);
}

proof fn lemma_dry_matches_live(
    pol: Policy,
    recs: Seq<RecordView>,
    any: Seq<DeleteReply>,
    oks: Seq<DeleteReply>,
)
    requires
        oks.len() >= recs.len(),
        forall|i: int| 0 <= i < oks.len() ==> oks[i] == DeleteReply::Deleted,
    ensures
        ({
            let dry = tally(with_dry_run(pol, true), recs, any);
            let live = tally(with_dry_run(pol, false), recs, oks);
            &&& dry.outcome == live.outcome
            &&& dry.replies_used == 0
            &&& dry.progress is Running
            &&& live.progress is Running
            &&& live.replies_used <= recs.len()
        }),
    decreases recs.len(),
{
    if recs.len() > 0 {
        lemma_dry_matches_live(pol, recs.drop_last(), any, oks);
        let r = recs.last();
        assert(verdict(with_dry_run(pol, true), r) == verdict(with_dry_run(pol, false), r));
    }
}

/// Dry-run parity. On the same records, a dry run counts exactly what a live
/// run counts when every deletion succeeds, and it asks for no deletion.
pub proof fn dry_run_parity(
    pol: Policy,
    recs: Seq<RecordView>,
    any: Seq<DeleteReply>,
    oks: Seq<DeleteReply>,
)
    requires
        oks.len() >= recs.len(),
        forall|i: int| 0 <= i < oks.len() ==> oks[i] == DeleteReply::Deleted,
    ensures
        tally(with_dry_run(pol, true), recs, any).outcome == tally(
            with_dry_run(pol, false),
            recs,
            oks,
        ).outcome,
        tally(with_dry_run(pol, true), recs, any).replies_used == 0,
        tally(with_dry_run(pol, true), recs, any).progress is Running,
{
    lemma_dry_matches_live(pol, recs, any, oks);
}

proof fn lemma_evaluated(pol: Policy, recs: Seq<RecordView>, replies: Seq<DeleteReply>)
    ensures
        tally(pol, recs, replies).evaluated <= recs.len(),
        tally(pol, recs, replies).progress is Running ==> tally(pol, recs, replies).evaluated
            == recs.len(),
    decreases recs.len(),
{
    if recs.len() > 0 {
        lemma_evaluated(pol, recs.drop_last(), replies);
    }
}

proof fn lemma_concat_len(pages: Seq<Seq<RecordView>>)
    ensures
        concat_pages(pages).len() == total_records(pages),
    decreases pages.len(),
{
    if pages.len() > 0 {
        lemma_concat_len(pages.drop_last());
    }
}

/// Pagination exhaustion. However the records are split into pages, a pass
/// reads their concatenation, and once it has read every page without
/// halting or waiting it has evaluated each record exactly once: as many
/// evaluations as records.
pub proof fn pagination_exhaustion(
    pol: Policy,
    pages: Seq<Seq<RecordView>>,
    replies: Seq<DeleteReply>,
)
    requires
        tally(pol, concat_pages(pages), replies).progress is Running,
    ensures
        tally(pol, concat_pages(pages), replies).evaluated == total_records(pages),
{
    lemma_evaluated(pol, concat_pages(pages), replies);
    lemma_concat_len(pages);
}

proof fn lemma_live_counts(pol: Policy, recs: Seq<RecordView>, replies: Seq<DeleteReply>)
    requires
        !pol.config.dry_run,
    ensures
        ({
            let t = tally(pol, recs, replies);
            &&& t.replies_used <= replies.len()
            &&& t.outcome.deleted == deleted_count(replies.take(t.replies_used as int))
            &&& t.progress is Halted <==> (t.replies_used > 0 && replies[t.replies_used - 1]
                == DeleteReply::RateLimited)
        }),
    decreases recs.len(),
{
    if recs.len() == 0 {
        assert(replies.take(0) =~= Seq::<DeleteReply>::empty());
    } else {
        lemma_live_counts(pol, recs.drop_last(), replies);
        let t = tally(pol, recs.drop_last(), replies);
        let u = t.replies_used;
        if u < replies.len() {
            assert(replies.take(u + 1 as int).drop_last() =~= replies.take(u as int));
        }
    }
}

proof fn lemma_halt_bound(
    pol: Policy,
    recs: Seq<RecordView>,
    replies: Seq<DeleteReply>,
    m: nat,
)
    requires
        !pol.config.dry_run,
        1 <= m <= replies.len(),
        replies[m - 1] == DeleteReply::RateLimited,
    ensures
        tally(pol, recs, replies).replies_used <= m,
    decreases recs.len(),
{
    if recs.len() > 0 {
        lemma_halt_bound(pol, recs.drop_last(), replies, m);
        lemma_live_counts(pol, recs.drop_last(), replies);
    }
}

proof fn lemma_halted_stays(
    pol: Policy,
    recs: Seq<RecordView>,
    more: Seq<RecordView>,
    replies: Seq<DeleteReply>,
)
    requires
        tally(pol, recs, replies).progress is Halted,
    ensures
        tally(pol, recs + more, replies) == tally(pol, recs, replies),
    decreases more.len(),
{
    if more.len() > 0 {
        lemma_halted_stays(pol, recs, more.drop_last(), replies);
        assert((recs + more).drop_last() =~= recs + more.drop_last());
    } else {
        assert(recs + more =~= recs);
    }
}

/// Rate-limit short-circuit. When the `m`-th deletion of a live pass is
/// rate-limited, the pass halts there: it has used exactly `m` replies, asks
/// for no further deletion and reads no further record, whatever follows,
/// and its deleted counter holds only the successes among the first `m - 1`.
pub proof fn rate_limit_short_circuit(
    pol: Policy,
    recs: Seq<RecordView>,
    more: Seq<RecordView>,
    replies: Seq<DeleteReply>,
    m: nat,
)
    requires
        !pol.config.dry_run,
        1 <= m <= replies.len(),
        replies[m - 1] == DeleteReply::RateLimited,
        tally(pol, recs, replies).replies_used >= m,
    ensures
        tally(pol, recs, replies).replies_used == m,
        tally(pol, recs, replies).progress is Halted,
        tally(pol, recs, replies).outcome.deleted == deleted_count(replies.take(m - 1)),
        tally(pol, recs + more, replies) == tally(pol, recs, replies),
{
    lemma_halt_bound(pol, recs, replies, m);
    lemma_live_counts(pol, recs, replies);
    assert(replies.take(m as int).drop_last() =~= replies.take(m - 1));
    lemma_halted_stays(pol, recs, more, replies);
}

} // verus!
