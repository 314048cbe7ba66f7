//! The retention engine: which records of a collection go, and the pass that
//! walks a collection page by page, deleting them.
//!
//! A pass is a state machine. Its owner fetches pages and performs deletions,
//! and hands each page and each deletion's reply back; the pass answers with
//! the next thing to do. What a pass has decided after any sequence of pages
//! and replies is `tally` of the records it has read and the replies it got.
use std::collections::HashSet;
use vstd::prelude::*;

use crate::platform::{platform_name, Platform};
use crate::protection::{entries, is_protected, protected};
use crate::text::{after_last, after_last_range, chars_of};
use crate::timestamp::{earlier, Instant};

verus! {

/// The settings of a run; they do not change while it lasts.
#[derive(Clone, Copy, Debug, PartialEq, Eq, Structural)]
pub struct Config {
    /// Content strictly older than this instant is due for deletion.
    pub cutoff: Instant,
    /// Count what would be deleted, and delete nothing.
    pub dry_run: bool,
    /// Delete the pinned record too, when it is due.
    pub delete_pinned: bool,
    /// Delete reposts too, when they are due.
    pub delete_reposts: bool,
    /// Remove likes and favourites, when they are due.
    pub delete_likes: bool,
}

/// One record of a collection, as a pass sees it.
#[derive(Clone, Debug)]
pub struct Record {
    /// The record's full identifier; the part after its last `/` is its key.
    pub uri: String,
    /// When it was created; `None` where the time was missing or unreadable.
    pub time: Option<Instant>,
    /// The platform marks it as pinned.
    pub pinned: bool,
    /// It is a repost (a reblog) of someone else's content.
    pub repost: bool,
}

/// A record as the model sees it: its identifier as characters.
pub struct RecordView {
    pub uri: Seq<char>,
    pub time: Option<Instant>,
    pub pinned: bool,
    pub repost: bool,
}

impl View for Record {
    type V = RecordView;

    open spec fn view(&self) -> RecordView {
        RecordView { uri: self.uri@, time: self.time, pinned: self.pinned, repost: self.repost }
    }
}

/// One page of a collection, and the cursor of the next (`None` at the end).
pub struct Page {
    pub records: Vec<Record>,
    pub cursor: Option<String>,
}

/// The views of the records of a page.
pub open spec fn records_view(records: Seq<Record>) -> Seq<RecordView> {
    records.map_values(|r: Record| r@)
}

/// What the policy decides of one record.
#[derive(Clone, Copy, Debug, PartialEq, Eq, Structural)]
pub enum Verdict {
    /// Its time is missing or could not be read: it is left alone, uncounted.
    Unreadable,
    /// It is not older than the cutoff: it is left alone, uncounted.
    Recent,
    /// An old repost, and reposts are kept.
    KeptRepost,
    /// The old pinned record, and the pinned record is kept.
    KeptPinned,
    /// An old record that the keep-list protects.
    KeptProtected,
    /// An old record that nothing keeps: it goes.
    Delete,
}

/// The counters of a pass.
#[derive(Clone, Copy, Debug, PartialEq, Eq, Structural)]
pub struct DeletionOutcome {
    pub deleted: u64,
    pub skipped_pinned: u64,
    pub skipped_protected: u64,
    pub skipped_reposts: u64,
}

/// How a deletion went.
#[derive(Clone, Copy, Debug, PartialEq, Eq, Structural)]
pub enum DeleteReply {
    Deleted,
    /// The platform refused for now: the pass stops, and the next run goes on.
    RateLimited,
    /// Any other failure: the record stays, and the pass goes on.
    Failed,
}

/// What the owner of a pass is to do next.
#[derive(Clone, Debug)]
pub enum Action {
    /// Fetch the page at this cursor, and hand it to `on_page`.
    Fetch(String),
    /// Delete the record with this key, and hand the reply to `on_reply`.
    Delete(String),
    /// The pass is over; its counters are final.
    Finish,
}

/// An action as the model sees it.
pub enum ActionView {
    Fetch(Seq<char>),
    Delete(Seq<char>),
    Finish,
}

impl View for Action {
    type V = ActionView;

    open spec fn view(&self) -> ActionView {
        match self {
            Action::Fetch(c) => ActionView::Fetch(c@),
            Action::Delete(k) => ActionView::Delete(k@),
            Action::Finish => ActionView::Finish,
        }
    }
}

/// What decides the fate of a record on one platform in one run.
pub struct RetentionPolicy {
    pub platform: Platform,
    pub config: Config,
    /// The identifier of the platform's pinned record, where it was looked up.
    pub pinned: Option<String>,
    pub keep: HashSet<String>,
}

/// A policy as the model sees it: the keep-list as a set of entries.
pub struct Policy {
    pub platform: Platform,
    pub config: Config,
    pub pinned: Option<Seq<char>>,
    pub keep: Set<Seq<char>>,
}

impl View for RetentionPolicy {
    type V = Policy;

    open spec fn view(&self) -> Policy {
        Policy {
            platform: self.platform,
            config: self.config,
            pinned: match self.pinned {
                Some(p) => Some(p@),
                None => None,
            },
            keep: entries(&self.keep),
        }
    }
}

/// The key of a record: the part of its identifier after the last `/`.
pub open spec fn record_key(uri: Seq<char>) -> Seq<char> {
    after_last(uri, '/')
}

/// The record is the platform's pinned one.
pub open spec fn is_pinned(pol: Policy, r: RecordView) -> bool {
    r.pinned || pol.pinned == Some(r.uri)
}

/// The keep-list protects the record, by its key or by its full identifier.
pub open spec fn is_kept(pol: Policy, r: RecordView) -> bool {
    protected(pol.keep, platform_name(pol.platform), record_key(r.uri)) || protected(
        pol.keep,
        platform_name(pol.platform),
        r.uri,
    )
}

/// The fate of a record. The checks come in this order: a readable time,
/// the cutoff, reposts, the pinned record, the keep-list.
pub open spec fn verdict(pol: Policy, r: RecordView) -> Verdict {
    match r.time {
        None => Verdict::Unreadable,
        Some(t) => if !earlier(t, pol.config.cutoff) {
            Verdict::Recent
        } else if r.repost && !pol.config.delete_reposts {
            Verdict::KeptRepost
        } else if is_pinned(pol, r) && !pol.config.delete_pinned {
            Verdict::KeptPinned
        } else if is_kept(pol, r) {
            Verdict::KeptProtected
        } else {
            Verdict::Delete
        },
    }
}

/// The key of a record with identifier `uri`.
pub fn key_of(uri: &str) -> (r: String)
    ensures
        r@ == record_key(uri@),
{
    let cs = chars_of(uri);
    let start = after_last_range(&cs, 0, cs.len(), '/');
    assert(cs@.subrange(0, cs.len() as int) =~= uri@);
    uri.substring_char(start, cs.len()).to_owned()
}

impl RetentionPolicy {
    /// The fate of `r` under this policy.
    pub fn judge(&self, r: &Record) -> (v: Verdict)
        ensures
            v == verdict(self@, r@),
    {
        let t = match r.time {
            None => return Verdict::Unreadable,
            Some(t) => t,
        };
        if !t.is_before(&self.config.cutoff) {
            return Verdict::Recent;
        }
        if r.repost && !self.config.delete_reposts {
            return Verdict::KeptRepost;
        }
        let pinned = r.pinned || match &self.pinned {
            Some(p) => *p == r.uri,
            None => false,
        };
        if pinned && !self.config.delete_pinned {
            return Verdict::KeptPinned;
        }
        let key = key_of(r.uri.as_str());
        let name = self.platform.name();
        if is_protected(&self.keep, name, key.as_str()) || is_protected(
            &self.keep,
            name,
            r.uri.as_str(),
        ) {
            return Verdict::KeptProtected;
        }
        Verdict::Delete
    }
}

/// Where a pass stands in the records it has read.
pub enum Progress {
    /// It goes on with the next record.
    Running,
    /// It waits for the reply to the deletion of the record with this key.
    Awaiting(Seq<char>),
    /// A deletion was rate-limited: the pass reads nothing more.
    Halted,
}

/// What a pass has decided: its counters, how many records it has evaluated,
/// how many deletion replies it has taken, and where it stands.
pub struct Tally {
    pub outcome: DeletionOutcome,
    pub evaluated: nat,
    pub replies_used: nat,
    pub progress: Progress,
}

/// One more, short of the largest `u64`, where counting stops.
pub open spec fn bump(n: u64) -> u64 {
    if n < u64::MAX {
        (n + 1) as u64
    } else {
        n
    }
}

/// All counters at zero.
pub open spec fn zero_outcome() -> DeletionOutcome {
    DeletionOutcome { deleted: 0, skipped_pinned: 0, skipped_protected: 0, skipped_reposts: 0 }
}

/// The tally of a pass that has read nothing.
pub open spec fn initial_tally() -> Tally {
    Tally { outcome: zero_outcome(), evaluated: 0, replies_used: 0, progress: Progress::Running }
}

/// The tally after the reply `x` to the deletion it waited for.
pub open spec fn take_reply(t: Tally, x: DeleteReply) -> Tally {
    let used = t.replies_used + 1;
    match x {
        DeleteReply::Deleted => Tally {
            outcome: DeletionOutcome { deleted: bump(t.outcome.deleted), ..t.outcome },
            replies_used: used,
            progress: Progress::Running,
            ..t
        },
        DeleteReply::Failed => Tally { replies_used: used, progress: Progress::Running, ..t },
        DeleteReply::RateLimited => Tally { replies_used: used, progress: Progress::Halted, ..t },
    }
}

/// The tally after asking to delete the record with key `key`: the next
/// unused reply settles it, or the pass waits for one.
pub open spec fn settle(t: Tally, key: Seq<char>, replies: Seq<DeleteReply>) -> Tally {
    if t.replies_used < replies.len() {
        take_reply(t, replies[t.replies_used as int])
    } else {
        Tally { progress: Progress::Awaiting(key), ..t }
    }
}

/// The tally after evaluating `r`; nothing changes unless the pass is running.
pub open spec fn absorb(pol: Policy, t: Tally, r: RecordView, replies: Seq<DeleteReply>) -> Tally {
    if !(t.progress is Running) {
        t
    } else {
        let t = Tally { evaluated: t.evaluated + 1, ..t };
        let o = t.outcome;
        match verdict(pol, r) {
            Verdict::Unreadable => t,
            Verdict::Recent => t,
            Verdict::KeptRepost => Tally {
                outcome: DeletionOutcome { skipped_reposts: bump(o.skipped_reposts), ..o },
                ..t
            },
            Verdict::KeptPinned => Tally {
                outcome: DeletionOutcome { skipped_pinned: bump(o.skipped_pinned), ..o },
                ..t
            },
            Verdict::KeptProtected => Tally {
                outcome: DeletionOutcome { skipped_protected: bump(o.skipped_protected), ..o },
                ..t
            },
            Verdict::Delete => if pol.config.dry_run {
                Tally { outcome: DeletionOutcome { deleted: bump(o.deleted), ..o }, ..t }
            } else {
                settle(t, record_key(r.uri), replies)
            },
        }
    }
}

/// The tally of a pass that has read the records `recs`, in order, and has
/// the deletion replies `replies`.
pub open spec fn tally(pol: Policy, recs: Seq<RecordView>, replies: Seq<DeleteReply>) -> Tally
    decreases recs.len(),
{
    if recs.len() == 0 {
        initial_tally()
    } else {
        absorb(pol, tally(pol, recs.drop_last(), replies), recs.last(), replies)
    }
}

/// A tally that is not waiting has used only replies it had: one more reply
/// changes nothing.
pub proof fn lemma_tally_extra_reply(
    pol: Policy,
    recs: Seq<RecordView>,
    replies: Seq<DeleteReply>,
    x: DeleteReply,
)
    ensures
        tally(pol, recs, replies).replies_used <= replies.len(),
        !(tally(pol, recs, replies).progress is Awaiting) ==> tally(pol, recs, replies.push(x))
            == tally(pol, recs, replies),
    decreases recs.len(),
{
    if recs.len() > 0 {
        lemma_tally_extra_reply(pol, recs.drop_last(), replies, x);
    }
}

/// A tally waiting since its last record takes the next reply where it stopped.
pub proof fn lemma_tally_reply(
    pol: Policy,
    recs: Seq<RecordView>,
    replies: Seq<DeleteReply>,
    x: DeleteReply,
)
    requires
        recs.len() > 0,
        tally(pol, recs, replies).progress is Awaiting,
        tally(pol, recs.drop_last(), replies).progress is Running,
    ensures
        tally(pol, recs, replies.push(x)) == take_reply(tally(pol, recs, replies), x),
        tally(pol, recs, replies).replies_used == replies.len(),
{
    lemma_tally_extra_reply(pol, recs.drop_last(), replies, x);
}

/// Where a pass stands between two calls.
#[derive(Clone, Copy, Debug, PartialEq, Eq, Structural)]
pub enum Phase {
    /// It waits for a page.
    AwaitingPage,
    /// It waits for the reply to a deletion.
    AwaitingReply,
    /// It is over.
    Finished,
}

/// One deletion pass over one collection of one platform.
pub struct Pass {
    policy: RetentionPolicy,
    outcome: DeletionOutcome,
    page: Vec<Record>,
    pos: usize,
    cursor: Option<String>,
    phase: Phase,
    earlier: Ghost<Seq<RecordView>>,
    replies: Ghost<Seq<DeleteReply>>,
}

fn bump_count(n: u64) -> (r: u64)
    ensures
        r == bump(n),
{
    if n < u64::MAX {
        n + 1
    } else {
        n
    }
}

impl Pass {
    /// The policy the pass applies.
    pub closed spec fn policy(&self) -> Policy {
        self.policy@
    }

    /// The records of all pages handed to the pass, in order.
    pub closed spec fn received(&self) -> Seq<RecordView> {
        self.earlier@ + records_view(self.page@)
    }

    /// The records the pass has read so far: a prefix of `received`.
    pub closed spec fn seen(&self) -> Seq<RecordView> {
        self.earlier@ + records_view(self.page@).take(self.pos as int)
    }

    /// The deletion replies handed to the pass, in order.
    pub closed spec fn replies(&self) -> Seq<DeleteReply> {
        self.replies@
    }

    /// The cursor of the page after the last one received.
    pub closed spec fn next_cursor(&self) -> Option<Seq<char>> {
        match self.cursor {
            Some(c) => Some(c@),
            None => None,
        }
    }

    /// Where the pass stands between two calls.
    pub closed spec fn phase(&self) -> Phase {
        self.phase
    }

    /// The tally of what the pass has read and the replies it got.
    pub open spec fn current(&self) -> Tally {
        tally(self.policy(), self.seen(), self.replies())
    }

    /// The pass's state agrees with the tally of what it has read: its
    /// counters are the tally's, and its phase matches the tally's progress.
    pub closed spec fn wf(&self) -> bool {
        &&& self.pos <= self.page.len()
        &&& self.outcome == self.current().outcome
        &&& self.current().replies_used <= self.replies().len()
        &&& match self.phase {
            Phase::AwaitingPage => {
                &&& self.pos == self.page.len()
                &&& self.current().progress is Running
                &&& self.current().replies_used == self.replies().len()
            },
            Phase::AwaitingReply => {
                &&& self.pos > 0
                &&& self.current().progress is Awaiting
                &&& tally(self.policy(), self.seen().drop_last(), self.replies()).progress is Running
            },
            Phase::Finished => true,
        }
    }

    /// `a` is what the pass asks for in its present state: the deletion it
    /// waits for; the next page, once every record received is read; or the
    /// end, once halted or past the last page.
    pub open spec fn answers(&self, a: ActionView) -> bool {
        let t = self.current();
        match a {
            ActionView::Delete(k) => {
                &&& self.phase() == Phase::AwaitingReply
                &&& t.progress == Progress::Awaiting(k)
                &&& self.seen().len() > 0
                &&& tally(self.policy(), self.seen().drop_last(), self.replies()).progress is Running
            },
            ActionView::Fetch(c) => {
                &&& self.phase() == Phase::AwaitingPage
                &&& t.progress is Running
                &&& self.seen() == self.received()
                &&& self.next_cursor() == Some(c)
            },
            ActionView::Finish => {
                &&& self.phase() == Phase::Finished
                &&& (t.progress is Halted || (t.progress is Running && self.seen() == self.received()
                    && self.next_cursor() is None))
            },
        }
    }

    /// A pass under `policy` that has read nothing; its first page is the
    /// collection's first (no cursor).
    pub fn new(policy: RetentionPolicy) -> (r: Pass)
        ensures
            r.wf(),
            r.policy() == policy@,
            r.phase() == Phase::AwaitingPage,
            r.received() == Seq::<RecordView>::empty(),
            r.seen() == Seq::<RecordView>::empty(),
            r.replies() == Seq::<DeleteReply>::empty(),
            r.next_cursor() is None,
    {
        let r = Pass {
            policy,
            outcome: DeletionOutcome {
                deleted: 0,
                skipped_pinned: 0,
                skipped_protected: 0,
                skipped_reposts: 0,
            },
            page: Vec::new(),
            pos: 0,
            cursor: None,
            phase: Phase::AwaitingPage,
            earlier: Ghost(Seq::empty()),
            replies: Ghost(Seq::empty()),
        };
        assert(r.seen() =~= Seq::<RecordView>::empty());
        assert(r.received() =~= Seq::<RecordView>::empty());
        r
    }

    /// The counters so far.
    pub fn outcome(&self) -> (r: DeletionOutcome)
        requires
            self.wf(),
        ensures
            r == self.current().outcome,
    {
        self.outcome
    }

    /// Whether the pass is over.
    pub fn is_finished(&self) -> (r: bool)
        ensures
            r == (self.phase() == Phase::Finished),
    {
        self.phase == Phase::Finished
    }

    /// Reads on from the current position until a record is to be deleted,
    /// or the page is done.
    fn drain(&mut self) -> (action: Action)
        requires
            old(self).pos <= old(self).page.len(),
            old(self).outcome == old(self).current().outcome,
            old(self).current().progress is Running,
            old(self).current().replies_used == old(self).replies().len(),
        ensures
            final(self).wf(),
            final(self).answers(action@),
            final(self).policy() == old(self).policy(),
            final(self).received() == old(self).received(),
            final(self).replies() == old(self).replies(),
            final(self).next_cursor() == old(self).next_cursor(),
            old(self).seen().len() <= final(self).seen().len(),
            final(self).seen().len() <= final(self).received().len(),
            final(self).seen() == final(self).received().take(final(self).seen().len() as int),
    {
        let ghost pol = self.policy();
        let ghost replies = self.replies();
        let ghost start = self.seen();
        assert(self.seen() =~= self.received().take(self.seen().len() as int));
        while self.pos < self.page.len()
            invariant
                self.pos <= self.page.len(),
                self.policy() == pol,
                self.replies() == replies,
                pol == old(self).policy(),
                replies == old(self).replies(),
                start == old(self).seen(),
                self.received() == old(self).received(),
                self.next_cursor() == old(self).next_cursor(),
                self.outcome == self.current().outcome,
                self.current().progress is Running,
                self.current().replies_used == replies.len(),
                start.len() <= self.seen().len(),
                self.seen() == self.received().take(self.seen().len() as int),
                self.seen().len() == self.earlier@.len() + self.pos,
            decreases self.page.len() - self.pos,
        {
            let ghost before = self.seen();
            let ghost t = self.current();
            let v = self.policy.judge(&self.page[self.pos]);
            let ghost r = self.page@[self.pos as int]@;
            assert(records_view(self.page@)[self.pos as int] == r);
            self.pos = self.pos + 1;
            assert(self.seen() =~= before.push(r));
            assert(self.seen().drop_last() =~= before);
            assert(self.seen() =~= self.received().take(self.seen().len() as int));
            assert(self.current() == absorb(pol, t, r, replies));
            match v {
                Verdict::Unreadable => {},
                Verdict::Recent => {},
                Verdict::KeptRepost => {
                    self.outcome.skipped_reposts = bump_count(self.outcome.skipped_reposts);
                },
                Verdict::KeptPinned => {
                    self.outcome.skipped_pinned = bump_count(self.outcome.skipped_pinned);
                },
                Verdict::KeptProtected => {
                    self.outcome.skipped_protected = bump_count(self.outcome.skipped_protected);
                },
                Verdict::Delete => {
                    if self.policy.config.dry_run {
                        self.outcome.deleted = bump_count(self.outcome.deleted);
                    } else {
                        let key = key_of(self.page[self.pos - 1].uri.as_str());
                        self.phase = Phase::AwaitingReply;
                        return Action::Delete(key);
                    }
                },
            }
        }
        assert(self.seen() =~= self.received());
        match &self.cursor {
            Some(c) => {
                self.phase = Phase::AwaitingPage;
                Action::Fetch(c.clone())
            },
            None => {
                self.phase = Phase::Finished;
                Action::Finish
            },
        }
    }

    /// Takes the next page of the collection. An empty page ends the pass.
    pub fn on_page(&mut self, page: Page) -> (action: Action)
        requires
            old(self).wf(),
            old(self).phase() == Phase::AwaitingPage,
        ensures
            final(self).wf(),
            final(self).answers(action@),
            final(self).policy() == old(self).policy(),
            final(self).replies() == old(self).replies(),
            final(self).received() == old(self).received() + records_view(page.records@),
            old(self).received().len() <= final(self).seen().len(),
            final(self).seen().len() <= final(self).received().len(),
            final(self).seen() == final(self).received().take(final(self).seen().len() as int),
            page.records.len() == 0 ==> action is Finish,
            page.records.len() > 0 ==> final(self).next_cursor() == match page.cursor {
                Some(c) => Some(c@),
                None => None,
            },
    {
        let ghost old_received = self.received();
        assert(self.seen() =~= old_received);
        self.earlier = Ghost(old_received);
        let empty = page.records.len() == 0;
        self.page = page.records;
        self.pos = 0;
        assert(self.seen() =~= old_received);
        if empty {
            self.cursor = None;
            self.phase = Phase::Finished;
            assert(self.received() =~= old_received);
            assert(self.seen() =~= self.received().take(self.seen().len() as int));
            return Action::Finish;
        }
        self.cursor = page.cursor;
        self.drain()
    }

    /// Takes the reply to the deletion the pass asked for. A rate-limited
    /// reply ends the pass.
    pub fn on_reply(&mut self, reply: DeleteReply) -> (action: Action)
        requires
            old(self).wf(),
            old(self).phase() == Phase::AwaitingReply,
        ensures
            final(self).wf(),
            final(self).answers(action@),
            final(self).policy() == old(self).policy(),
            final(self).replies() == old(self).replies().push(reply),
            final(self).received() == old(self).received(),
            final(self).next_cursor() == old(self).next_cursor(),
            old(self).seen().len() <= final(self).seen().len(),
            final(self).seen().len() <= final(self).received().len(),
            final(self).seen() == final(self).received().take(final(self).seen().len() as int),
            reply == DeleteReply::RateLimited ==> action is Finish && final(self).seen() == old(
                self,
            ).seen(),
    {
        let ghost t = self.current();
        proof {
            lemma_tally_reply(self.policy(), self.seen(), self.replies(), reply);
        }
        self.replies = Ghost(self.replies@.push(reply));
        assert(self.current() == take_reply(t, reply));
        match reply {
            DeleteReply::Deleted => {
                self.outcome.deleted = bump_count(self.outcome.deleted);
                self.drain()
            },
            DeleteReply::Failed => self.drain(),
            DeleteReply::RateLimited => {
                self.phase = Phase::Finished;
                assert(self.seen() =~= self.received().take(self.seen().len() as int));
                Action::Finish
            },
        }
    }
}

} // verus!
