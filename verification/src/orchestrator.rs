//! The scheduler of one volume's chapter fetches.
//!
//! The scheduler decides; the caller acts. `Orchestrator::next_action` says
//! what is to be done next (fetch the catalog, fetch a chapter in a given
//! scratch slot, write a checkpoint, wait for a running fetch, stop), and the
//! caller reports what came of it through `catalog_fetched`, `catalog_failed`,
//! `chapter_fetched` and `chapter_failed`. `Batch` is the mathematical model
//! of the scheduler: its transitions are spec functions, the laws of the
//! scheduler are proved of them, and the executable scheduler is proved to
//! follow them step by step.

use crate::progress::ProgressMonitor;
use crate::progress::ProgressView;
use crate::volume::chapter_views;
use crate::volume::Chapter;
use crate::volume::ChapterView;
use crate::volume::texts;
use crate::volume::Novel;
use crate::volume::NovelView;
use crate::volume::Tags;
use crate::volume::TagsView;
use vstd::prelude::*;

verus! {

/// How a run of the scheduler ended.
#[derive(Clone, Copy, Debug, PartialEq, Eq, Structural)]
pub enum Outcome {
    /// The volume had chapters and none was pending.
    NothingToDo,
    /// Every pending chapter was tried; those that failed are still pending.
    Completed,
    /// The cancellation flag was seen before an admission.
    Cancelled,
    /// The catalog could not be fetched, or listed no chapter.
    CatalogFailed,
}

/// Where a run stands.
#[derive(Clone, Copy, Debug, PartialEq, Eq, Structural)]
pub enum Phase {
    Start,
    AwaitingCatalog,
    Running,
    /// The last checkpoint has been asked for.
    Closing(Outcome),
    Finished(Outcome),
}

/// What the caller is to do next.
#[derive(Clone, Copy, Debug, PartialEq, Eq, Structural)]
pub enum Action {
    /// Fetch the volume's own page and report its chapter list.
    FetchCatalog,
    /// Start fetching chapter `index` with scratch resource `slot`, after a
    /// delay of `stagger` units.
    Fetch { index: usize, slot: usize, stagger: usize },
    /// Write the volume, as it stands, to the checkpoint.
    Checkpoint,
    /// Nothing can be started: report the end of a running fetch (or the
    /// catalog) first.
    Wait,
    /// The run is over.
    Finish(Outcome),
}

/// A chapter fetch that is running, and the scratch resource it holds.
#[derive(Clone, Copy, Debug, PartialEq, Eq, Structural)]
pub struct Flight {
    pub index: usize,
    pub slot: usize,
}

/// What a volume's own page says: the volume's description and its chapters.
#[derive(Debug)]
pub struct CatalogPage {
    pub author: String,
    pub description: String,
    pub tags: Option<Tags>,
    pub cover: String,
    pub chapters: Vec<Chapter>,
}

/// What a `CatalogPage` holds.
pub struct CatalogView {
    pub author: Seq<char>,
    pub description: Seq<char>,
    pub tags: Option<TagsView>,
    pub cover: Seq<char>,
    pub chapters: Seq<ChapterView>,
}

impl View for CatalogPage {
    type V = CatalogView;

    open spec fn view(&self) -> CatalogView {
        CatalogView {
            author: self.author@,
            description: self.description@,
            tags: match self.tags {
                Some(t) => Some(t@),
                None => None,
            },
            cover: self.cover@,
            chapters: chapter_views(self.chapters@),
        }
    }
}

/// Whether a fetch of chapter `index` is running.
pub open spec fn in_flight(flights: Seq<Flight>, index: usize) -> bool {
    exists|k: int| 0 <= k < flights.len() && flights[k].index == index
}

/// The place of the running fetch of chapter `index`.
pub open spec fn flight_at(flights: Seq<Flight>, index: usize) -> int {
    choose|k: int| 0 <= k < flights.len() && flights[k].index == index
}

/// The list without the value `x`, in a list that holds it at most once.
pub open spec fn without(s: Seq<usize>, x: usize) -> Seq<usize> {
    if s.contains(x) {
        s.remove(s.index_of(x))
    } else {
        s
    }
}

/// The first pending index at or after `from`, or `len` if there is none.
pub open spec fn first_pending_from(pending: Seq<usize>, from: usize, len: usize) -> usize
    decreases len - from,
{
    if from >= len {
        len
    } else if pending.contains(from) {
        from
    } else {
        first_pending_from(pending, (from + 1) as usize, len)
    }
}

/// The indices `0, 1, ..` below `n`, in order.
pub open spec fn all_indices(n: nat) -> Seq<usize> {
    Seq::new(n, |i: int| i as usize)
}

/// The scratch resources held by the running fetches, in order.
pub open spec fn held_slots(flights: Seq<Flight>) -> Seq<usize> {
    flights.map_values(|f: Flight| f.slot)
}

/// The state of a run.
pub struct Batch {
    pub novel: NovelView,
    pub phase: Phase,
    /// The configured bound on simultaneous fetches.
    pub max_concurrent: usize,
    /// A checkpoint is due after this many successes.
    pub save_interval: usize,
    /// The number of scratch resources: the bound, or the number of chapters
    /// if that is smaller.
    pub limit: usize,
    /// Chapters below the cursor have been considered for admission.
    pub cursor: usize,
    /// The scratch resources that are free, first to be handed out first.
    pub free: Seq<usize>,
    pub flights: Seq<Flight>,
    /// The chapters whose fetch failed in this run, in the order reported.
    pub failed: Seq<usize>,
    /// The chapters whose fetch succeeded in this run, in the order reported.
    pub succeeded: Seq<usize>,
    pub checkpoint_due: bool,
    /// Whether the cancellation flag has been seen.
    pub cancelled: bool,
    pub progress: ProgressView,
    /// How many successes the monitor had counted when the fetching began.
    pub base_completed: usize,
    /// How many errors the monitor had counted when the fetching began.
    pub base_errors: usize,
}

impl Batch {
    /// The state before the first step.
    pub open spec fn initial(novel: NovelView, max_concurrent: usize, save_interval: usize) -> Batch {
        Batch {
            novel,
            phase: Phase::Start,
            max_concurrent,
            save_interval,
            limit: 0,
            cursor: 0,
            free: Seq::empty(),
            flights: Seq::empty(),
            failed: Seq::empty(),
            succeeded: Seq::empty(),
            checkpoint_due: false,
            cancelled: false,
            progress: ProgressView::fresh(novel.pending.len() as usize, novel.name),
            base_completed: 0,
            base_errors: 0,
        }
    }

    /// The state before the first step of a run that goes on with the
    /// monitor of an earlier run.
    pub open spec fn continued(
        novel: NovelView,
        max_concurrent: usize,
        save_interval: usize,
        progress: ProgressView,
    ) -> Batch {
        Batch { progress, ..Batch::initial(novel, max_concurrent, save_interval) }
    }

    /// The scratch resources, free ones first.
    pub open spec fn slots(self) -> Seq<usize> {
        self.free + held_slots(self.flights)
    }

    /// Nothing is running and nothing has been recorded.
    pub open spec fn idle(self) -> bool {
        &&& self.flights.len() == 0
        &&& self.free.len() == 0
        &&& self.failed.len() == 0
        &&& self.succeeded.len() == 0
        &&& !self.cancelled
        &&& !self.checkpoint_due
    }

    /// What holds while chapters are being fetched, and after.
    pub open spec fn batch_wf(self) -> bool {
        &&& 1 <= self.limit <= self.max_concurrent
        &&& self.cursor <= self.novel.chapters.len()
        &&& self.free.len() + self.flights.len() == self.limit
        &&& self.slots().no_duplicates()
        &&& forall|k: int| 0 <= k < self.slots().len() ==> #[trigger] self.slots()[k] < self.limit
        &&& forall|a: int, b: int|
            0 <= a < b < self.flights.len() ==> self.flights[a].index != self.flights[b].index
        &&& forall|k: int|
            0 <= k < self.flights.len() ==> (#[trigger] self.flights[k]).index < self.cursor
                && self.novel.pending.contains(self.flights[k].index)
        &&& self.failed.no_duplicates()
        &&& forall|k: int|
            0 <= k < self.failed.len() ==> (#[trigger] self.failed[k]) < self.cursor
                && self.novel.pending.contains(self.failed[k]) && !in_flight(
                self.flights,
                self.failed[k],
            )
        &&& self.succeeded.no_duplicates()
        &&& forall|k: int|
            0 <= k < self.succeeded.len() ==> (#[trigger] self.succeeded[k])
                < self.novel.chapters.len() && !self.novel.pending.contains(self.succeeded[k])
        &&& !self.cancelled ==> forall|i: usize|
            i < self.cursor && #[trigger] self.novel.pending.contains(i) ==> in_flight(
                self.flights,
                i,
            ) || self.failed.contains(i)
        &&& self.base_completed + self.succeeded.len() <= usize::MAX ==> self.progress.completed
            == self.base_completed + self.succeeded.len()
        &&& self.base_errors + self.failed.len() <= usize::MAX ==> self.progress.errors
            == self.base_errors + self.failed.len()
    }

    /// What holds once the run has ended with `outcome`.
    pub open spec fn closed_wf(self, outcome: Outcome) -> bool {
        match outcome {
            Outcome::Completed => {
                &&& self.batch_wf()
                &&& self.flights.len() == 0
                &&& !self.cancelled
                &&& forall|i: usize| #[trigger]
                    self.novel.pending.contains(i) ==> self.failed.contains(i)
            },
            Outcome::Cancelled => {
                &&& self.batch_wf()
                &&& self.flights.len() == 0
                &&& self.cancelled
            },
            _ => false,
        }
    }

    /// The invariant of a run.
    pub open spec fn wf(self) -> bool {
        &&& self.max_concurrent >= 1
        &&& self.save_interval >= 1
        &&& self.novel.well_formed()
        &&& self.novel.chapters.len() <= usize::MAX
        &&& match self.phase {
            Phase::Start => self.idle(),
            Phase::AwaitingCatalog => self.idle() && self.novel.chapters.len() == 0,
            Phase::Running => self.batch_wf(),
            Phase::Closing(o) => self.closed_wf(o),
            Phase::Finished(o) => match o {
                Outcome::NothingToDo | Outcome::CatalogFailed => self.idle(),
                _ => self.closed_wf(o),
            },
        }
    }

    /// The state in which the scratch resources have been set up and the
    /// monitor has begun the run.
    pub open spec fn begun(self) -> Batch {
        let limit = if self.novel.chapters.len() < self.max_concurrent {
            self.novel.chapters.len() as usize
        } else {
            self.max_concurrent
        };
        Batch {
            phase: Phase::Running,
            limit,
            cursor: 0,
            free: all_indices(limit as nat),
            progress: self.progress.next_run(self.novel.pending.len() as usize),
            base_completed: self.progress.completed,
            base_errors: self.progress.errors,
            ..self
        }
    }

    /// Ends the batch: the last checkpoint is asked for, which stands for a
    /// checkpoint that was due as well.
    pub open spec fn close(self, outcome: Outcome) -> (Batch, Action) {
        (
            Batch {
                phase: Phase::Closing(outcome),
                checkpoint_due: false,
                progress: self.progress.frozen(),
                ..self
            },
            Action::Checkpoint,
        )
    }

    /// The next step of a run whose scratch resources are set up. With no
    /// fetch running, a run that is cancelled or has no chapter left to admit
    /// ends. Else a checkpoint that is due is asked for. Else, where no chapter
    /// can be admitted (the run is cancelled, none is left, or no scratch
    /// resource is free) the caller waits. Else the cancellation flag is looked
    /// at, and if it is not set, the next pending chapter is admitted with the
    /// scratch resource that has been free longest.
    pub open spec fn run(self, cancel: bool) -> (Batch, Action) {
        let len = self.novel.chapters.len() as usize;
        let j = first_pending_from(self.novel.pending, self.cursor, len);
        if self.flights.len() == 0 && self.cancelled {
            self.close(Outcome::Cancelled)
        } else if self.flights.len() == 0 && j >= len {
            self.close(Outcome::Completed)
        } else if self.checkpoint_due {
            (Batch { checkpoint_due: false, ..self }, Action::Checkpoint)
        } else if self.cancelled || j >= len || self.free.len() == 0 {
            (self, Action::Wait)
        } else if cancel {
            if self.flights.len() == 0 {
                (Batch { cancelled: true, ..self }).close(Outcome::Cancelled)
            } else {
                (Batch { cancelled: true, ..self }, Action::Wait)
            }
        } else {
            (
                Batch {
                    cursor: (j + 1) as usize,
                    free: self.free.drop_first(),
                    flights: self.flights.push(Flight { index: j, slot: self.free[0] }),
                    ..self
                },
                Action::Fetch { index: j, slot: self.free[0], stagger: j % self.limit },
            )
        }
    }

    /// The next step: the state after it, and what the caller is to do.
    /// `cancel` is the cancellation flag as the caller reads it now; it is
    /// looked at only when a chapter could be admitted.
    pub open spec fn next(self, cancel: bool) -> (Batch, Action) {
        match self.phase {
            Phase::Start => {
                if self.novel.chapters.len() == 0 {
                    (Batch { phase: Phase::AwaitingCatalog, ..self }, Action::FetchCatalog)
                } else if self.novel.pending.len() == 0 {
                    (
                        Batch { phase: Phase::Finished(Outcome::NothingToDo), ..self },
                        Action::Finish(Outcome::NothingToDo),
                    )
                } else {
                    self.begun().run(cancel)
                }
            },
            Phase::AwaitingCatalog => (self, Action::Wait),
            Phase::Running => self.run(cancel),
            Phase::Closing(o) => (Batch { phase: Phase::Finished(o), ..self }, Action::Finish(o)),
            Phase::Finished(o) => (self, Action::Finish(o)),
        }
    }

    /// Whether the end of a fetch of chapter `index` is expected.
    pub open spec fn expects(self, index: usize) -> bool {
        self.phase is Running && in_flight(self.flights, index)
    }

    /// The state after the fetch of chapter `index` has given back its
    /// scratch resource.
    pub open spec fn released(self, index: usize) -> Batch {
        let k = flight_at(self.flights, index);
        Batch {
            flights: self.flights.remove(k),
            free: self.free.push(self.flights[k].slot),
            ..self
        }
    }

    /// The state after the fetch of chapter `index` has succeeded with the
    /// given text blocks and asset addresses. After a cancellation the result
    /// is dropped and the chapter stays pending.
    pub open spec fn on_fetched(self, index: usize, context: Seq<Seq<char>>, image: Seq<Seq<char>>) -> Batch {
        if !self.expects(index) {
            self
        } else if self.cancelled {
            self.released(index)
        } else {
            let done = (self.succeeded.len() + 1) as usize;
            Batch {
                novel: NovelView {
                    chapters: self.novel.chapters.update(
                        index as int,
                        ChapterView { context, image, ..self.novel.chapters[index as int] },
                    ),
                    pending: without(self.novel.pending, index),
                    ..self.novel
                },
                succeeded: self.succeeded.push(index),
                progress: self.progress.incremented(),
                checkpoint_due: self.checkpoint_due || done % self.save_interval == 0,
                ..self.released(index)
            }
        }
    }

    /// The state after the fetch of chapter `index` has failed: the chapter
    /// stays pending and the error is recorded.
    pub open spec fn on_failed(self, index: usize) -> Batch {
        if !self.expects(index) {
            self
        } else if self.cancelled {
            self.released(index)
        } else {
            Batch {
                failed: self.failed.push(index),
                progress: self.progress.with_error(),
                ..self.released(index)
            }
        }
    }

    /// The state after the catalog has arrived. A catalog without chapters
    /// ends the run and leaves the volume as it was.
    pub open spec fn on_catalog(self, page: CatalogView) -> Batch {
        if !(self.phase is AwaitingCatalog) {
            self
        } else if page.chapters.len() == 0 {
            Batch { phase: Phase::Finished(Outcome::CatalogFailed), ..self }
        } else {
            Batch {
                novel: NovelView {
                    author: page.author,
                    description: page.description,
                    tags: page.tags,
                    cover: page.cover,
                    chapters: page.chapters,
                    pending: all_indices(page.chapters.len()),
                    ..self.novel
                },
                phase: Phase::Start,
                ..self
            }
        }
    }

    /// The state after the catalog could not be fetched.
    pub open spec fn on_catalog_failed(self) -> Batch {
        if self.phase is AwaitingCatalog {
            Batch { phase: Phase::Finished(Outcome::CatalogFailed), ..self }
        } else {
            self
        }
    }

    /// The chapters that this run has to account for: those still pending
    /// and those it has fetched.
    pub open spec fn accounted(self) -> Set<usize> {
        self.novel.pending.to_set() + self.succeeded.to_set()
    }
}

/// In a list without repetitions, a value's place is the place where it is
/// found.
pub proof fn lemma_index_of_unique(s: Seq<usize>, x: usize, k: int)
    requires
        s.no_duplicates(),
        0 <= k < s.len(),
        s[k] == x,
    ensures
        s.contains(x),
        s.index_of(x) == k,
        without(s, x) == s.remove(k),
        !without(s, x).contains(x),
        without(s, x).no_duplicates(),
        forall|y: usize| y != x ==> (without(s, x).contains(y) <==> s.contains(y)),
{
    let j = s.index_of(x);
    assert(0 <= j < s.len() && s[j] == x);
    let r = s.remove(k);
    assert forall|a: int, b: int| 0 <= a < r.len() && 0 <= b < r.len() && a != b implies r[a]
        != r[b] by {
        let a2 = if a < k { a } else { a + 1 };
        let b2 = if b < k { b } else { b + 1 };
        assert(r[a] == s[a2] && r[b] == s[b2]);
    }
    if r.contains(x) {
        let a = choose|a: int| 0 <= a < r.len() && r[a] == x;
        let a2 = if a < k { a } else { a + 1 };
        assert(r[a] == s[a2]);
        assert(false);
    }
    assert forall|y: usize| y != x implies (r.contains(y) <==> s.contains(y)) by {
        if r.contains(y) {
            let a = choose|a: int| 0 <= a < r.len() && r[a] == y;
            let a2 = if a < k { a } else { a + 1 };
            assert(r[a] == s[a2]);
        }
        if s.contains(y) {
            let a = choose|a: int| 0 <= a < s.len() && s[a] == y;
            let a2 = if a < k { a } else { a - 1 };
            assert(r[a2] == s[a]);
        }
    }
}

/// Where the search for the next pending chapter ends.
pub proof fn lemma_first_pending(pending: Seq<usize>, from: usize, len: usize)
    requires
        from <= len,
    ensures
        from <= first_pending_from(pending, from, len) <= len,
        first_pending_from(pending, from, len) < len ==> pending.contains(
            first_pending_from(pending, from, len),
        ),
        forall|i: usize|
            from <= i < first_pending_from(pending, from, len) ==> !pending.contains(i),
    decreases len - from,
{
    if from < len && !pending.contains(from) {
        lemma_first_pending(pending, (from + 1) as usize, len);
    }
}

/// A list whose items are found, each at a place of its own, in a list
/// without repetitions has no repetitions either.
proof fn lemma_reindexed_no_duplicates(s: Seq<usize>, t: Seq<usize>, f: spec_fn(int) -> int)
    requires
        s.no_duplicates(),
        forall|p: int| 0 <= p < t.len() ==> 0 <= #[trigger] f(p) < s.len() && t[p] == s[f(p)],
        forall|p: int, q: int| 0 <= p < q < t.len() ==> #[trigger] f(p) != #[trigger] f(q),
    ensures
        t.no_duplicates(),
{
    assert forall|a: int, b: int| 0 <= a < t.len() && 0 <= b < t.len() && a != b implies t[a]
        != t[b] by {
        assert(t[a] == s[f(a)] && t[b] == s[f(b)]);
        if a < b {
            assert(f(a) != f(b));
        } else {
            assert(f(b) != f(a));
        }
    }
}

/// The scratch resources stay the same set when a free one is handed out.
proof fn lemma_admit_slots(m: Batch, j: usize)
    requires
        m.slots().no_duplicates(),
        forall|k: int| 0 <= k < m.slots().len() ==> #[trigger] m.slots()[k] < m.limit,
        m.free.len() > 0,
    ensures
        ({
            let n = Batch {
                free: m.free.drop_first(),
                flights: m.flights.push(Flight { index: j, slot: m.free[0] }),
                ..m
            };
            &&& n.slots().no_duplicates()
            &&& forall|k: int| 0 <= k < n.slots().len() ==> #[trigger] n.slots()[k] < m.limit
        }),
{
    let n = Batch {
        free: m.free.drop_first(),
        flights: m.flights.push(Flight { index: j, slot: m.free[0] }),
        ..m
    };
    let s = m.slots();
    let t = n.slots();
    let len = s.len() as int;
    assert(t.len() == len);
    let f = |p: int| if p == len - 1 { 0int } else { p + 1 };
    assert forall|p: int| 0 <= p < t.len() implies 0 <= #[trigger] f(p) < s.len() && t[p] == s[f(
        p,
    )] by {
        if p < m.free.len() - 1 {
            assert(t[p] == m.free[p + 1]);
        } else if p < len - 1 {
            let q = p - (m.free.len() - 1);
            assert(t[p] == held_slots(n.flights)[q]);
            assert(n.flights[q] == m.flights[q]);
            assert(s[p + 1] == held_slots(m.flights)[q]);
        } else {
            let q = p - (m.free.len() - 1);
            assert(t[p] == held_slots(n.flights)[q]);
            assert(s[0] == m.free[0]);
        }
    }
    lemma_reindexed_no_duplicates(s, t, f);
    assert forall|k: int| 0 <= k < t.len() implies #[trigger] t[k] < m.limit by {
        assert(t[k] == s[f(k)]);
    }
}

/// The scratch resources stay the same set when a held one is given back.
proof fn lemma_release_slots(m: Batch, k: int)
    requires
        m.slots().no_duplicates(),
        forall|i: int| 0 <= i < m.slots().len() ==> #[trigger] m.slots()[i] < m.limit,
        0 <= k < m.flights.len(),
    ensures
        ({
            let n = Batch {
                flights: m.flights.remove(k),
                free: m.free.push(m.flights[k].slot),
                ..m
            };
            &&& n.slots().no_duplicates()
            &&& forall|i: int| 0 <= i < n.slots().len() ==> #[trigger] n.slots()[i] < m.limit
        }),
{
    let n = Batch { flights: m.flights.remove(k), free: m.free.push(m.flights[k].slot), ..m };
    let s = m.slots();
    let t = n.slots();
    let fl = m.free.len() as int;
    assert(t.len() == s.len());
    let f = |p: int|
        if p < fl {
            p
        } else if p == fl {
            fl + k
        } else if p - fl - 1 < k {
            p - 1
        } else {
            p
        };
    assert forall|p: int| 0 <= p < t.len() implies 0 <= #[trigger] f(p) < s.len() && t[p] == s[f(
        p,
    )] by {
        if p < fl {
            assert(t[p] == m.free[p]);
        } else if p == fl {
            assert(t[p] == m.flights[k].slot);
            assert(s[fl + k] == held_slots(m.flights)[k]);
        } else {
            let q = p - fl - 1;
            assert(t[p] == held_slots(n.flights)[q]);
            if q < k {
                assert(n.flights[q] == m.flights[q]);
                assert(s[p - 1] == held_slots(m.flights)[q]);
            } else {
                assert(n.flights[q] == m.flights[q + 1]);
                assert(s[p] == held_slots(m.flights)[q + 1]);
            }
        }
    }
    lemma_reindexed_no_duplicates(s, t, f);
    assert forall|i: int| 0 <= i < t.len() implies #[trigger] t[i] < m.limit by {
        assert(t[i] == s[f(i)]);
    }
}

/// Giving back the scratch resource of a running fetch keeps what holds of
/// the scratch resources and of the other running fetches.
proof fn lemma_released(m: Batch, index: usize)
    requires
        m.batch_wf(),
        in_flight(m.flights, index),
    ensures
        ({
            let k = flight_at(m.flights, index);
            let n = m.released(index);
            &&& 0 <= k < m.flights.len()
            &&& m.flights[k].index == index
            &&& index < m.cursor
            &&& m.novel.pending.contains(index)
            &&& !m.failed.contains(index)
            &&& !m.succeeded.contains(index)
            &&& n.free.len() + n.flights.len() == m.limit
            &&& n.slots().no_duplicates()
            &&& forall|i: int| 0 <= i < n.slots().len() ==> #[trigger] n.slots()[i] < m.limit
            &&& !in_flight(n.flights, index)
            &&& forall|i: usize| i != index ==> (in_flight(n.flights, i) <==> in_flight(m.flights, i))
            &&& forall|a: int, b: int|
                0 <= a < b < n.flights.len() ==> n.flights[a].index != n.flights[b].index
            &&& forall|a: int|
                0 <= a < n.flights.len() ==> (#[trigger] n.flights[a]).index < m.cursor
                    && m.novel.pending.contains(n.flights[a].index) && n.flights[a].index != index
        }),
{
    let k = flight_at(m.flights, index);
    let n = m.released(index);
    lemma_release_slots(m, k);
    assert(m.flights[k].index == index);
    if m.failed.contains(index) {
        let a = choose|a: int| 0 <= a < m.failed.len() && m.failed[a] == index;
        assert(!in_flight(m.flights, m.failed[a]));
    }
    if m.succeeded.contains(index) {
        let a = choose|a: int| 0 <= a < m.succeeded.len() && m.succeeded[a] == index;
        assert(!m.novel.pending.contains(m.succeeded[a]));
    }
    assert forall|a: int| 0 <= a < n.flights.len() implies (#[trigger] n.flights[a]).index
        < m.cursor && m.novel.pending.contains(n.flights[a].index) && n.flights[a].index
        != index by {
        let a2 = if a < k { a } else { a + 1 };
        assert(n.flights[a] == m.flights[a2]);
        if a2 < k {
            assert(m.flights[a2].index != m.flights[k].index);
        } else {
            assert(m.flights[k].index != m.flights[a2].index);
        }
    }
    assert forall|a: int, b: int| 0 <= a < b < n.flights.len() implies n.flights[a].index
        != n.flights[b].index by {
        let a2 = if a < k { a } else { a + 1 };
        let b2 = if b < k { b } else { b + 1 };
        assert(n.flights[a] == m.flights[a2] && n.flights[b] == m.flights[b2]);
    }
    if in_flight(n.flights, index) {
        let a = choose|a: int| 0 <= a < n.flights.len() && n.flights[a].index == index;
        assert(n.flights[a].index != index);
    }
    assert forall|i: usize| i != index implies (in_flight(n.flights, i) <==> in_flight(
        m.flights,
        i,
    )) by {
        if in_flight(n.flights, i) {
            let a = choose|a: int| 0 <= a < n.flights.len() && n.flights[a].index == i;
            let a2 = if a < k { a } else { a + 1 };
            assert(n.flights[a] == m.flights[a2]);
        }
        if in_flight(m.flights, i) {
            let a = choose|a: int| 0 <= a < m.flights.len() && m.flights[a].index == i;
            let a2 = if a < k { a } else { a - 1 };
            assert(n.flights[a2] == m.flights[a]);
        }
    }
}

/// The first state of a run is well formed.
pub proof fn lemma_initial_wf(novel: NovelView, max_concurrent: usize, save_interval: usize)
    requires
        novel.well_formed(),
        novel.chapters.len() <= usize::MAX,
        max_concurrent >= 1,
        save_interval >= 1,
    ensures
        Batch::initial(novel, max_concurrent, save_interval).wf(),
{
}

/// Setting up the scratch resources of a volume with chapters gives a state
/// in which fetching can go on.
proof fn lemma_begun(m: Batch)
    requires
        m.wf(),
        m.phase is Start,
        m.novel.chapters.len() > 0,
    ensures
        m.begun().wf(),
        m.begun().phase is Running,
        m.begun().novel == m.novel,
        m.begun().progress == m.progress.next_run(m.novel.pending.len() as usize),
        m.begun().base_completed == m.progress.completed,
        m.begun().base_errors == m.progress.errors,
{
    let n = m.begun();
    assert(held_slots(n.flights) =~= Seq::<usize>::empty());
    assert(n.slots() =~= n.free);
}

/// A step of a running batch keeps the invariant and leaves the volume as
/// it is.
proof fn lemma_run_wf(m: Batch, cancel: bool)
    requires
        m.wf(),
        m.phase is Running,
    ensures
        m.run(cancel).0.wf(),
        m.run(cancel).0.novel == m.novel,
        m.run(cancel).0.succeeded == m.succeeded,
        m.run(cancel).0.failed == m.failed,
        m.run(cancel).0.max_concurrent == m.max_concurrent,
{
    let len = m.novel.chapters.len() as usize;
    let j = first_pending_from(m.novel.pending, m.cursor, len);
    lemma_first_pending(m.novel.pending, m.cursor, len);
    if m.flights.len() == 0 && m.cancelled {
    } else if m.flights.len() == 0 && j >= len {
        assert forall|i: usize| #[trigger] m.novel.pending.contains(i) implies m.failed.contains(
            i,
        ) by {
            let a = choose|a: int| 0 <= a < m.novel.pending.len() && m.novel.pending[a] == i;
            assert(i < len);
            if i < m.cursor {
                if in_flight(m.flights, i) {
                    let b = choose|b: int| 0 <= b < m.flights.len() && m.flights[b].index == i;
                }
            }
        }
    } else if m.checkpoint_due {
    } else if m.cancelled || j >= len || m.free.len() == 0 {
    } else if cancel {
    } else {
        let n = m.run(cancel).0;
        lemma_admit_slots(m, j);
        let last = m.flights.len() as int;
        assert(n.flights[last].index == j);
        assert forall|a: int, b: int| 0 <= a < b < n.flights.len() implies n.flights[a].index
            != n.flights[b].index by {
            if b == last {
                assert(n.flights[a] == m.flights[a]);
                assert(m.flights[a].index < m.cursor);
            } else {
                assert(n.flights[a] == m.flights[a] && n.flights[b] == m.flights[b]);
            }
        }
        assert forall|k: int| 0 <= k < n.flights.len() implies (#[trigger] n.flights[k]).index
            < n.cursor && n.novel.pending.contains(n.flights[k].index) by {
            if k < last {
                assert(n.flights[k] == m.flights[k]);
            }
        }
        assert forall|k: int| 0 <= k < n.failed.len() implies (#[trigger] n.failed[k]) < n.cursor
            && n.novel.pending.contains(n.failed[k]) && !in_flight(n.flights, n.failed[k]) by {
            assert(m.failed[k] < m.cursor);
            assert(!in_flight(m.flights, m.failed[k]));
            if in_flight(n.flights, n.failed[k]) {
                let b = choose|b: int| 0 <= b < n.flights.len() && n.flights[b].index == n.failed[k];
                if b < last {
                    assert(n.flights[b] == m.flights[b]);
                }
            }
        }
        assert forall|i: usize| i < n.cursor && #[trigger] n.novel.pending.contains(i) implies in_flight(
            n.flights,
            i,
        ) || n.failed.contains(i) by {
            if i < m.cursor {
                if in_flight(m.flights, i) {
                    let b = choose|b: int| 0 <= b < m.flights.len() && m.flights[b].index == i;
                    assert(n.flights[b] == m.flights[b]);
                }
            } else {
                assert(i == j);
                assert(n.flights[last].index == i);
            }
        }
    }
}

/// Every step that `next` takes keeps the invariant and leaves the volume
/// as it is.
pub proof fn lemma_next_wf(m: Batch, cancel: bool)
    requires
        m.wf(),
    ensures
        m.next(cancel).0.wf(),
        m.next(cancel).0.novel == m.novel,
        m.next(cancel).0.max_concurrent == m.max_concurrent,
{
    match m.phase {
        Phase::Start => {
            if m.novel.chapters.len() > 0 && m.novel.pending.len() > 0 {
                lemma_begun(m);
                lemma_run_wf(m.begun(), cancel);
            }
        },
        Phase::Running => {
            lemma_run_wf(m, cancel);
        },
        _ => {},
    }
}

/// Reporting a success keeps the invariant. The chapters that were complete
/// stay complete and keep their contents, and the fetched chapter moves from
/// the pending ones to the fetched ones.
pub proof fn lemma_on_fetched_wf(m: Batch, index: usize, context: Seq<Seq<char>>, image: Seq<Seq<char>>)
    requires
        m.wf(),
    ensures
        m.on_fetched(index, context, image).wf(),
        m.on_fetched(index, context, image).novel.chapters.len() == m.novel.chapters.len(),
        m.novel.completed().subset_of(m.on_fetched(index, context, image).novel.completed()),
        forall|i: int|
            m.novel.is_completed(i) ==> m.on_fetched(index, context, image).novel.chapters[i]
                == m.novel.chapters[i],
        m.on_fetched(index, context, image).accounted() == m.accounted(),
        m.expects(index) && !m.cancelled ==> m.on_fetched(index, context, image).novel.is_completed(
            index as int,
        ),
{
    let n = m.on_fetched(index, context, image);
    if m.expects(index) {
        lemma_released(m, index);
        let k = flight_at(m.flights, index);
        if !m.cancelled {
            let p = m.novel.pending.index_of(index);
            assert(0 <= p < m.novel.pending.len() && m.novel.pending[p] == index);
            lemma_index_of_unique(m.novel.pending, index, p);
            assert forall|a: int| 0 <= a < n.novel.pending.len() implies n.novel.pending[a]
                < n.novel.chapters.len() by {
                assert(n.novel.pending.contains(n.novel.pending[a]));
                assert(m.novel.pending.contains(n.novel.pending[a]));
                let b = choose|b: int|
                    0 <= b < m.novel.pending.len() && m.novel.pending[b] == n.novel.pending[a];
            }
            assert forall|a: int| 0 <= a < n.flights.len() implies (#[trigger] n.flights[a]).index
                < n.cursor && n.novel.pending.contains(n.flights[a].index) by {
                assert(m.released(index).flights[a].index != index);
            }
            assert forall|a: int| 0 <= a < n.failed.len() implies (#[trigger] n.failed[a])
                < n.cursor && n.novel.pending.contains(n.failed[a]) && !in_flight(
                n.flights,
                n.failed[a],
            ) by {
                assert(m.failed[a] < m.cursor);
                assert(!in_flight(m.flights, m.failed[a]));
                assert(m.failed.contains(m.failed[a]));
            }
            let last = m.succeeded.len() as int;
            assert forall|a: int, b: int|
                0 <= a < n.succeeded.len() && 0 <= b < n.succeeded.len() && a != b implies n.succeeded[a]
                != n.succeeded[b] by {
                if a < last {
                    assert(m.succeeded.contains(m.succeeded[a]));
                }
                if b < last {
                    assert(m.succeeded.contains(m.succeeded[b]));
                }
            }
            assert forall|a: int| 0 <= a < n.succeeded.len() implies (#[trigger] n.succeeded[a])
                < n.novel.chapters.len() && !n.novel.pending.contains(n.succeeded[a]) by {
                if a < last {
                    assert(!m.novel.pending.contains(m.succeeded[a]));
                }
            }
            assert forall|i: usize| i < n.cursor && #[trigger] n.novel.pending.contains(i) implies in_flight(
                n.flights,
                i,
            ) || n.failed.contains(i) by {
                assert(m.novel.pending.contains(i));
            }
            assert forall|i: int| m.novel.is_completed(i) implies n.novel.is_completed(i)
                && n.novel.chapters[i] == m.novel.chapters[i] by {
                assert(i != index);
            }
            assert(n.accounted() =~= m.accounted()) by {
                assert forall|i: usize| n.accounted().contains(i) <==> m.accounted().contains(i) by {
                    if i == index {
                        assert(n.succeeded[last] == index);
                    } else {
                        if m.succeeded.contains(i) {
                            let a = choose|a: int| 0 <= a < m.succeeded.len() && m.succeeded[a] == i;
                            assert(n.succeeded[a] == i);
                        }
                        if n.succeeded.contains(i) {
                            let a = choose|a: int| 0 <= a < n.succeeded.len() && n.succeeded[a] == i;
                            assert(m.succeeded[a] == i);
                        }
                    }
                }
            }
        } else {
            assert forall|a: int| 0 <= a < n.failed.len() implies (#[trigger] n.failed[a])
                < n.cursor && n.novel.pending.contains(n.failed[a]) && !in_flight(
                n.flights,
                n.failed[a],
            ) by {
                assert(!in_flight(m.flights, m.failed[a]));
                assert(m.failed.contains(m.failed[a]));
            }
        }
    }
}

/// Reporting a failure keeps the invariant and leaves the volume as it is.
pub proof fn lemma_on_failed_wf(m: Batch, index: usize)
    requires
        m.wf(),
    ensures
        m.on_failed(index).wf(),
        m.on_failed(index).novel == m.novel,
        m.on_failed(index).succeeded == m.succeeded,
{
    let n = m.on_failed(index);
    if m.expects(index) {
        lemma_released(m, index);
        if !m.cancelled {
            let last = m.failed.len() as int;
            assert forall|a: int, b: int|
                0 <= a < n.failed.len() && 0 <= b < n.failed.len() && a != b implies n.failed[a]
                != n.failed[b] by {
                if a < last {
                    assert(m.failed.contains(m.failed[a]));
                }
                if b < last {
                    assert(m.failed.contains(m.failed[b]));
                }
            }
            assert forall|a: int| 0 <= a < n.failed.len() implies (#[trigger] n.failed[a])
                < n.cursor && n.novel.pending.contains(n.failed[a]) && !in_flight(
                n.flights,
                n.failed[a],
            ) by {
                if a < last {
                    assert(m.failed[a] < m.cursor);
                    assert(!in_flight(m.flights, m.failed[a]));
                    assert(m.failed.contains(m.failed[a]));
                }
            }
            assert forall|i: usize| i < n.cursor && #[trigger] n.novel.pending.contains(i) implies in_flight(
                n.flights,
                i,
            ) || n.failed.contains(i) by {
                if i == index {
                    assert(n.failed[last] == index);
                } else if m.failed.contains(i) {
                    let a = choose|a: int| 0 <= a < m.failed.len() && m.failed[a] == i;
                    assert(n.failed[a] == i);
                }
            }
        } else {
            assert forall|a: int| 0 <= a < n.failed.len() implies (#[trigger] n.failed[a])
                < n.cursor && n.novel.pending.contains(n.failed[a]) && !in_flight(
                n.flights,
                n.failed[a],
            ) by {
                assert(!in_flight(m.flights, m.failed[a]));
                assert(m.failed.contains(m.failed[a]));
            }
        }
    }
}

/// Reporting the catalog keeps the invariant. No chapter was complete
/// before, so none is lost.
pub proof fn lemma_on_catalog_wf(m: Batch, page: CatalogView)
    requires
        m.wf(),
        page.chapters.len() <= usize::MAX,
    ensures
        m.on_catalog(page).wf(),
        m.novel.completed().subset_of(m.on_catalog(page).novel.completed()),
        m.phase is AwaitingCatalog ==> m.novel.completed() =~= Set::empty(),
        m.phase is AwaitingCatalog && page.chapters.len() == 0 ==> m.on_catalog(page).novel
            == m.novel,
{
}

/// Reporting that the catalog could not be had keeps the invariant and
/// leaves the volume as it is.
pub proof fn lemma_on_catalog_failed_wf(m: Batch)
    requires
        m.wf(),
    ensures
        m.on_catalog_failed().wf(),
        m.on_catalog_failed().novel == m.novel,
{
}

/// What the caller reports to the scheduler, as a value.
pub enum Report {
    /// A call of `next_action` with the cancellation flag as read.
    Step { cancel: bool },
    Catalog(CatalogView),
    CatalogFailed,
    Fetched { index: usize, context: Seq<Seq<char>>, image: Seq<Seq<char>> },
    Failed { index: usize },
}

impl Report {
    /// A catalog lists no more chapters than a machine can index.
    pub open spec fn admissible(self) -> bool {
        match self {
            Report::Catalog(page) => page.chapters.len() <= usize::MAX,
            _ => true,
        }
    }
}

impl Batch {
    /// The state after one report.
    pub open spec fn after(self, report: Report) -> Batch {
        match report {
            Report::Step { cancel } => self.next(cancel).0,
            Report::Catalog(page) => self.on_catalog(page),
            Report::CatalogFailed => self.on_catalog_failed(),
            Report::Fetched { index, context, image } => self.on_fetched(index, context, image),
            Report::Failed { index } => self.on_failed(index),
        }
    }

    /// The state after a sequence of reports.
    pub open spec fn after_all(self, reports: Seq<Report>) -> Batch
        decreases reports.len(),
    {
        if reports.len() == 0 {
            self
        } else {
            self.after_all(reports.drop_last()).after(reports.last())
        }
    }
}

/// Whether every report of a sequence is admissible.
pub open spec fn admissible(reports: Seq<Report>) -> bool {
    forall|k: int| 0 <= k < reports.len() ==> (#[trigger] reports[k]).admissible()
}

/// One report keeps the invariant. It never takes a chapter out of the
/// complete ones, nor changes one of them, nor changes how many chapters
/// there are once there are some.
pub proof fn lemma_after_wf(m: Batch, report: Report)
    requires
        m.wf(),
        report.admissible(),
    ensures
        m.after(report).wf(),
        m.after(report).max_concurrent == m.max_concurrent,
        m.novel.completed().subset_of(m.after(report).novel.completed()),
        forall|i: int|
            m.novel.is_completed(i) ==> m.after(report).novel.chapters[i] == m.novel.chapters[i],
        m.novel.chapters.len() > 0 ==> m.after(report).novel.chapters.len()
            == m.novel.chapters.len() && m.after(report).accounted() == m.accounted(),
        m.novel.chapters.len() > 0 ==> forall|i: int|
            0 <= i < m.novel.chapters.len() ==> (#[trigger] m.after(report).novel.chapters[i]).url
                == m.novel.chapters[i].url && m.after(report).novel.chapters[i].title
                == m.novel.chapters[i].title,
{
    match report {
        Report::Step { cancel } => {
            lemma_next_wf(m, cancel);
            if m.phase is Start && m.novel.chapters.len() > 0 && m.novel.pending.len() > 0 {
                lemma_begun(m);
                lemma_run_wf(m.begun(), cancel);
            } else if m.phase is Running {
                lemma_run_wf(m, cancel);
            }
        },
        Report::Catalog(page) => {
            lemma_on_catalog_wf(m, page);
        },
        Report::CatalogFailed => {
            lemma_on_catalog_failed_wf(m);
        },
        Report::Fetched { index, context, image } => {
            lemma_on_fetched_wf(m, index, context, image);
        },
        Report::Failed { index } => {
            lemma_on_failed_wf(m, index);
        },
    }
}

/// Any sequence of reports keeps the invariant, with what `lemma_after_wf`
/// says of one report.
pub proof fn lemma_after_all_wf(m: Batch, reports: Seq<Report>)
    requires
        m.wf(),
        admissible(reports),
    ensures
        m.after_all(reports).wf(),
        m.after_all(reports).max_concurrent == m.max_concurrent,
        m.novel.completed().subset_of(m.after_all(reports).novel.completed()),
        forall|i: int|
            m.novel.is_completed(i) ==> m.after_all(reports).novel.chapters[i]
                == m.novel.chapters[i],
        m.novel.chapters.len() > 0 ==> m.after_all(reports).novel.chapters.len()
            == m.novel.chapters.len() && m.after_all(reports).accounted() == m.accounted(),
        m.novel.chapters.len() > 0 ==> forall|i: int|
            0 <= i < m.novel.chapters.len() ==> (#[trigger] m.after_all(
                reports,
            ).novel.chapters[i]).url == m.novel.chapters[i].url && m.after_all(
                reports,
            ).novel.chapters[i].title == m.novel.chapters[i].title,
    decreases reports.len(),
{
    if reports.len() > 0 {
        let before = m.after_all(reports.drop_last());
        assert(admissible(reports.drop_last())) by {
            assert forall|k: int| 0 <= k < reports.drop_last().len() implies (
            #[trigger] reports.drop_last()[k]).admissible() by {
                assert(reports.drop_last()[k] == reports[k]);
            }
        }
        lemma_after_all_wf(m, reports.drop_last());
        lemma_after_wf(before, reports.last());
        assert forall|i: int| m.novel.is_completed(i) implies m.after_all(reports).novel.chapters[i]
            == m.novel.chapters[i] by {
            assert(before.novel.completed().contains(i));
            assert(before.novel.is_completed(i));
        }
        assert forall|i: int| m.novel.completed().contains(i) implies m.after_all(
            reports,
        ).novel.completed().contains(i) by {
            assert(before.novel.completed().contains(i));
        }
        if m.novel.chapters.len() > 0 {
            assert forall|i: int| 0 <= i < m.novel.chapters.len() implies (#[trigger] m.after_all(
                reports,
            ).novel.chapters[i]).url == m.novel.chapters[i].url && m.after_all(
                reports,
            ).novel.chapters[i].title == m.novel.chapters[i].title by {
                assert(before.novel.chapters[i].url == m.novel.chapters[i].url);
            }
        }
    }
}

/// Concurrency bound: whatever is reported in whatever order, the fetches
/// that run at one time are never more than the configured bound, and no two
/// of them hold the same scratch resource.
pub proof fn lemma_concurrency_bound(
    novel: NovelView,
    max_concurrent: usize,
    save_interval: usize,
    reports: Seq<Report>,
)
    requires
        novel.well_formed(),
        novel.chapters.len() <= usize::MAX,
        max_concurrent >= 1,
        save_interval >= 1,
        admissible(reports),
    ensures
        ({
            let m = Batch::initial(novel, max_concurrent, save_interval).after_all(reports);
            &&& m.flights.len() <= max_concurrent
            &&& forall|a: int, b: int|
                0 <= a < b < m.flights.len() ==> m.flights[a].slot != m.flights[b].slot
                    && m.flights[a].index != m.flights[b].index
        }),
{
    let m0 = Batch::initial(novel, max_concurrent, save_interval);
    lemma_initial_wf(novel, max_concurrent, save_interval);
    lemma_after_all_wf(m0, reports);
    let m = m0.after_all(reports);
    if m.flights.len() > 0 {
        assert(m.batch_wf());
        assert forall|a: int, b: int| 0 <= a < b < m.flights.len() implies m.flights[a].slot
            != m.flights[b].slot && m.flights[a].index != m.flights[b].index by {
            let fl = m.free.len() as int;
            assert(m.slots()[fl + a] == held_slots(m.flights)[a]);
            assert(m.slots()[fl + b] == held_slots(m.flights)[b]);
        }
    }
}

/// No index disappears silently: in a run on a volume that has chapters,
/// every chapter that was pending at the start is at every later moment
/// either still pending or fetched by this run; and once the run has ended
/// without cancellation, the chapters still pending are exactly those whose
/// fetch failed.
pub proof fn lemma_every_index_accounted_for(m: Batch, reports: Seq<Report>)
    requires
        m.wf(),
        m.phase is Start,
        m.novel.chapters.len() > 0,
        admissible(reports),
    ensures
        ({
            let end = m.after_all(reports);
            &&& end.novel.pending.to_set() + end.succeeded.to_set() == m.novel.pending.to_set()
            &&& forall|i: usize| end.succeeded.contains(i) ==> !end.novel.pending.contains(i)
            &&& (end.phase == Phase::Finished(Outcome::Completed) || end.phase == Phase::Closing(
                Outcome::Completed,
            )) ==> forall|i: usize| end.novel.pending.contains(i) <==> end.failed.contains(i)
        }),
{
    let end = m.after_all(reports);
    lemma_after_all_wf(m, reports);
    assert(m.succeeded.to_set() =~= Set::<usize>::empty());
    assert(m.accounted() =~= m.novel.pending.to_set());
    assert forall|i: usize| end.succeeded.contains(i) implies !end.novel.pending.contains(i) by {
        let a = choose|a: int| 0 <= a < end.succeeded.len() && end.succeeded[a] == i;
        assert(end.succeeded.len() > 0);
        assert(!end.novel.pending.contains(end.succeeded[a]));
    }
    if end.phase == Phase::Finished(Outcome::Completed) || end.phase == Phase::Closing(
        Outcome::Completed,
    ) {
        assert forall|i: usize| end.novel.pending.contains(i) <==> end.failed.contains(i) by {
            if end.failed.contains(i) {
                let a = choose|a: int| 0 <= a < end.failed.len() && end.failed[a] == i;
                assert(end.novel.pending.contains(end.failed[a]));
            }
        }
    }
}

/// Idempotence: on a volume that has chapters of which none is pending, the
/// scheduler asks for nothing but to stop, however often it is asked, and
/// leaves the volume and the progress monitor as they were.
pub proof fn lemma_nothing_pending_nothing_done(m: Batch, first: bool, second: bool)
    requires
        m.wf(),
        m.phase is Start,
        m.novel.chapters.len() > 0,
        m.novel.pending.len() == 0,
    ensures
        m.next(first).1 == Action::Finish(Outcome::NothingToDo),
        m.next(first).0 == (Batch { phase: Phase::Finished(Outcome::NothingToDo), ..m }),
        m.next(first).0.next(second) == (m.next(first).0, Action::Finish(Outcome::NothingToDo)),
{
}

/// Checkpoint safety: if the volume of any state of a run is written out,
/// and a new run is started from what was written, then at every later
/// moment of the new run the chapters that were complete when the volume was
/// written are still complete, with the contents they had.
pub proof fn lemma_checkpoint_safety(
    m: Batch,
    max_concurrent: usize,
    save_interval: usize,
    reports: Seq<Report>,
)
    requires
        m.wf(),
        max_concurrent >= 1,
        save_interval >= 1,
        admissible(reports),
    ensures
        ({
            let resumed = Batch::initial(m.novel, max_concurrent, save_interval);
            let later = resumed.after_all(reports);
            &&& resumed.novel == m.novel
            &&& m.novel.completed().subset_of(later.novel.completed())
            &&& forall|i: int|
                m.novel.is_completed(i) ==> later.novel.chapters[i] == m.novel.chapters[i]
        }),
{
    lemma_initial_wf(m.novel, max_concurrent, save_interval);
    lemma_after_all_wf(Batch::initial(m.novel, max_concurrent, save_interval), reports);
}

/// What the monitor counts. In a run on a volume that has chapters, the
/// monitor is as it was until the fetching begins, and stays so where nothing
/// is pending. From then on its completed-count is the count it began with
/// and the chapters that this run has fetched, and its error-count is the
/// count it began with and the fetches of this run that failed: a failed fetch
/// is never counted as completed. (The counts are stated as far as they fit
/// the machine's word.)
pub proof fn lemma_progress_counts(m: Batch, reports: Seq<Report>)
    requires
        m.wf(),
        m.phase is Start,
        m.novel.chapters.len() > 0,
        admissible(reports),
    ensures
        ({
            let end = m.after_all(reports);
            if end.phase is Start || end.phase == Phase::Finished(Outcome::NothingToDo) {
                end.progress == m.progress && end.succeeded.len() == 0 && end.failed.len() == 0
            } else {
                &&& end.base_completed == m.progress.completed
                &&& end.base_errors == m.progress.errors
                &&& end.batch_wf()
                &&& m.progress.completed + end.succeeded.len() <= usize::MAX
                    ==> end.progress.completed == m.progress.completed + end.succeeded.len()
                &&& m.progress.errors + end.failed.len() <= usize::MAX ==> end.progress.errors
                    == m.progress.errors + end.failed.len()
            }
        }),
    decreases reports.len(),
{
    if reports.len() > 0 {
        let front = reports.drop_last();
        assert(admissible(front)) by {
            assert forall|k: int| 0 <= k < front.len() implies (#[trigger] front[k]).admissible() by {
                assert(front[k] == reports[k]);
            }
        }
        lemma_progress_counts(m, front);
        lemma_after_all_wf(m, front);
        let before = m.after_all(front);
        let end = before.after(reports.last());
        lemma_after_wf(before, reports.last());
        match reports.last() {
            Report::Step { cancel } => {
                lemma_next_wf(before, cancel);
                if before.phase is Start && before.novel.pending.len() > 0 {
                    lemma_begun(before);
                    lemma_run_wf(before.begun(), cancel);
                } else if before.phase is Running {
                    lemma_run_wf(before, cancel);
                }
            },
            Report::Fetched { index, context, image } => {
                lemma_on_fetched_wf(before, index, context, image);
            },
            Report::Failed { index } => {
                lemma_on_failed_wf(before, index);
            },
            _ => {},
        }
    }
}

/// The scenario of a volume that is repaired: where a run on a volume that
/// has chapters ends with no chapter pending, every chapter of the volume is
/// complete, so the volume's count of completed chapters is the number of its
/// chapters; and a monitor that was carried into the run has counted, as
/// completed, what it had counted before and the chapters that the run
/// fetched.
pub proof fn lemma_repaired_volume_is_complete(m: Batch, reports: Seq<Report>)
    requires
        m.wf(),
        m.phase is Start,
        m.novel.chapters.len() > 0,
        admissible(reports),
        m.after_all(reports).novel.pending.len() == 0,
    ensures
        ({
            let end = m.after_all(reports);
            &&& end.novel.chapters.len() == m.novel.chapters.len()
            &&& forall|i: int| 0 <= i < end.novel.chapters.len() ==> end.novel.is_completed(i)
            &&& end.succeeded.to_set() == m.novel.pending.to_set()
            &&& end.succeeded.len() == m.novel.pending.len()
        }),
{
    let end = m.after_all(reports);
    lemma_after_all_wf(m, reports);
    lemma_every_index_accounted_for(m, reports);
    assert(end.novel.pending.to_set() =~= Set::<usize>::empty());
    assert(end.succeeded.to_set() =~= m.novel.pending.to_set());
    if end.succeeded.len() > 0 {
        end.succeeded.unique_seq_to_set();
    } else {
        assert(end.succeeded.to_set() =~= Set::<usize>::empty());
    }
    m.novel.pending.unique_seq_to_set();
    if end.succeeded.len() == 0 {
        assert(m.novel.pending.to_set().len() == 0);
    }
}

/// Once the cancellation flag has been seen, the volume stays as it is:
/// whatever is reported afterwards, no chapter is written back and none
/// leaves the pending ones. The checkpoint that is written at the end of a
/// cancelled run therefore holds exactly the chapters that were fetched
/// before the flag was seen.
pub proof fn lemma_cancelled_volume_stays(m: Batch, reports: Seq<Report>)
    requires
        m.wf(),
        m.cancelled,
        admissible(reports),
    ensures
        m.after_all(reports).novel == m.novel,
        m.after_all(reports).succeeded == m.succeeded,
        m.after_all(reports).cancelled,
        m.after_all(reports).wf(),
    decreases reports.len(),
{
    if reports.len() > 0 {
        let front = reports.drop_last();
        assert(admissible(front)) by {
            assert forall|k: int| 0 <= k < front.len() implies (#[trigger] front[k]).admissible() by {
                assert(front[k] == reports[k]);
            }
        }
        lemma_cancelled_volume_stays(m, front);
        let before = m.after_all(front);
        lemma_after_wf(before, reports.last());
        match reports.last() {
            Report::Step { cancel } => {
                lemma_next_wf(before, cancel);
                if before.phase is Running {
                    lemma_run_wf(before, cancel);
                }
            },
            Report::Failed { index } => {
                lemma_on_failed_wf(before, index);
            },
            _ => {},
        }
    }
}

/// A checkpoint is due after every `save_interval` successes, and a
/// checkpoint that is due is what the next step asks for.
pub proof fn lemma_checkpoint_cadence(
    m: Batch,
    index: usize,
    context: Seq<Seq<char>>,
    image: Seq<Seq<char>>,
    cancel: bool,
)
    requires
        m.wf(),
    ensures
        m.expects(index) && !m.cancelled && (m.succeeded.len() as int + 1) % (
        m.save_interval as int) == 0 ==> m.on_fetched(index, context, image).checkpoint_due,
        m.phase is Running && m.checkpoint_due ==> m.next(cancel).1 == Action::Checkpoint
            && !m.next(cancel).0.checkpoint_due,
{
    if m.expects(index) && !m.cancelled {
        lemma_on_fetched_wf(m, index, context, image);
        lemma_released(m, index);
        assert(m.succeeded.len() < usize::MAX) by {
            let n = m.on_fetched(index, context, image);
            lemma_succeeded_bounded(n);
        }
    }
}

/// The chapters that a run has fetched are no more than there are chapters.
proof fn lemma_succeeded_bounded(m: Batch)
    requires
        m.wf(),
    ensures
        m.succeeded.len() <= m.novel.chapters.len(),
{
    if m.succeeded.len() > 0 {
        let n = m.novel.chapters.len() as int;
        let s = m.succeeded;
        let below = Set::new(|i: int| 0 <= i < n);
        vstd::set_lib::lemma_int_range(0, n);
        let ints = s.map_values(|x: usize| x as int);
        assert(ints.no_duplicates()) by {
            assert forall|a: int, b: int| 0 <= a < ints.len() && 0 <= b < ints.len() && a != b implies ints[a]
                != ints[b] by {
                assert(s[a] != s[b]);
            }
        }
        ints.unique_seq_to_set();
        assert(ints.to_set().subset_of(vstd::set_lib::set_int_range(0, n))) by {
            assert forall|x: int| ints.to_set().contains(x) implies vstd::set_lib::set_int_range(
                0,
                n,
            ).contains(x) by {
                let a = choose|a: int| 0 <= a < ints.len() && ints[a] == x;
                assert(s[a] < m.novel.chapters.len());
            }
        }
        vstd::set_lib::lemma_len_subset(ints.to_set(), vstd::set_lib::set_int_range(0, n));
    }
}

/// A run ends with a checkpoint: the step that ends the fetching asks for
/// one, the volume does not change after it, and only then is the end of the
/// run announced.
pub proof fn lemma_ends_with_checkpoint(m: Batch, cancel: bool, reports: Seq<Report>)
    requires
        m.wf(),
        admissible(reports),
    ensures
        m.phase is Running && m.next(cancel).0.phase is Closing ==> m.next(cancel).1
            == Action::Checkpoint,
        (m.next(cancel).1 == Action::Finish(Outcome::Completed) || m.next(cancel).1
            == Action::Finish(Outcome::Cancelled)) ==> m.phase is Closing || m.phase is Finished,
        m.phase is Closing || m.phase is Finished ==> m.after_all(reports).novel == m.novel && (
        m.after_all(reports).phase is Closing || m.after_all(reports).phase is Finished),
    decreases reports.len(),
{
    if reports.len() > 0 && (m.phase is Closing || m.phase is Finished) {
        let front = reports.drop_last();
        assert(admissible(front)) by {
            assert forall|k: int| 0 <= k < front.len() implies (#[trigger] front[k]).admissible() by {
                assert(front[k] == reports[k]);
            }
        }
        lemma_ends_with_checkpoint(m, cancel, front);
        lemma_after_all_wf(m, front);
    }
    if m.phase is Start && m.novel.chapters.len() > 0 && m.novel.pending.len() > 0 {
        lemma_begun(m);
        lemma_first_pending(m.novel.pending, 0, m.novel.chapters.len() as usize);
        assert(m.novel.pending.contains(m.novel.pending[0]));
    }
}

fn find_index(v: &Vec<usize>, x: usize) -> (r: Option<usize>)
    ensures
        match r {
            Some(k) => k < v@.len() && v@[k as int] == x,
            None => !v@.contains(x),
        },
{
    let mut i: usize = 0;
    while i < v.len()
        invariant
            i <= v@.len(),
            forall|k: int| 0 <= k < i ==> v@[k] != x,
        decreases v@.len() - i,
    {
        if v[i] == x {
            return Some(i);
        }
        i += 1;
    }
    None
}

fn find_flight(v: &Vec<Flight>, index: usize) -> (r: Option<usize>)
    ensures
        match r {
            Some(k) => k < v@.len() && v@[k as int].index == index,
            None => !in_flight(v@, index),
        },
{
    let mut i: usize = 0;
    while i < v.len()
        invariant
            i <= v@.len(),
            forall|k: int| 0 <= k < i ==> v@[k].index != index,
        decreases v@.len() - i,
    {
        if v[i].index == index {
            return Some(i);
        }
        i += 1;
    }
    None
}

fn indices_below(n: usize) -> (r: Vec<usize>)
    ensures
        r@ == all_indices(n as nat),
{
    let mut out: Vec<usize> = Vec::new();
    let mut i: usize = 0;
    while i < n
        invariant
            i <= n,
            out@ == all_indices(i as nat),
        decreases n - i,
    {
        out.push(i);
        assert(out@ =~= all_indices((i + 1) as nat));
        i += 1;
    }
    out
}

/// The scheduler of one volume's chapter fetches. It owns the volume while
/// the run lasts.
#[derive(Debug)]
pub struct Orchestrator {
    novel: Novel,
    phase: Phase,
    max_concurrent: usize,
    save_interval: usize,
    limit: usize,
    cursor: usize,
    free: Vec<usize>,
    flights: Vec<Flight>,
    failed: Vec<usize>,
    succeeded: Vec<usize>,
    checkpoint_due: bool,
    cancelled: bool,
    progress: ProgressMonitor,
    base_completed: usize,
    base_errors: usize,
}

impl View for Orchestrator {
    type V = Batch;

    closed spec fn view(&self) -> Batch {
        Batch {
            novel: self.novel@,
            phase: self.phase,
            max_concurrent: self.max_concurrent,
            save_interval: self.save_interval,
            limit: self.limit,
            cursor: self.cursor,
            free: self.free@,
            flights: self.flights@,
            failed: self.failed@,
            succeeded: self.succeeded@,
            checkpoint_due: self.checkpoint_due,
            cancelled: self.cancelled,
            progress: self.progress@,
            base_completed: self.base_completed,
            base_errors: self.base_errors,
        }
    }
}

impl Orchestrator {
    /// A scheduler for `novel` that lets at most `max_concurrent` fetches
    /// run at a time and asks for a checkpoint after every `save_interval`
    /// successes. There is none for a volume whose pending indices are not
    /// well formed, nor for a bound or an interval of zero.
    pub fn new(novel: Novel, max_concurrent: usize, save_interval: usize) -> (r: Option<Self>)
        ensures
            r is Some <==> novel@.well_formed() && max_concurrent >= 1 && save_interval >= 1,
            r matches Some(o) ==> o@ == Batch::initial(novel@, max_concurrent, save_interval)
                && o@.wf(),
    {
        if max_concurrent < 1 || save_interval < 1 || !novel.is_well_formed() {
            return None;
        }
        let total = novel.pending_chapter_indices.len();
        let progress = ProgressMonitor::new(total, novel.name.as_str());
        let chapters = novel.chapters.len();
        proof {
            assert(novel@.chapters.len() == chapters);
            lemma_initial_wf(novel@, max_concurrent, save_interval);
        }
        Some(
            Orchestrator {
                novel,
                phase: Phase::Start,
                max_concurrent,
                save_interval,
                limit: 0,
                cursor: 0,
                free: Vec::new(),
                flights: Vec::new(),
                failed: Vec::new(),
                succeeded: Vec::new(),
                checkpoint_due: false,
                cancelled: false,
                progress,
                base_completed: 0,
                base_errors: 0,
            },
        )
    }

    /// A scheduler as `new` makes it, that goes on with the monitor of an
    /// earlier run on the volume: what that run has counted stays counted.
    pub fn continued(
        novel: Novel,
        max_concurrent: usize,
        save_interval: usize,
        progress: ProgressMonitor,
    ) -> (r: Option<Self>)
        ensures
            r is Some <==> novel@.well_formed() && max_concurrent >= 1 && save_interval >= 1,
            r matches Some(o) ==> o@ == Batch::continued(
                novel@,
                max_concurrent,
                save_interval,
                progress@,
            ) && o@.wf(),
    {
        match Orchestrator::new(novel, max_concurrent, save_interval) {
            Some(fresh) => {
                let mut o = fresh;
                o.progress = progress;
                Some(o)
            },
            None => None,
        }
    }

    fn begin(&mut self)
        requires
            old(self)@.wf(),
            old(self)@.phase is Start,
            old(self)@.novel.chapters.len() > 0,
        ensures
            final(self)@ == old(self)@.begun(),
    {
        let len = self.novel.chapters.len();
        let limit = if len < self.max_concurrent {
            len
        } else {
            self.max_concurrent
        };
        self.base_completed = self.progress.completed;
        self.base_errors = self.progress.errors;
        self.progress.next_run(self.novel.pending_chapter_indices.len());
        self.limit = limit;
        self.cursor = 0;
        self.free = indices_below(limit);
        self.phase = Phase::Running;
    }

    fn next_pending(&self) -> (j: usize)
        requires
            self@.cursor <= self@.novel.chapters.len() <= usize::MAX,
        ensures
            j == first_pending_from(
                self@.novel.pending,
                self@.cursor,
                self@.novel.chapters.len() as usize,
            ),
    {
        let len = self.novel.chapters.len();
        let mut i = self.cursor;
        while i < len
            invariant
                self.cursor <= i <= len,
                len == self@.novel.chapters.len(),
                first_pending_from(self@.novel.pending, self@.cursor, len) == first_pending_from(
                    self@.novel.pending,
                    i,
                    len,
                ),
            decreases len - i,
        {
            if find_index(&self.novel.pending_chapter_indices, i).is_some() {
                return i;
            }
            i += 1;
        }
        i
    }

    fn close(&mut self, outcome: Outcome) -> (r: Action)
        ensures
            final(self)@ == old(self)@.close(outcome).0,
            r == old(self)@.close(outcome).1,
    {
        self.phase = Phase::Closing(outcome);
        self.checkpoint_due = false;
        self.progress.finish();
        Action::Checkpoint
    }

    fn run(&mut self, cancel: bool) -> (r: Action)
        requires
            old(self)@.wf(),
            old(self)@.phase is Running,
        ensures
            final(self)@ == old(self)@.run(cancel).0,
            r == old(self)@.run(cancel).1,
    {
        let len = self.novel.chapters.len();
        let idle = self.flights.len() == 0;
        if idle && self.cancelled {
            return self.close(Outcome::Cancelled);
        }
        let j = self.next_pending();
        proof {
            lemma_first_pending(self@.novel.pending, self@.cursor, len);
        }
        if idle && j >= len {
            return self.close(Outcome::Completed);
        }
        if self.checkpoint_due {
            self.checkpoint_due = false;
            return Action::Checkpoint;
        }
        if self.cancelled || j >= len || self.free.len() == 0 {
            return Action::Wait;
        }
        if cancel {
            self.cancelled = true;
            if idle {
                return self.close(Outcome::Cancelled);
            }
            return Action::Wait;
        }
        let slot = self.free.remove(0);
        assert(self.free@ =~= old(self).free@.drop_first());
        self.flights.push(Flight { index: j, slot });
        self.cursor = j + 1;
        Action::Fetch { index: j, slot, stagger: j % self.limit }
    }

    /// Takes the next step and says what the caller is to do.
    /// `cancel_requested` is the cancellation flag as the caller reads it
    /// now; the scheduler looks at it only when it could admit a chapter.
    pub fn next_action(&mut self, cancel_requested: bool) -> (r: Action)
        requires
            old(self)@.wf(),
        ensures
            final(self)@ == old(self)@.next(cancel_requested).0,
            r == old(self)@.next(cancel_requested).1,
            final(self)@.wf(),
    {
        proof {
            lemma_next_wf(self@, cancel_requested);
        }
        match self.phase {
            Phase::Start => {
                if self.novel.chapters.len() == 0 {
                    self.phase = Phase::AwaitingCatalog;
                    Action::FetchCatalog
                } else if self.novel.pending_chapter_indices.len() == 0 {
                    self.phase = Phase::Finished(Outcome::NothingToDo);
                    Action::Finish(Outcome::NothingToDo)
                } else {
                    proof {
                        lemma_begun(self@);
                    }
                    self.begin();
                    self.run(cancel_requested)
                }
            },
            Phase::AwaitingCatalog => Action::Wait,
            Phase::Running => self.run(cancel_requested),
            Phase::Closing(o) => {
                self.phase = Phase::Finished(o);
                Action::Finish(o)
            },
            Phase::Finished(o) => Action::Finish(o),
        }
    }

    fn release(&mut self, k: usize)
        requires
            old(self)@.wf(),
            old(self)@.phase is Running,
            k < old(self)@.flights.len(),
        ensures
            final(self)@ == old(self)@.released(old(self)@.flights[k as int].index),
    {
        let ghost index = self@.flights[k as int].index;
        proof {
            let c = flight_at(self@.flights, index);
            assert(0 <= c < self@.flights.len() && self@.flights[c].index == index);
            if c < k {
                assert(self@.flights[c].index != self@.flights[k as int].index);
            } else if k < c {
                assert(self@.flights[k as int].index != self@.flights[c].index);
            }
        }
        let flight = self.flights.remove(k);
        self.free.push(flight.slot);
    }

    /// Reports that the fetch of chapter `index` has succeeded, with the
    /// text blocks and asset addresses it found. The result says whether a
    /// fetch of that chapter was running; if none was, nothing changes. The
    /// chapter is written back and leaves the pending ones, unless the run has
    /// been cancelled: then the result is dropped.
    pub fn chapter_fetched(&mut self, index: usize, context: Vec<String>, image: Vec<String>) -> (r:
        bool)
        requires
            old(self)@.wf(),
        ensures
            r == old(self)@.expects(index),
            final(self)@ == old(self)@.on_fetched(index, texts(context@), texts(image@)),
            final(self)@.wf(),
    {
        proof {
            lemma_on_fetched_wf(self@, index, texts(context@), texts(image@));
        }
        match self.phase {
            Phase::Running => {},
            _ => {
                return false;
            },
        }
        let k = match find_flight(&self.flights, index) {
            Some(k) => k,
            None => {
                return false;
            },
        };
        proof {
            lemma_released(self@, index);
        }
        self.release(k);
        if self.cancelled {
            return true;
        }
        let p = match find_index(&self.novel.pending_chapter_indices, index) {
            Some(p) => p,
            None => {
                proof {
                    assert(false);
                }
                return true;
            },
        };
        proof {
            lemma_index_of_unique(old(self)@.novel.pending, index, p as int);
        }
        self.novel.pending_chapter_indices.remove(p);
        let fetched = Chapter {
            url: self.novel.chapters[index].url.clone(),
            title: self.novel.chapters[index].title.clone(),
            context,
            image,
        };
        self.novel.chapters.set(index, fetched);
        assert(chapter_views(self.novel.chapters@) =~= chapter_views(old(self).novel.chapters@).update(
            index as int,
            fetched@,
        ));
        self.succeeded.push(index);
        self.progress.increment();
        let done = self.succeeded.len();
        if done % self.save_interval == 0 {
            self.checkpoint_due = true;
        }
        true
    }

    /// Reports that the fetch of chapter `index` has failed. The result says
    /// whether a fetch of that chapter was running; if none was, nothing
    /// changes. The chapter stays pending and the error is recorded.
    pub fn chapter_failed(&mut self, index: usize) -> (r: bool)
        requires
            old(self)@.wf(),
        ensures
            r == old(self)@.expects(index),
            final(self)@ == old(self)@.on_failed(index),
            final(self)@.wf(),
    {
        proof {
            lemma_on_failed_wf(self@, index);
        }
        match self.phase {
            Phase::Running => {},
            _ => {
                return false;
            },
        }
        let k = match find_flight(&self.flights, index) {
            Some(k) => k,
            None => {
                return false;
            },
        };
        self.release(k);
        if self.cancelled {
            return true;
        }
        self.failed.push(index);
        self.progress.record_error();
        true
    }

    /// Reports the volume's own page. The result says whether the catalog
    /// was awaited; if it was not, nothing changes. A page that lists no
    /// chapter ends the run and leaves the volume as it was.
    pub fn catalog_fetched(&mut self, page: CatalogPage) -> (r: bool)
        requires
            old(self)@.wf(),
        ensures
            r == (old(self)@.phase is AwaitingCatalog),
            final(self)@ == old(self)@.on_catalog(page@),
            final(self)@.wf(),
    {
        let len = page.chapters.len();
        proof {
            assert(page@.chapters.len() == len);
            lemma_on_catalog_wf(self@, page@);
        }
        match self.phase {
            Phase::AwaitingCatalog => {},
            _ => {
                return false;
            },
        }
        if len == 0 {
            self.phase = Phase::Finished(Outcome::CatalogFailed);
            return true;
        }
        self.novel.author = page.author;
        self.novel.description = page.description;
        self.novel.tags = page.tags;
        self.novel.cover = page.cover;
        self.novel.chapters = page.chapters;
        self.novel.pending_chapter_indices = indices_below(len);
        self.phase = Phase::Start;
        true
    }

    /// Reports that the volume's own page could not be fetched. The result
    /// says whether the catalog was awaited; if it was not, nothing changes.
    pub fn catalog_failed(&mut self) -> (r: bool)
        requires
            old(self)@.wf(),
        ensures
            r == (old(self)@.phase is AwaitingCatalog),
            final(self)@ == old(self)@.on_catalog_failed(),
            final(self)@.wf(),
    {
        match self.phase {
            Phase::AwaitingCatalog => {
                self.phase = Phase::Finished(Outcome::CatalogFailed);
                true
            },
            _ => false,
        }
    }

    /// A copy of the volume as it stands: what a checkpoint holds.
    pub fn checkpoint(&self) -> (r: Novel)
        ensures
            r@ == self@.novel,
    {
        self.novel.clone()
    }

    /// The volume as it stands.
    pub fn novel(&self) -> (r: &Novel)
        ensures
            r@ == self@.novel,
    {
        &self.novel
    }

    /// Ends the scheduler and hands back the volume and the monitor, which
    /// the next run on the volume may go on with.
    pub fn into_parts(self) -> (r: (Novel, ProgressMonitor))
        ensures
            r.0@ == self@.novel,
            r.1@ == self@.progress,
    {
        (self.novel, self.progress)
    }

    /// Ends the scheduler and hands the volume back.
    pub fn into_novel(self) -> (r: Novel)
        ensures
            r@ == self@.novel,
    {
        self.novel
    }

    /// The progress monitor of this run.
    pub fn progress(&self) -> (r: &ProgressMonitor)
        ensures
            r@ == self@.progress,
    {
        &self.progress
    }

    /// Where the run stands.
    pub fn phase(&self) -> (r: Phase)
        ensures
            r == self@.phase,
    {
        self.phase
    }

    /// How the run ended, once it has.
    pub fn outcome(&self) -> (r: Option<Outcome>)
        ensures
            r == match self@.phase {
                Phase::Finished(o) => Some(o),
                _ => None,
            },
    {
        match self.phase {
            Phase::Finished(o) => Some(o),
            _ => None,
        }
    }

    /// How many fetches are running.
    pub fn in_flight_count(&self) -> (r: usize)
        ensures
            r == self@.flights.len(),
    {
        self.flights.len()
    }

    /// How many chapters this run has fetched.
    pub fn completed_count(&self) -> (r: usize)
        ensures
            r == self@.succeeded.len(),
    {
        self.succeeded.len()
    }

    /// The chapters whose fetch failed in this run, in the order reported.
    pub fn failed(&self) -> (r: &Vec<usize>)
        ensures
            r@ == self@.failed,
    {
        &self.failed
    }

    /// The chapters whose fetch succeeded in this run, in the order
    /// reported.
    pub fn succeeded(&self) -> (r: &Vec<usize>)
        ensures
            r@ == self@.succeeded,
    {
        &self.succeeded
    }

    /// Whether the cancellation flag has been seen.
    pub fn is_cancelled(&self) -> (r: bool)
        ensures
            r == self@.cancelled,
    {
        self.cancelled
    }
}

} // verus!
