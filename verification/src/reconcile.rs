//! Reconciliation: finding the chapters that are incomplete, and deciding
//! round by round whether they are fetched again.
//!
//! A chapter is incomplete when a page of its text is missing or when an
//! asset that it refers to is not in the asset store. Assets arrive on their
//! own, so a chapter that is incomplete now may be complete a little later:
//! the incomplete chapters are fetched again, for a bounded number of rounds.

use crate::assets::ImageMap;
use crate::assets::ImageView;
use crate::volume::lacks_text;
use crate::volume::texts;
use crate::volume::ChapterView;
use crate::volume::Novel;
use crate::volume::NovelView;
use vstd::prelude::*;

verus! {

/// Whether a list of text blocks is empty or holds an empty block.
pub fn has_empty_string(vec: &Vec<String>) -> (r: bool)
    ensures
        r == lacks_text(texts(vec@)),
{
    if vec.len() == 0 {
        return true;
    }
    let mut i: usize = 0;
    while i < vec.len()
        invariant
            i <= vec@.len(),
            forall|k: int| 0 <= k < i ==> texts(vec@)[k].len() != 0,
        decreases vec@.len() - i,
    {
        if vec[i].as_str().unicode_len() == 0 {
            assert(texts(vec@)[i as int].len() == 0);
            return true;
        }
        i += 1;
    }
    false
}

/// Whether one of the addresses is not in the store.
pub open spec fn lacks_asset(image: Seq<Seq<char>>, store: Map<Seq<char>, ImageView>) -> bool {
    exists|k: int| 0 <= k < image.len() && !store.contains_key(image[k])
}

/// Whether a chapter is incomplete: a page of its text is missing, or an
/// asset it refers to is not in the store.
pub open spec fn is_defective(chapter: ChapterView, store: Map<Seq<char>, ImageView>) -> bool {
    chapter.lacks_text() || lacks_asset(chapter.image, store)
}

/// The indices, in rising order, of the incomplete chapters among the first
/// `n`.
pub open spec fn defects_among(
    chapters: Seq<ChapterView>,
    store: Map<Seq<char>, ImageView>,
    n: nat,
) -> Seq<usize>
    decreases n,
{
    if n == 0 {
        Seq::empty()
    } else if is_defective(chapters[n - 1], store) {
        defects_among(chapters, store, (n - 1) as nat).push((n - 1) as usize)
    } else {
        defects_among(chapters, store, (n - 1) as nat)
    }
}

/// The addresses among the first `n` of a list that are not in the store, in
/// the order of the list.
pub open spec fn missing_among(
    image: Seq<Seq<char>>,
    store: Map<Seq<char>, ImageView>,
    n: nat,
) -> Seq<Seq<char>>
    decreases n,
{
    if n == 0 {
        Seq::empty()
    } else if !store.contains_key(image[n - 1]) {
        missing_among(image, store, (n - 1) as nat).push(image[n - 1])
    } else {
        missing_among(image, store, (n - 1) as nat)
    }
}

/// The asset addresses that the first `n` chapters refer to and that are not
/// in the store: chapter by chapter, each in the order of its list.
pub open spec fn missing_assets(
    chapters: Seq<ChapterView>,
    store: Map<Seq<char>, ImageView>,
    n: nat,
) -> Seq<Seq<char>>
    decreases n,
{
    if n == 0 {
        Seq::empty()
    } else {
        missing_assets(chapters, store, (n - 1) as nat) + missing_among(
            chapters[n - 1].image,
            store,
            chapters[n - 1].image.len(),
        )
    }
}

/// The list of incomplete chapters holds exactly the incomplete chapters, in
/// rising order.
pub proof fn lemma_defects_among(chapters: Seq<ChapterView>, store: Map<Seq<char>, ImageView>, n: nat)
    requires
        n <= chapters.len(),
        n <= usize::MAX,
    ensures
        ({
            let d = defects_among(chapters, store, n);
            &&& d.len() <= n
            &&& forall|k: int| 0 <= k < d.len() ==> #[trigger] d[k] < n
            &&& forall|a: int, b: int| 0 <= a < b < d.len() ==> d[a] < d[b]
            &&& d.no_duplicates()
            &&& forall|i: usize| d.contains(i) <==> i < n && is_defective(chapters[i as int], store)
        }),
    decreases n,
{
    if n > 0 {
        let before = defects_among(chapters, store, (n - 1) as nat);
        let d = defects_among(chapters, store, n);
        lemma_defects_among(chapters, store, (n - 1) as nat);
        assert forall|i: usize| d.contains(i) <==> i < n && is_defective(
            chapters[i as int],
            store,
        ) by {
            if is_defective(chapters[n - 1], store) {
                if i == n - 1 {
                    assert(d[d.len() - 1] == i);
                } else {
                    if before.contains(i) {
                        let a = choose|a: int| 0 <= a < before.len() && before[a] == i;
                        assert(d[a] == i);
                    }
                    if d.contains(i) {
                        let a = choose|a: int| 0 <= a < d.len() && d[a] == i;
                        assert(before[a] == i);
                    }
                }
            }
        }
    }
}

/// Whether an address is missing from the store is what `missing_among`
/// lists.
pub proof fn lemma_missing_among(image: Seq<Seq<char>>, store: Map<Seq<char>, ImageView>, n: nat)
    requires
        n <= image.len(),
    ensures
        missing_among(image, store, n).len() > 0 <==> lacks_asset(image.take(n as int), store),
    decreases n,
{
    if n > 0 {
        lemma_missing_among(image, store, (n - 1) as nat);
        let front = image.take(n - 1);
        let now = image.take(n as int);
        if lacks_asset(front, store) {
            let k = choose|k: int| 0 <= k < front.len() && !store.contains_key(front[k]);
            assert(now[k] == front[k]);
        }
        if lacks_asset(now, store) {
            let k = choose|k: int| 0 <= k < now.len() && !store.contains_key(now[k]);
            if k < n - 1 {
                assert(front[k] == now[k]);
            }
        }
        if !store.contains_key(image[n - 1]) {
            assert(now[n - 1] == image[n - 1]);
        }
    }
}

/// What an inspection of a volume found.
#[derive(Debug)]
pub struct DefectReport {
    /// Whether the volume's cover is not in the store.
    pub cover_missing: bool,
    /// The incomplete chapters, in rising order.
    pub chapters: Vec<usize>,
    /// The asset addresses that chapters refer to and the store lacks.
    pub missing_assets: Vec<String>,
}

impl DefectReport {
    /// Whether nothing was found.
    pub open spec fn clean(&self) -> bool {
        !self.cover_missing && self.chapters@.len() == 0
    }

    /// Whether nothing was found.
    pub fn is_clean(&self) -> (r: bool)
        ensures
            r == self.clean(),
    {
        !self.cover_missing && self.chapters.len() == 0
    }
}

/// The addresses of `image` that the store lacks are appended to `out`; the
/// result says whether there is one.
fn collect_missing(image: &Vec<String>, store: &ImageMap, out: &mut Vec<String>) -> (r: bool)
    requires
        store.wf(),
    ensures
        texts(final(out)@) == texts(old(out)@) + missing_among(
            texts(image@),
            store@,
            image@.len(),
        ),
        r == lacks_asset(texts(image@), store@),
{
    let mut found = false;
    let mut k: usize = 0;
    let ghost all = texts(image@);
    assert(texts(out@) =~= texts(old(out)@) + missing_among(all, store@, 0));
    while k < image.len()
        invariant
            store.wf(),
            k <= image@.len(),
            all == texts(image@),
            texts(out@) == texts(old(out)@) + missing_among(all, store@, k as nat),
            found == (missing_among(all, store@, k as nat).len() > 0),
        decreases image@.len() - k,
    {
        if !store.contains_key(image[k].as_str()) {
            let ghost before = out@;
            out.push(image[k].clone());
            assert(texts(out@) =~= texts(before).push(all[k as int]));
            assert(texts(out@) =~= texts(old(out)@) + missing_among(all, store@, (k + 1) as nat));
            found = true;
        }
        k += 1;
    }
    proof {
        lemma_missing_among(all, store@, all.len());
        assert(all.take(all.len() as int) =~= all);
    }
    found
}

impl Novel {
    /// Inspects the volume against the asset store. Where chapters are
    /// incomplete, they become the volume's pending chapters; where none is,
    /// the pending chapters stay as they are. Nothing else changes.
    pub fn check(&mut self, store: &ImageMap) -> (r: DefectReport)
        requires
            store.wf(),
        ensures
            r.cover_missing == !store@.contains_key(old(self)@.cover),
            r.chapters@ == defects_among(old(self)@.chapters, store@, old(self)@.chapters.len()),
            texts(r.missing_assets@) == missing_assets(
                old(self)@.chapters,
                store@,
                old(self)@.chapters.len(),
            ),
            final(self)@ == (NovelView {
                pending: if r.chapters@.len() > 0 {
                    r.chapters@
                } else {
                    old(self)@.pending
                },
                ..old(self)@
            }),
            r.chapters@.len() > 0 || old(self)@.well_formed() ==> final(self)@.well_formed(),
    {
        let cover_missing = !store.contains_key(self.cover.as_str());
        let mut chapters: Vec<usize> = Vec::new();
        let mut missing: Vec<String> = Vec::new();
        let n = self.chapters.len();
        let mut i: usize = 0;
        assert(texts(missing@) =~= missing_assets(self@.chapters, store@, 0));
        while i < n
            invariant
                store.wf(),
                i <= n,
                n == self.chapters@.len(),
                self@ == old(self)@,
                chapters@ == defects_among(self@.chapters, store@, i as nat),
                texts(missing@) == missing_assets(self@.chapters, store@, i as nat),
            decreases n - i,
        {
            let chapter = &self.chapters[i];
            assert(chapter@ == self@.chapters[i as int]);
            let no_text = has_empty_string(&chapter.context);
            let no_asset = collect_missing(&chapter.image, store, &mut missing);
            if no_text || no_asset {
                chapters.push(i);
            }
            i += 1;
        }
        proof {
            lemma_defects_among(self@.chapters, store@, n as nat);
        }
        if chapters.len() > 0 {
            self.pending_chapter_indices = crate::volume::clone_indices(&chapters);
        }
        DefectReport { cover_missing, chapters, missing_assets: missing }
    }
}

/// What is to be done after an inspection.
#[derive(Clone, Copy, Debug, PartialEq, Eq, Structural)]
pub enum Verdict {
    /// Nothing was found: the volume is complete.
    Clean,
    /// Fetch what was found again, then inspect again.
    Refetch,
    /// Something was found and the rounds are used up.
    Exhausted,
    /// The cancellation flag was set.
    Cancelled,
}

/// What is to be done after an inspection, when `used` of `rounds` rounds
/// are used up: the cancellation flag is looked at first, then what was
/// found, then the rounds that are left.
pub open spec fn verdict_of(used: usize, rounds: usize, clean: bool, cancelled: bool) -> Verdict {
    if cancelled {
        Verdict::Cancelled
    } else if clean {
        Verdict::Clean
    } else if used < rounds {
        Verdict::Refetch
    } else {
        Verdict::Exhausted
    }
}

/// How many rounds are used up after an inspection.
pub open spec fn used_after(used: usize, rounds: usize, clean: bool, cancelled: bool) -> usize {
    if verdict_of(used, rounds, clean, cancelled) == Verdict::Refetch {
        (used + 1) as usize
    } else {
        used
    }
}

/// One inspection: whether nothing was found, and whether the cancellation
/// flag was set.
pub struct Inspection {
    pub clean: bool,
    pub cancelled: bool,
}

/// How many rounds are used up after a sequence of inspections.
pub open spec fn used_after_all(used: usize, rounds: usize, inspections: Seq<Inspection>) -> usize
    decreases inspections.len(),
{
    if inspections.len() == 0 {
        used
    } else {
        let before = used_after_all(used, rounds, inspections.drop_last());
        used_after(before, rounds, inspections.last().clean, inspections.last().cancelled)
    }
}

/// The verdict of the last of a sequence of inspections.
pub open spec fn last_verdict(used: usize, rounds: usize, inspections: Seq<Inspection>) -> Verdict
    recommends
        inspections.len() > 0,
{
    let before = used_after_all(used, rounds, inspections.drop_last());
    verdict_of(before, rounds, inspections.last().clean, inspections.last().cancelled)
}

/// Reconciliation ends: if every inspection finds something and the
/// cancellation flag is never set, then with `rounds` rounds the first
/// `rounds` inspections each ask for another fetch, every later one reports
/// that the rounds are used up, and no more than `rounds` fetches are ever
/// asked for.
pub proof fn lemma_round_budget(rounds: usize, inspections: Seq<Inspection>)
    requires
        forall|k: int|
            0 <= k < inspections.len() ==> !(#[trigger] inspections[k]).clean
                && !inspections[k].cancelled,
    ensures
        used_after_all(0, rounds, inspections) == if inspections.len() <= rounds {
            inspections.len() as usize
        } else {
            rounds
        },
        inspections.len() > 0 ==> last_verdict(0, rounds, inspections) == if inspections.len()
            <= rounds {
            Verdict::Refetch
        } else {
            Verdict::Exhausted
        },
    decreases inspections.len(),
{
    if inspections.len() > 0 {
        let front = inspections.drop_last();
        assert forall|k: int| 0 <= k < front.len() implies !(#[trigger] front[k]).clean
            && !front[k].cancelled by {
            assert(front[k] == inspections[k]);
        }
        lemma_round_budget(rounds, front);
        assert(!inspections[inspections.len() - 1].clean);
    }
}

/// Whatever the inspections find, the rounds that are used up never exceed
/// the rounds that were given.
pub proof fn lemma_rounds_bounded(used: usize, rounds: usize, inspections: Seq<Inspection>)
    requires
        used <= rounds,
    ensures
        used <= used_after_all(used, rounds, inspections) <= rounds,
    decreases inspections.len(),
{
    if inspections.len() > 0 {
        lemma_rounds_bounded(used, rounds, inspections.drop_last());
    }
}

/// Counts the rounds of a reconciliation.
#[derive(Clone, Copy, Debug)]
pub struct Reconciler {
    pub rounds: usize,
    pub used: usize,
}

impl Reconciler {
    /// A reconciliation of at most `rounds` rounds, none of them used.
    pub fn new(rounds: usize) -> (r: Self)
        ensures
            r.rounds == rounds,
            r.used == 0,
    {
        Reconciler { rounds, used: 0 }
    }

    /// The verdict on an inspection. A verdict to fetch again uses up one
    /// round.
    pub fn judge(&mut self, report: &DefectReport, cancelled: bool) -> (r: Verdict)
        ensures
            r == verdict_of(old(self).used, old(self).rounds, report.clean(), cancelled),
            final(self).used == used_after(
                old(self).used,
                old(self).rounds,
                report.clean(),
                cancelled,
            ),
            final(self).rounds == old(self).rounds,
    {
        if cancelled {
            Verdict::Cancelled
        } else if report.is_clean() {
            Verdict::Clean
        } else if self.used < self.rounds {
            self.used = self.used + 1;
            Verdict::Refetch
        } else {
            Verdict::Exhausted
        }
    }
}

} // verus!
