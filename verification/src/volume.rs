//! The data model: books, volumes, chapters and their tags.

use vstd::prelude::*;

verus! {

/// The texts of a sequence of strings, in order.
pub open spec fn texts(v: Seq<String>) -> Seq<Seq<char>> {
    v.map_values(|s: String| s@)
}

/// Copies a list of strings.
pub fn clone_strings(v: &Vec<String>) -> (r: Vec<String>)
    ensures
        texts(r@) == texts(v@),
{
    let mut out: Vec<String> = Vec::new();
    let mut i: usize = 0;
    while i < v.len()
        invariant
            i <= v.len(),
            out@.len() == i,
            forall|k: int| 0 <= k < i ==> out@[k]@ == v@[k]@,
        decreases v.len() - i,
    {
        out.push(v[i].clone());
        i += 1;
    }
    assert(texts(out@) =~= texts(v@));
    out
}

/// Appends copies of the strings of `more` to `out`.
pub fn append_strings(out: &mut Vec<String>, more: &Vec<String>)
    ensures
        texts(final(out)@) == texts(old(out)@) + texts(more@),
{
    let ghost start = texts(out@);
    let mut i: usize = 0;
    assert(texts(out@) =~= start + texts(more@).take(0));
    while i < more.len()
        invariant
            i <= more@.len(),
            texts(out@) == start + texts(more@).take(i as int),
        decreases more@.len() - i,
    {
        let ghost before = texts(out@);
        out.push(more[i].clone());
        assert(texts(out@) =~= before.push(more@[i as int]@));
        assert(texts(more@).take(i + 1) =~= texts(more@).take(i as int).push(more@[i as int]@));
        assert(texts(out@) =~= start + texts(more@).take(i + 1));
        i += 1;
    }
    assert(texts(more@).take(more@.len() as int) =~= texts(more@));
}

/// What a `Tags` value holds.
pub struct TagsView {
    pub state: Seq<char>,
    pub label: Seq<Seq<char>>,
    pub span: Seq<Seq<char>>,
}

/// The publication state and the labels of a book or volume.
#[derive(Debug)]
pub struct Tags {
    pub state: String,
    pub label: Vec<String>,
    pub span: Vec<String>,
}

impl View for Tags {
    type V = TagsView;

    open spec fn view(&self) -> TagsView {
        TagsView { state: self.state@, label: texts(self.label@), span: texts(self.span@) }
    }
}

impl Tags {
    /// Tags with an empty state and no labels.
    pub fn new() -> (r: Self)
        ensures
            r@.state.len() == 0,
            r@.label.len() == 0,
            r@.span.len() == 0,
    {
        Tags { state: String::new(), label: Vec::new(), span: Vec::new() }
    }
}

impl Clone for Tags {
    fn clone(&self) -> (r: Self)
        ensures
            r@ == self@,
    {
        Tags {
            state: self.state.clone(),
            label: clone_strings(&self.label),
            span: clone_strings(&self.span),
        }
    }
}

/// What a `Chapter` holds.
pub struct ChapterView {
    pub url: Seq<char>,
    pub title: Seq<char>,
    pub context: Seq<Seq<char>>,
    pub image: Seq<Seq<char>>,
}

/// The smallest unit that is fetched on its own: one text block per captured
/// page, and the addresses of the assets that the text refers to.
#[derive(Debug)]
pub struct Chapter {
    pub url: String,
    pub title: String,
    pub context: Vec<String>,
    pub image: Vec<String>,
}

impl View for Chapter {
    type V = ChapterView;

    open spec fn view(&self) -> ChapterView {
        ChapterView {
            url: self.url@,
            title: self.title@,
            context: texts(self.context@),
            image: texts(self.image@),
        }
    }
}

impl ChapterView {
    /// A chapter that has an address and a title and nothing fetched yet.
    pub open spec fn unfetched(url: Seq<char>, title: Seq<char>) -> ChapterView {
        ChapterView { url, title, context: Seq::empty(), image: Seq::empty() }
    }

    /// Whether a page is missing: no text block at all, or an empty one.
    pub open spec fn lacks_text(self) -> bool {
        lacks_text(self.context)
    }
}

/// Whether a list of text blocks is empty or holds an empty block.
pub open spec fn lacks_text(blocks: Seq<Seq<char>>) -> bool {
    blocks.len() == 0 || exists|i: int| 0 <= i < blocks.len() && blocks[i].len() == 0
}

impl Chapter {
    /// A chapter with the given address and title and nothing fetched yet.
    pub fn new(url: &str, title: &str) -> (r: Self)
        ensures
            r@ == ChapterView::unfetched(url@, title@),
    {
        let r = Chapter {
            url: url.to_owned(),
            title: title.to_owned(),
            context: Vec::new(),
            image: Vec::new(),
        };
        assert(texts(r.context@) =~= Seq::empty());
        assert(texts(r.image@) =~= Seq::empty());
        r
    }
}

impl Default for Chapter {
    fn default() -> (r: Self)
        ensures
            r@ == ChapterView::unfetched(Seq::empty(), Seq::empty()),
    {
        let r = Chapter {
            url: String::new(),
            title: String::new(),
            context: Vec::new(),
            image: Vec::new(),
        };
        assert(texts(r.context@) =~= Seq::empty());
        assert(texts(r.image@) =~= Seq::empty());
        r
    }
}

impl Clone for Chapter {
    fn clone(&self) -> (r: Self)
        ensures
            r@ == self@,
    {
        Chapter {
            url: self.url.clone(),
            title: self.title.clone(),
            context: clone_strings(&self.context),
            image: clone_strings(&self.image),
        }
    }
}

/// The views of a sequence of chapters, in order.
pub open spec fn chapter_views(v: Seq<Chapter>) -> Seq<ChapterView> {
    v.map_values(|c: Chapter| c@)
}

/// Copies a list of chapters.
pub fn clone_chapters(v: &Vec<Chapter>) -> (r: Vec<Chapter>)
    ensures
        chapter_views(r@) == chapter_views(v@),
{
    let mut out: Vec<Chapter> = Vec::new();
    let mut i: usize = 0;
    while i < v.len()
        invariant
            i <= v.len(),
            out@.len() == i,
            forall|k: int| 0 <= k < i ==> out@[k]@ == v@[k]@,
        decreases v.len() - i,
    {
        out.push(v[i].clone());
        i += 1;
    }
    assert(chapter_views(out@) =~= chapter_views(v@));
    out
}

/// Copies a list of indices.
pub fn clone_indices(v: &Vec<usize>) -> (r: Vec<usize>)
    ensures
        r@ == v@,
{
    let mut out: Vec<usize> = Vec::new();
    let mut i: usize = 0;
    while i < v.len()
        invariant
            i <= v.len(),
            out@ == v@.take(i as int),
        decreases v.len() - i,
    {
        out.push(v[i]);
        assert(v@.take(i as int).push(v@[i as int]) =~= v@.take(i + 1));
        i += 1;
    }
    assert(v@.take(v@.len() as int) =~= v@);
    out
}

/// What a `Novel` holds.
pub struct NovelView {
    pub url: Seq<char>,
    pub name: Seq<char>,
    pub author: Seq<char>,
    pub cover: Seq<char>,
    pub tags: Option<TagsView>,
    pub description: Seq<char>,
    pub chapters: Seq<ChapterView>,
    pub pending: Seq<usize>,
}

impl NovelView {
    /// Every pending index names a chapter, and none is listed twice.
    pub open spec fn well_formed(self) -> bool {
        &&& self.pending.no_duplicates()
        &&& forall|k: int| 0 <= k < self.pending.len() ==> self.pending[k] < self.chapters.len()
    }

    /// Whether chapter `i` exists and is no longer pending.
    pub open spec fn is_completed(self, i: int) -> bool {
        0 <= i < self.chapters.len() && !self.pending.contains(i as usize)
    }

    /// The chapters that are no longer pending.
    pub open spec fn completed(self) -> Set<int> {
        Set::new(|i: int| self.is_completed(i))
    }
}

/// One downloadable unit of a book: an ordered list of chapters, and the
/// indices of those that are still to be fetched.
#[derive(Debug)]
pub struct Novel {
    pub url: String,
    pub name: String,
    pub author: String,
    pub cover: String,
    pub tags: Option<Tags>,
    pub description: String,
    pub chapters: Vec<Chapter>,
    pub pending_chapter_indices: Vec<usize>,
}

impl View for Novel {
    type V = NovelView;

    open spec fn view(&self) -> NovelView {
        NovelView {
            url: self.url@,
            name: self.name@,
            author: self.author@,
            cover: self.cover@,
            tags: match self.tags {
                Some(t) => Some(t@),
                None => None,
            },
            description: self.description@,
            chapters: chapter_views(self.chapters@),
            pending: self.pending_chapter_indices@,
        }
    }
}

impl Novel {
    /// A volume with the given address and name, without chapters.
    pub fn new(url: String, name: String) -> (r: Self)
        ensures
            r@.url == url@,
            r@.name == name@,
            r@.author.len() == 0,
            r@.cover.len() == 0,
            r@.tags is None,
            r@.description.len() == 0,
            r@.chapters.len() == 0,
            r@.pending.len() == 0,
            r@.well_formed(),
    {
        Novel {
            url,
            name,
            author: String::new(),
            cover: String::new(),
            tags: None,
            description: String::new(),
            chapters: Vec::new(),
            pending_chapter_indices: Vec::new(),
        }
    }

    /// Whether every pending index names a chapter and none is listed twice.
    pub fn is_well_formed(&self) -> (r: bool)
        ensures
            r == self@.well_formed(),
    {
        let n = self.chapters.len();
        let mut i: usize = 0;
        while i < self.pending_chapter_indices.len()
            invariant
                n == self.chapters@.len(),
                i <= self.pending_chapter_indices@.len(),
                self.pending_chapter_indices@.take(i as int).no_duplicates(),
                forall|k: int| 0 <= k < i ==> self.pending_chapter_indices@[k] < n,
            decreases self.pending_chapter_indices@.len() - i,
        {
            let x = self.pending_chapter_indices[i];
            if x >= n {
                return false;
            }
            let mut j: usize = 0;
            while j < i
                invariant
                    j <= i,
                    i < self.pending_chapter_indices@.len(),
                    x == self.pending_chapter_indices@[i as int],
                    forall|k: int| 0 <= k < j ==> self.pending_chapter_indices@[k] != x,
                decreases i - j,
            {
                if self.pending_chapter_indices[j] == x {
                    return false;
                }
                j += 1;
            }
            assert(self.pending_chapter_indices@.take(i + 1).no_duplicates()) by {
                let t = self.pending_chapter_indices@.take(i + 1);
                let s = self.pending_chapter_indices@.take(i as int);
                assert forall|a: int, b: int| 0 <= a < t.len() && 0 <= b < t.len() && a != b implies t[a] != t[b] by {
                    if a < i && b < i {
                        assert(s[a] != s[b]);
                    }
                }
            }
            i += 1;
        }
        assert(self.pending_chapter_indices@.take(i as int) =~= self.pending_chapter_indices@);
        true
    }
}

impl Clone for Novel {
    fn clone(&self) -> (r: Self)
        ensures
            r@ == self@,
    {
        Novel {
            url: self.url.clone(),
            name: self.name.clone(),
            author: self.author.clone(),
            cover: self.cover.clone(),
            tags: match &self.tags {
                Some(t) => Some(t.clone()),
                None => None,
            },
            description: self.description.clone(),
            chapters: clone_chapters(&self.chapters),
            pending_chapter_indices: clone_indices(&self.pending_chapter_indices),
        }
    }
}

/// How a book's volumes are fetched and packaged.
#[derive(Debug)]
pub struct NovelConfig {
    pub max_concurrent: usize,
    pub check_rounds: usize,
    pub css: String,
    pub compression_level: u32,
    pub check_concurrent: usize,
    pub save_interval: usize,
}

impl Default for NovelConfig {
    fn default() -> (r: Self)
        ensures
            r.max_concurrent == 0,
            r.check_rounds == 0,
            r.css@.len() == 0,
            r.compression_level == 0,
            r.check_concurrent == 0,
            r.save_interval == 0,
    {
        NovelConfig {
            max_concurrent: 0,
            check_rounds: 0,
            css: String::new(),
            compression_level: 0,
            check_concurrent: 0,
            save_interval: 0,
        }
    }
}

impl Clone for NovelConfig {
    fn clone(&self) -> (r: Self)
        ensures
            r.max_concurrent == self.max_concurrent,
            r.check_rounds == self.check_rounds,
            r.css@ == self.css@,
            r.compression_level == self.compression_level,
            r.check_concurrent == self.check_concurrent,
            r.save_interval == self.save_interval,
    {
        NovelConfig {
            max_concurrent: self.max_concurrent,
            check_rounds: self.check_rounds,
            css: self.css.clone(),
            compression_level: self.compression_level,
            check_concurrent: self.check_concurrent,
            save_interval: self.save_interval,
        }
    }
}

/// A book: its addresses, what its page says of it, its volumes, and the
/// volumes that were selected for fetching.
#[derive(Debug)]
pub struct BiliNovel {
    pub url: String,
    pub catalog: String,
    pub book_name: String,
    pub author: String,
    pub tags: Option<Tags>,
    pub nums: String,
    pub notice: String,
    pub description: String,
    pub volume: Vec<Novel>,
    pub index: Vec<u8>,
    pub config: NovelConfig,
}

impl BiliNovel {
    /// A book with the given page and catalog addresses, nothing resolved yet.
    pub fn new(url: String, catalog: String) -> (r: Self)
        ensures
            r.url@ == url@,
            r.catalog@ == catalog@,
            r.book_name@.len() == 0,
            r.author@.len() == 0,
            r.tags is None,
            r.nums@.len() == 0,
            r.notice@.len() == 0,
            r.description@.len() == 0,
            r.volume@.len() == 0,
            r.index@.len() == 0,
            r.config.max_concurrent == 0,
            r.config.check_rounds == 0,
            r.config.css@.len() == 0,
            r.config.compression_level == 0,
            r.config.check_concurrent == 0,
            r.config.save_interval == 0,
    {
        BiliNovel {
            url,
            catalog,
            book_name: String::new(),
            author: String::new(),
            tags: None,
            nums: String::new(),
            notice: String::new(),
            description: String::new(),
            volume: Vec::new(),
            index: Vec::new(),
            config: NovelConfig::default(),
        }
    }
}

} // verus!
