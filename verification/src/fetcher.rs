//! The fetch of one chapter: what the captured pages of a chapter become.
//!
//! The capture itself, and the extraction of a page's text and asset
//! addresses, are the caller's. A page whose extraction failed does not fail
//! the chapter: a visible note stands in its place.

use crate::config::with_value;
use crate::config::ConfigValue;
use crate::config::DynamicConfig;
use crate::config::Scalar;
use crate::config::ScalarView;
use crate::config::ValueView;
use crate::patterns::capture_group;
use crate::patterns::regex_capture;
use crate::text::chars_of;
use crate::text::find_chars_from;
use crate::text::first_match;
use crate::text::push_str;
use crate::text::string_of;
use crate::volume::append_strings;
use crate::volume::texts;
use crate::volume::Chapter;
use crate::volume::ChapterView;
use vstd::prelude::*;

verus! {

/// What was extracted from one page: the asset addresses it refers to, and
/// its text.
#[derive(Debug)]
pub struct Extracted {
    pub images: Vec<String>,
    pub text: String,
}

/// One captured page: the address it was captured from, if the capture
/// names it, and what was extracted from it, if the extraction succeeded.
#[derive(Debug)]
pub struct PageCapture {
    pub origin: Option<String>,
    pub extracted: Option<Extracted>,
}

/// What a `PageCapture` holds.
pub struct PageView {
    pub origin: Option<Seq<char>>,
    pub extracted: Option<(Seq<Seq<char>>, Seq<char>)>,
}

impl View for PageCapture {
    type V = PageView;

    open spec fn view(&self) -> PageView {
        PageView {
            origin: match self.origin {
                Some(o) => Some(o@),
                None => None,
            },
            extracted: match self.extracted {
                Some(e) => Some((texts(e.images@), e.text@)),
                None => None,
            },
        }
    }
}

/// The views of a sequence of pages, in order.
pub open spec fn page_views(pages: Seq<PageCapture>) -> Seq<PageView> {
    pages.map_values(|p: PageCapture| p@)
}

/// Why a chapter could not be fetched.
#[derive(Clone, Copy, Debug, PartialEq, Eq, Structural)]
pub enum FetchError {
    /// The capture gave no page.
    NoPages,
}

/// The note that stands in place of a page whose extraction failed.
pub open spec fn placeholder(origin: Option<Seq<char>>) -> Seq<char> {
    "章节解析出错 url:"@ + match origin {
        Some(o) => o,
        None => "url获取失败"@,
    }
}

/// The text block of a page.
pub open spec fn page_text(page: PageView) -> Seq<char> {
    match page.extracted {
        Some(e) => e.1,
        None => placeholder(page.origin),
    }
}

/// The asset addresses of a page. A failed page has none: its note stands
/// in place of its text only.
pub open spec fn page_images(page: PageView) -> Seq<Seq<char>> {
    match page.extracted {
        Some(e) => e.0,
        None => Seq::empty(),
    }
}

/// The text blocks of the first `n` pages, in order.
pub open spec fn blocks_of(pages: Seq<PageView>, n: nat) -> Seq<Seq<char>>
    decreases n,
{
    if n == 0 {
        Seq::empty()
    } else {
        blocks_of(pages, (n - 1) as nat).push(page_text(pages[n - 1]))
    }
}

/// The asset addresses of the first `n` pages: page by page, each in the
/// order of its list.
pub open spec fn images_of(pages: Seq<PageView>, n: nat) -> Seq<Seq<char>>
    decreases n,
{
    if n == 0 {
        Seq::empty()
    } else {
        images_of(pages, (n - 1) as nat) + page_images(pages[n - 1])
    }
}

/// There is one text block for each page.
pub proof fn lemma_blocks_of(pages: Seq<PageView>, n: nat)
    requires
        n <= pages.len(),
    ensures
        blocks_of(pages, n).len() == n,
        forall|i: int| 0 <= i < n ==> blocks_of(pages, n)[i] == page_text(pages[i]),
    decreases n,
{
    if n > 0 {
        lemma_blocks_of(pages, (n - 1) as nat);
    }
}

fn note(origin: &Option<String>) -> (r: String)
    ensures
        r@ == placeholder(
            match origin {
                Some(o) => Some(o@),
                None => None,
            },
        ),
{
    let mut out: Vec<char> = Vec::new();
    push_str(&mut out, "章节解析出错 url:");
    match origin {
        Some(o) => push_str(&mut out, o.as_str()),
        None => push_str(&mut out, "url获取失败"),
    }
    string_of(&out)
}

/// The note of a failed page is never empty: it begins with what says that
/// the page could not be read, and names the page's address after it.
pub proof fn lemma_placeholder(origin: Option<Seq<char>>)
    ensures
        placeholder(origin).len() > 0,
        origin matches Some(o) ==> placeholder(origin).subrange(
            placeholder(origin).len() - o.len(),
            placeholder(origin).len() as int,
        ) == o,
{
    reveal_strlit("章节解析出错 url:");
    match origin {
        Some(o) => {
            let p = placeholder(origin);
            assert(p.subrange(p.len() - o.len(), p.len() as int) =~= o);
        },
        None => {},
    }
}

/// The text blocks and the asset addresses of a chapter, from its captured
/// pages: one block for each page, in the order of the pages (the text of a
/// page that was read, the note of one that was not), and the addresses of
/// the pages that were read. A capture without pages is a failure.
pub fn assemble_pages(pages: Vec<PageCapture>) -> (r: Result<(Vec<String>, Vec<String>), FetchError>)
    ensures
        match r {
            Ok((context, image)) => pages@.len() > 0 && context@.len() == pages@.len() && texts(
                context@,
            ) == blocks_of(page_views(pages@), pages@.len()) && texts(image@) == images_of(
                page_views(pages@),
                pages@.len(),
            ) && (forall|i: int|
                0 <= i < pages@.len() ==> #[trigger] texts(context@)[i] == page_text(pages@[i]@)),
            Err(e) => pages@.len() == 0 && e == FetchError::NoPages,
        },
{
    if pages.len() == 0 {
        return Err(FetchError::NoPages);
    }
    let ghost all = page_views(pages@);
    let mut context: Vec<String> = Vec::new();
    let mut image: Vec<String> = Vec::new();
    let mut i: usize = 0;
    assert(texts(context@) =~= blocks_of(all, 0));
    assert(texts(image@) =~= images_of(all, 0));
    while i < pages.len()
        invariant
            i <= pages@.len(),
            all == page_views(pages@),
            texts(context@) == blocks_of(all, i as nat),
            texts(image@) == images_of(all, i as nat),
        decreases pages@.len() - i,
    {
        let page = &pages[i];
        assert(all[i as int] == page@);
        let ghost blocks = texts(context@);
        let ghost addresses = texts(image@);
        match &page.extracted {
            Some(e) => {
                context.push(e.text.clone());
                append_strings(&mut image, &e.images);
            },
            None => {
                context.push(note(&page.origin));
                assert(texts(image@) =~= addresses + Seq::<Seq<char>>::empty());
            },
        }
        assert(texts(context@) =~= blocks.push(page_text(page@)));
        i += 1;
    }
    proof {
        lemma_blocks_of(all, all.len());
        assert(texts(context@).len() == context@.len());
        assert forall|i: int| 0 <= i < pages@.len() implies #[trigger] texts(context@)[i]
            == page_text(pages@[i]@) by {
            assert(all[i] == pages@[i]@);
        }
    }
    Ok((context, image))
}

impl Chapter {
    /// Fills the chapter from its captured pages. A capture without pages
    /// is a failure and leaves the chapter as it is.
    pub fn parser_by_singlefile(&mut self, pages: Vec<PageCapture>) -> (r: Result<(), FetchError>)
        ensures
            match r {
                Ok(_) => pages@.len() > 0 && final(self)@ == (ChapterView {
                    context: blocks_of(page_views(pages@), pages@.len()),
                    image: images_of(page_views(pages@), pages@.len()),
                    ..old(self)@
                }),
                Err(e) => pages@.len() == 0 && e == FetchError::NoPages && final(self)@ == old(
                    self,
                )@,
            },
    {
        match assemble_pages(pages) {
            Ok((context, image)) => {
                self.context = context;
                self.image = image;
                Ok(())
            },
            Err(e) => Err(e),
        }
    }
}

/// How often the page of a volume is captured before what came is taken.
pub const PAGE_ATTEMPTS: usize = 5;

/// Whether a captured page is no page of the site: it is empty, or the site
/// has refused or could not serve it.
pub open spec fn is_blocked(html: Seq<char>) -> bool {
    html.len() == 0 || first_match(html, "Cloudflare to restrict access"@) is Some || first_match(
        html,
        "503 Service Temporarily Unavailable"@,
    ) is Some
}

/// Whether a captured page is no page of the site, so that the capture is
/// to be made again.
pub fn page_is_blocked(html: &str) -> (r: bool)
    ensures
        r == is_blocked(html@),
{
    let text = chars_of(html);
    if text.len() == 0 {
        return true;
    }
    if find_chars_from(&text, &chars_of("Cloudflare to restrict access"), 0).is_some() {
        return true;
    }
    find_chars_from(&text, &chars_of("503 Service Temporarily Unavailable"), 0).is_some()
}

/// Whether the page of a volume is captured once more, after the capture
/// number `attempt`, counted from zero, has given the page `html`: a page that
/// the site refused is captured again until the attempts are used up.
pub fn capture_again(attempt: usize, html: &str) -> (r: bool)
    ensures
        r == (attempt + 1 < PAGE_ATTEMPTS && is_blocked(html@)),
{
    if attempt >= PAGE_ATTEMPTS - 1 {
        false
    } else {
        page_is_blocked(html)
    }
}

/// Why no capture of a chapter could be asked for.
#[derive(Clone, Copy, Debug, PartialEq, Eq, Structural)]
pub enum DirectiveError {
    /// The pattern of the chapter's number is no regular expression.
    Pattern,
    /// The address holds no chapter number.
    NoChapterNumber,
}

/// The pattern of the number of a chapter in its address.
pub const CHAPTER_NUMBER: &'static str = r"novel/\d+/(\d{2,})";

/// The number of the chapter in an address, as far as the pattern could be
/// tried.
pub open spec fn chapter_number(url: Seq<char>) -> Option<Option<Seq<char>>> {
    regex_capture(CHAPTER_NUMBER@, url, 1)
}

/// The rule that keeps the capture on the pages of one chapter: the address
/// of any page of the book is rewritten to the page of that number in this
/// chapter.
pub open spec fn chapter_rule(id: Seq<char>) -> Seq<char> {
    "^https://www\\.linovelib\\.com/novel/(\\d+)/\\d+(_\\d+)?\\.html$ https://www.linovelib.com/novel/$1/"@
        + id + "$2.html"@
}

/// A value with the given JSON text.
pub open spec fn json_of(text: Seq<char>) -> ValueView {
    ValueView::One(ScalarView::Json(text))
}

/// A value that is the given text.
pub open spec fn text_value(text: Seq<char>) -> ValueView {
    ValueView::One(ScalarView::Text(text))
}

/// The options of the capture of one chapter.
pub open spec fn directives(
    id: Seq<char>,
    browser_server_url: Seq<char>,
    crawl_path: Seq<char>,
    script_path: Seq<char>,
) -> Seq<(Seq<char>, ValueView)> {
    let o0 = Seq::<(Seq<char>, ValueView)>::empty();
    let o1 = with_value(o0, "remove-hidden-elements"@, json_of("true"@));
    let o2 = with_value(o1, "browser-server"@, text_value(browser_server_url));
    let o3 = with_value(o2, "dump-content"@, json_of("true"@));
    let o4 = with_value(o3, "output-json"@, json_of("true"@));
    let o5 = with_value(o4, "block-images"@, json_of("true"@));
    let o6 = with_value(o5, "crawl-links"@, json_of("true"@));
    let o7 = with_value(o6, "crawl-no-parent"@, json_of("true"@));
    let o8 = with_value(o7, "crawl-inner-links-only"@, json_of("true"@));
    let o9 = with_value(o8, "crawl-max-depth"@, json_of("20"@));
    let o10 = with_value(o9, "crawl-sync-session"@, text_value(crawl_path));
    let o11 = with_value(o10, "browser-script"@, text_value(script_path));
    let o12 = with_value(o11, "browser-wait-delay"@, json_of("1000"@));
    let o13 = with_value(o12, "browser-load-max-time"@, json_of("240000"@));
    let o14 = with_value(o13, "browser-capture-max-time"@, json_of("240000"@));
    with_value(
        o14,
        "crawl-rewrite-rule"@,
        ValueView::Many(
            seq![
                ScalarView::Text(
                    "^https://www\\.linovelib\\.com/novel/\\d+/vol_.*\\.html$ https://www.linovelib.com/"@,
                ),
                ScalarView::Text(chapter_rule(id)),
                ScalarView::Text(
                    "^https://www\\.linovelib\\.com/novel/\\d+/catalog.*$ https://www.linovelib.com/"@,
                ),
            ],
        ),
    )
}

/// The options of the capture of the chapter with the given number: the
/// capture follows the links of the chapter's own pages and no others.
pub fn directives_for(id: &str, browser_server_url: &str, crawl_path: &str, script_path: &str) -> (r:
    DynamicConfig)
    ensures
        r.wf(),
        r@ == directives(id@, browser_server_url@, crawl_path@, script_path@),
{
    let mut rule: Vec<char> = Vec::new();
    push_str(
        &mut rule,
        "^https://www\\.linovelib\\.com/novel/(\\d+)/\\d+(_\\d+)?\\.html$ https://www.linovelib.com/novel/$1/",
    );
    push_str(&mut rule, id);
    push_str(&mut rule, "$2.html");
    let mut rules: Vec<Scalar> = Vec::new();
    rules.push(
        Scalar::Text(
            "^https://www\\.linovelib\\.com/novel/\\d+/vol_.*\\.html$ https://www.linovelib.com/".to_owned(),
        ),
    );
    rules.push(Scalar::Text(string_of(&rule)));
    rules.push(
        Scalar::Text(
            "^https://www\\.linovelib\\.com/novel/\\d+/catalog.*$ https://www.linovelib.com/".to_owned(),
        ),
    );
    assert(crate::config::scalar_views(rules@) =~= seq![
        ScalarView::Text(
            "^https://www\\.linovelib\\.com/novel/\\d+/vol_.*\\.html$ https://www.linovelib.com/"@,
        ),
        ScalarView::Text(chapter_rule(id@)),
        ScalarView::Text(
            "^https://www\\.linovelib\\.com/novel/\\d+/catalog.*$ https://www.linovelib.com/"@,
        ),
    ]);
    let start = DynamicConfig::new();
    assert(start@ =~= Seq::<(Seq<char>, ValueView)>::empty());
    start.with_set("remove-hidden-elements", ConfigValue::json("true")).with_set(
        "browser-server",
        ConfigValue::text(browser_server_url),
    ).with_set("dump-content", ConfigValue::json("true")).with_set(
        "output-json",
        ConfigValue::json("true"),
    ).with_set("block-images", ConfigValue::json("true")).with_set(
        "crawl-links",
        ConfigValue::json("true"),
    ).with_set("crawl-no-parent", ConfigValue::json("true")).with_set(
        "crawl-inner-links-only",
        ConfigValue::json("true"),
    ).with_set("crawl-max-depth", ConfigValue::json("20")).with_set(
        "crawl-sync-session",
        ConfigValue::text(crawl_path),
    ).with_set("browser-script", ConfigValue::text(script_path)).with_set(
        "browser-wait-delay",
        ConfigValue::json("1000"),
    ).with_set("browser-load-max-time", ConfigValue::json("240000")).with_set(
        "browser-capture-max-time",
        ConfigValue::json("240000"),
    ).with_set("crawl-rewrite-rule", ConfigValue::Many(rules))
}

/// The options of the capture of the chapter at the given address. The
/// address must hold the chapter's number: at least two digits after the
/// book's number.
pub fn download_chapter_singlefile(
    url: &str,
    browser_server_url: &str,
    crawl_path: &str,
    script_path: &str,
) -> (r: Result<DynamicConfig, DirectiveError>)
    ensures
        match r {
            Ok(options) => options.wf() && (chapter_number(url@) matches Some(Some(id)) && options@
                == directives(id, browser_server_url@, crawl_path@, script_path@)),
            Err(DirectiveError::Pattern) => chapter_number(url@) is None,
            Err(DirectiveError::NoChapterNumber) => chapter_number(url@) == Some(
                None::<Seq<char>>,
            ),
        },
{
    match capture_group(CHAPTER_NUMBER, url, 1) {
        Ok(Some(id)) => Ok(directives_for(id.as_str(), browser_server_url, crawl_path, script_path)),
        Ok(None) => Err(DirectiveError::NoChapterNumber),
        Err(_) => Err(DirectiveError::Pattern),
    }
}

} // verus!
