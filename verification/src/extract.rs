//! What the pages of the site say of a book and of its volumes.
//!
//! What a selector finds in a page is read here. Two things are the
//! caller's, because nothing here can rule out that they fail on some page:
//! rendering markup as plain text, and walking the document of a chapter to
//! read and to set the attributes of its images. The caller hands in the
//! rendered texts and the lists of links and attributes, and what is decided
//! of them is decided here.

use crate::epub::BROKEN_IMAGE_BASE64;
use crate::fetcher::Extracted;
use crate::fetcher::PageCapture;
use crate::markup::found_view;
use crate::markup::found_views;
use crate::markup::normalize_url;
use crate::markup::select_all;
use crate::markup::select_inside;
use crate::markup::selected;
use crate::markup::selected_inside;
use crate::markup::url_normal;
use crate::markup::Found;
use crate::markup::FoundView;
use crate::orchestrator::CatalogPage;
use crate::orchestrator::CatalogView;
use crate::text::chars_of;
use crate::text::push_str;
use crate::text::str_eq;
use crate::text::string_of;
use crate::text::strip_chars;
use crate::text::trimmed;
use crate::text::Strip;
use crate::volume::chapter_views;
use crate::volume::texts;
use crate::volume::Chapter;
use crate::volume::ChapterView;
use crate::volume::BiliNovel;
use crate::volume::Novel;
use crate::volume::Tags;
use crate::volume::TagsView;
use vstd::prelude::*;

verus! {

/// Why a page could not be read.
#[derive(Clone, Copy, Debug, PartialEq, Eq, Structural)]
pub enum ExtractError {
    /// A selector is none.
    Selector,
}

/// The text of the first of the found elements; empty where none was found.
pub open spec fn first_text(found: Seq<FoundView>) -> Seq<char> {
    if found.len() > 0 {
        found[0].0
    } else {
        Seq::empty()
    }
}

/// The texts of the found elements, each without white space at its ends.
pub open spec fn trimmed_texts(found: Seq<FoundView>) -> Seq<Seq<char>> {
    found.map_values(|f: FoundView| trimmed(f.0))
}

/// The first `n` texts, with `sep` between each two.
pub open spec fn joined_with(parts: Seq<Seq<char>>, sep: Seq<char>, n: nat) -> Seq<char>
    decreases n,
{
    if n == 0 {
        Seq::empty()
    } else if n == 1 {
        parts[0]
    } else {
        joined_with(parts, sep, (n - 1) as nat) + sep + parts[n - 1]
    }
}

/// The value of the first attribute of the given name; nothing where there
/// is none.
pub open spec fn attr_of(attrs: Seq<(Seq<char>, Seq<char>)>, name: Seq<char>, from: int) -> Option<
    Seq<char>,
>
    decreases attrs.len() - from,
{
    if from < 0 || from >= attrs.len() {
        None
    } else if attrs[from].0 == name {
        Some(attrs[from].1)
    } else {
        attr_of(attrs, name, from + 1)
    }
}

/// The value of the first attribute of the given name, or the empty text.
pub open spec fn attr_or_empty(attrs: Seq<(Seq<char>, Seq<char>)>, name: Seq<char>) -> Seq<char> {
    match attr_of(attrs, name, 0) {
        Some(v) => v,
        None => Seq::empty(),
    }
}

fn attribute(found: &Found, name: &str) -> (r: String)
    ensures
        r@ == attr_or_empty(found_view(*found).2, name@),
{
    let mut i: usize = 0;
    let ghost attrs = found_view(*found).2;
    while i < found.attrs.len()
        invariant
            i <= found.attrs@.len(),
            attrs == found_view(*found).2,
            attr_of(attrs, name@, 0) == attr_of(attrs, name@, i as int),
        decreases found.attrs@.len() - i,
    {
        assert(attrs[i as int] == (found.attrs@[i as int].0@, found.attrs@[i as int].1@));
        if str_eq(found.attrs[i].0.as_str(), name) {
            return found.attrs[i].1.clone();
        }
        i += 1;
    }
    String::new()
}

fn trim_text(s: &str) -> (r: String)
    ensures
        r@ == trimmed(s@),
{
    let text = chars_of(s);
    let bare = strip_chars(&text, 0, Strip::WhiteSpace);
    assert(text@.subrange(0, text@.len() as int) =~= text@);
    string_of(&bare)
}

fn trim_all(found: &Vec<Found>) -> (r: Vec<String>)
    ensures
        texts(r@) == trimmed_texts(found_views(found@)),
{
    let mut out: Vec<String> = Vec::new();
    let mut i: usize = 0;
    while i < found.len()
        invariant
            i <= found@.len(),
            out@.len() == i,
            forall|k: int| 0 <= k < i ==> out@[k]@ == trimmed(found@[k].text@),
        decreases found@.len() - i,
    {
        out.push(trim_text(found[i].text.as_str()));
        i += 1;
    }
    assert(texts(out@) =~= trimmed_texts(found_views(found@)));
    out
}

fn join(parts: &Vec<String>, sep: &str) -> (r: String)
    ensures
        r@ == joined_with(texts(parts@), sep@, parts@.len()),
{
    let mut out: Vec<char> = Vec::new();
    let mut i: usize = 0;
    while i < parts.len()
        invariant
            i <= parts@.len(),
            out@ == joined_with(texts(parts@), sep@, i as nat),
        decreases parts@.len() - i,
    {
        if i > 0 {
            push_str(&mut out, sep);
        }
        assert(texts(parts@)[i as int] == parts@[i as int]@);
        push_str(&mut out, parts[i].as_str());
        assert(out@ =~= joined_with(texts(parts@), sep@, (i + 1) as nat));
        i += 1;
    }
    string_of(&out)
}

/// The name of the author on a page: the text of the first element that the
/// selector finds.
pub fn extract_author(html: &str, selector: &str) -> (r: Result<String, ExtractError>)
    ensures
        match r {
            Ok(author) => selected(html@, selector@) matches Some(found) && author@ == first_text(
                found,
            ),
            Err(_) => selected(html@, selector@) is None,
        },
{
    match select_all(html, selector) {
        Ok(found) => {
            if found.len() > 0 {
                assert(found_views(found@)[0] == found_view(found@[0]));
                Ok(found[0].text.clone())
            } else {
                Ok(String::new())
            }
        },
        Err(_) => Err(ExtractError::Selector),
    }
}

/// What is found inside the first element of a selector; nothing where the
/// selector finds no element.
pub open spec fn inside(html: Seq<char>, outer: Seq<char>, inner: Seq<char>) -> Option<
    Seq<FoundView>,
> {
    match selected_inside(html, outer, inner) {
        Some(Some(found)) => Some(found),
        Some(None) => Some(Seq::empty()),
        None => None,
    }
}

fn find_inside(html: &str, outer: &str, inner: &str) -> (r: Result<Vec<Found>, ExtractError>)
    ensures
        match r {
            Ok(found) => inside(html@, outer@, inner@) == Some(found_views(found@)),
            Err(_) => inside(html@, outer@, inner@) is None,
        },
{
    match select_inside(html, outer, inner) {
        Ok(Some(found)) => Ok(found),
        Ok(None) => {
            let none: Vec<Found> = Vec::new();
            assert(found_views(none@) =~= Seq::<FoundView>::empty());
            Ok(none)
        },
        Err(_) => Err(ExtractError::Selector),
    }
}

/// The tags on a page: inside the first element that the selector finds,
/// the state, the labels and the further marks.
pub open spec fn tags_of(html: Seq<char>, selector: Seq<char>) -> Option<TagsView> {
    match (
        inside(html, selector, "a.state"@),
        inside(html, selector, "a.label"@),
        inside(html, selector, "span>a"@),
    ) {
        (Some(state), Some(label), Some(span)) => Some(
            TagsView {
                state: first_text(state),
                label: trimmed_texts(label),
                span: trimmed_texts(span),
            },
        ),
        _ => None,
    }
}

/// The tags on a page.
pub fn extract_tags(html: &str, selector: &str) -> (r: Result<Tags, ExtractError>)
    ensures
        match r {
            Ok(tags) => tags_of(html@, selector@) == Some(tags@),
            Err(_) => tags_of(html@, selector@) is None,
        },
{
    let state = match find_inside(html, selector, "a.state") {
        Ok(f) => f,
        Err(e) => {
            return Err(e);
        },
    };
    let label = match find_inside(html, selector, "a.label") {
        Ok(f) => f,
        Err(e) => {
            return Err(e);
        },
    };
    let span = match find_inside(html, selector, "span>a") {
        Ok(f) => f,
        Err(e) => {
            return Err(e);
        },
    };
    let first = if state.len() > 0 {
        assert(found_views(state@)[0] == found_view(state@[0]));
        state[0].text.clone()
    } else {
        String::new()
    };
    Ok(Tags { state: first, label: trim_all(&label), span: trim_all(&span) })
}

/// The plain text of the first of the found elements, without white space
/// at its ends, given what the renderer made of its markup: empty where none
/// was found, and a note where the markup could not be rendered.
pub open spec fn first_as_text(found: Seq<FoundView>, rendered: Option<Seq<char>>) -> Seq<char> {
    if found.len() > 0 {
        trimmed(
            match rendered {
                Some(text) => text,
                None => "提取失败"@,
            },
        )
    } else {
        Seq::empty()
    }
}

fn render_first(found: &Vec<Found>, rendered: &Option<String>) -> (r: String)
    ensures
        r@ == first_as_text(found_views(found@), crate::patterns::text_of(*rendered)),
{
    if found.len() == 0 {
        return String::new();
    }
    match rendered {
        Some(text) => trim_text(text.as_str()),
        None => trim_text("提取失败"),
    }
}

/// The markup of the first of the found elements, if one was found.
pub open spec fn first_markup(found: Seq<FoundView>) -> Option<Seq<char>> {
    if found.len() > 0 {
        Some(found[0].1)
    } else {
        None
    }
}

fn markup_of_first(found: &Vec<Found>) -> (r: Option<String>)
    ensures
        crate::patterns::text_of(r) == first_markup(found_views(found@)),
{
    if found.len() > 0 {
        assert(found_views(found@)[0] == found_view(found@[0]));
        Some(found[0].html.clone())
    } else {
        None
    }
}

/// The markup of the notice and of the description on a page, each where
/// the page has one: what is to be rendered as plain text.
pub open spec fn description_markup_of(html: Seq<char>, selector: Seq<char>) -> Option<
    (Option<Seq<char>>, Option<Seq<char>>),
> {
    match (inside(html, selector, "div.notice"@), inside(html, selector, "div.book-dec>p"@)) {
        (Some(notice), Some(description)) => Some(
            (first_markup(notice), first_markup(description)),
        ),
        _ => None,
    }
}

/// The markup of the notice and of the description on a page, each where
/// the page has one. The caller renders them as plain text, in lines of at
/// most a hundred columns, and hands the texts to `extract_description`.
pub fn description_markup(html: &str, selector: &str) -> (r: Result<
    (Option<String>, Option<String>),
    ExtractError,
>)
    ensures
        match r {
            Ok((notice, description)) => description_markup_of(html@, selector@) == Some(
                (crate::patterns::text_of(notice), crate::patterns::text_of(description)),
            ),
            Err(_) => description_markup_of(html@, selector@) is None,
        },
{
    let notice = match find_inside(html, selector, "div.notice") {
        Ok(f) => f,
        Err(e) => {
            return Err(e);
        },
    };
    let description = match find_inside(html, selector, "div.book-dec>p") {
        Ok(f) => f,
        Err(e) => {
            return Err(e);
        },
    };
    Ok((markup_of_first(&notice), markup_of_first(&description)))
}

/// What a page says of a book: its numbers, its notice and its description,
/// all from inside the first element that the selector finds, given what the
/// renderer made of the markup of the notice and of the description.
pub open spec fn description_of(
    html: Seq<char>,
    selector: Seq<char>,
    notice: Option<Seq<char>>,
    description: Option<Seq<char>>,
) -> Option<(Seq<char>, Seq<char>, Seq<char>)> {
    match (
        inside(html, selector, "div.nums > span"@),
        inside(html, selector, "div.book-dec>p"@),
        inside(html, selector, "div.notice"@),
    ) {
        (Some(nums), Some(described), Some(noticed)) => Some(
            (
                joined_with(trimmed_texts(nums), "\t"@, nums.len()),
                first_as_text(noticed, notice),
                first_as_text(described, description),
            ),
        ),
        _ => None,
    }
}

/// What a page says of a book: its numbers, its notice and its description.
/// `notice` and `description` are the plain texts that the renderer made of
/// the markup that `description_markup` gives; nothing stands for a markup
/// that could not be rendered.
pub fn extract_description(
    html: &str,
    selector: &str,
    notice: &Option<String>,
    description: &Option<String>,
) -> (r: Result<(String, String, String), ExtractError>)
    ensures
        match r {
            Ok((nums, noticed, described)) => description_of(
                html@,
                selector@,
                crate::patterns::text_of(*notice),
                crate::patterns::text_of(*description),
            ) == Some((nums@, noticed@, described@)),
            Err(_) => description_of(
                html@,
                selector@,
                crate::patterns::text_of(*notice),
                crate::patterns::text_of(*description),
            ) is None,
        },
{
    let nums = match find_inside(html, selector, "div.nums > span") {
        Ok(f) => f,
        Err(e) => {
            return Err(e);
        },
    };
    let described = match find_inside(html, selector, "div.book-dec>p") {
        Ok(f) => f,
        Err(e) => {
            return Err(e);
        },
    };
    let noticed = match find_inside(html, selector, "div.notice") {
        Ok(f) => f,
        Err(e) => {
            return Err(e);
        },
    };
    let parts = trim_all(&nums);
    assert(texts(parts@).len() == parts@.len());
    assert(trimmed_texts(found_views(nums@)).len() == found_views(nums@).len());
    Ok((join(&parts, "\t"), render_first(&noticed, notice), render_first(&described, description)))
}

/// The address of a volume, from the link to it: the normal form of an
/// absolute address; the address on the site of one that is written from the
/// site's root; else the link as it is.
pub open spec fn volume_url(href: Seq<char>) -> Seq<char> {
    match url_normal(href) {
        Some(normal) => normal,
        None => if url_normal("https://www.linovelib.com"@ + href) is Some {
            "https://www.linovelib.com"@ + href
        } else {
            href
        },
    }
}

fn volume_address(href: &str) -> (r: String)
    ensures
        r@ == volume_url(href@),
{
    match normalize_url(href) {
        Ok(normal) => normal,
        Err(_) => {
            let mut full: Vec<char> = Vec::new();
            push_str(&mut full, "https://www.linovelib.com");
            push_str(&mut full, href);
            let on_site = string_of(&full);
            match normalize_url(on_site.as_str()) {
                Ok(_) => on_site,
                Err(_) => href.to_owned(),
            }
        },
    }
}

/// The address and the name of the volume that a link leads to.
pub open spec fn volume_of(link: FoundView) -> (Seq<char>, Seq<char>) {
    (volume_url(attr_or_empty(link.2, "href"@)), attr_or_empty(link.2, "title"@))
}

/// Whether the volumes are those that the links lead to, the last link
/// first, with nothing of them resolved yet.
pub open spec fn lists_volumes(volumes: Seq<Novel>, links: Seq<FoundView>) -> bool {
    &&& volumes.len() == links.len()
    &&& forall|i: int|
        0 <= i < links.len() ==> (#[trigger] volumes[i]@.url, volumes[i]@.name) == volume_of(
            links[links.len() - 1 - i],
        ) && volumes[i]@.chapters.len() == 0 && volumes[i]@.pending.len() == 0
}

/// The volumes that a page lists: one for each link inside the first element
/// that the selector finds, the last link first.
pub fn extract_volume(html: &str, selector: &str) -> (r: Result<Vec<Novel>, ExtractError>)
    ensures
        match r {
            Ok(volumes) => inside(html@, selector@, "a"@) matches Some(links) && lists_volumes(
                volumes@,
                links,
            ),
            Err(_) => inside(html@, selector@, "a"@) is None,
        },
{
    let links = match find_inside(html, selector, "a") {
        Ok(f) => f,
        Err(e) => {
            return Err(e);
        },
    };
    let n = links.len();
    let mut out: Vec<Novel> = Vec::new();
    let mut i: usize = 0;
    while i < n
        invariant
            i <= n,
            n == links@.len(),
            out@.len() == i,
            forall|k: int|
                0 <= k < i ==> (#[trigger] out@[k]@.url, out@[k]@.name) == volume_of(
                    found_views(links@)[n - 1 - k],
                ) && out@[k]@.chapters.len() == 0 && out@[k]@.pending.len() == 0,
        decreases n - i,
    {
        let link = &links[n - 1 - i];
        assert(found_views(links@)[n - 1 - i] == found_view(*link));
        let href = attribute(link, "href");
        let title = attribute(link, "title");
        out.push(Novel::new(volume_address(href.as_str()), title));
        i += 1;
    }
    Ok(out)
}

/// The address of the cover on the page of a volume: the attribute of the
/// first picture in the frame of the cover; empty where there is none.
pub open spec fn cover_of(html: Seq<char>) -> Option<Seq<char>> {
    match selected(html, "div.book-img>img"@) {
        Some(found) => if found.len() > 0 {
            Some(attr_or_empty(found[0].2, "data-original-src"@))
        } else {
            Some(Seq::empty())
        },
        None => None,
    }
}

/// The address of the cover on the page of a volume.
pub fn extract_cover(html: &str) -> (r: Result<String, ExtractError>)
    ensures
        match r {
            Ok(cover) => cover_of(html@) == Some(cover@),
            Err(_) => cover_of(html@) is None,
        },
{
    match select_all(html, "div.book-img>img") {
        Ok(found) => {
            if found.len() > 0 {
                assert(found_views(found@)[0] == found_view(found@[0]));
                Ok(attribute(&found[0], "data-original-src"))
            } else {
                Ok(String::new())
            }
        },
        Err(_) => Err(ExtractError::Selector),
    }
}

/// Whether the page of a book can be read: all that is looked for in it is
/// looked for with a selector.
pub open spec fn book_page_readable(html: Seq<char>) -> bool {
    &&& selected(html, "div.book-info>h1.book-name"@) is Some
    &&& selected(html, "div.au-name"@) is Some
    &&& description_of(html, "div.book-info"@, None, None) is Some
    &&& tags_of(html, "div.book-label"@) is Some
    &&& inside(html, "div.book-vol-chapter"@, "a"@) is Some
}

impl BiliNovel {
    /// Fills the book from its page: its name, its author, its numbers, its
    /// notice, its description, its tags and its volumes. The result says
    /// whether the page lists no volume, so that the catalog is to be asked. A
    /// page that cannot be read leaves the volumes as they were. `notice` and
    /// `description` are the plain texts that the renderer made of the markup
    /// that `description_markup` gives for the page.
    pub fn parser_book(
        &mut self,
        html: &str,
        notice: &Option<String>,
        description: &Option<String>,
    ) -> (r: Result<bool, ExtractError>)
        ensures
            final(self).url == old(self).url,
            final(self).catalog == old(self).catalog,
            final(self).index == old(self).index,
            final(self).config == old(self).config,
            match r {
                Ok(empty) => {
                    &&& selected(html@, "div.book-info>h1.book-name"@) matches Some(name)
                        && final(self).book_name@ == first_text(name)
                    &&& selected(html@, "div.au-name"@) matches Some(author) && final(self).author@ == first_text(author)
                    &&& description_of(
                        html@,
                        "div.book-info"@,
                        crate::patterns::text_of(*notice),
                        crate::patterns::text_of(*description),
                    ) == Some((final(self).nums@, final(self).notice@, final(self).description@))
                    &&& final(self).tags is Some && tags_of(html@, "div.book-label"@) == Some(
                        final(self).tags->Some_0@,
                    )
                    &&& inside(html@, "div.book-vol-chapter"@, "a"@) matches Some(links)
                        && lists_volumes(final(self).volume@, links)
                    &&& empty == (final(self).volume@.len() == 0)
                },
                Err(_) => final(self).volume == old(self).volume && !book_page_readable(html@),
            },
    {
        let name = match extract_author(html, "div.book-info>h1.book-name") {
            Ok(n) => n,
            Err(e) => {
                return Err(e);
            },
        };
        self.book_name = name;
        let author = match extract_author(html, "div.au-name") {
            Ok(a) => a,
            Err(e) => {
                return Err(e);
            },
        };
        self.author = author;
        let (nums, noticed, described) = match extract_description(
            html,
            "div.book-info",
            notice,
            description,
        ) {
            Ok(d) => d,
            Err(e) => {
                return Err(e);
            },
        };
        self.nums = nums;
        self.notice = noticed;
        self.description = described;
        let tags = match extract_tags(html, "div.book-label") {
            Ok(t) => t,
            Err(e) => {
                return Err(e);
            },
        };
        self.tags = Some(tags);
        let volumes = match extract_volume(html, "div.book-vol-chapter") {
            Ok(v) => v,
            Err(e) => {
                return Err(e);
            },
        };
        self.volume = volumes;
        Ok(self.volume.len() == 0)
    }
}

/// The selector of the list of chapters on the page of a volume.
pub const CHAPTER_LIST: &'static str = "div.book-new-chapter";

/// What a list of links holds: for each link its address, if it has one, and
/// its text.
pub open spec fn link_views(v: Seq<(Option<String>, String)>) -> Seq<(Option<Seq<char>>, Seq<char>)> {
    v.map_values(|l: (Option<String>, String)| (crate::patterns::text_of(l.0), l.1@))
}

/// The chapter that a link leads to: its address, or none, and its title;
/// nothing of it is fetched yet.
pub open spec fn chapter_of(link: (Option<Seq<char>>, Seq<char>)) -> ChapterView {
    ChapterView::unfetched(
        match link.0 {
            Some(h) => h,
            None => Seq::empty(),
        },
        link.1,
    )
}

/// The chapters that the links of a volume's chapter list lead to, in the
/// order of the links. The caller reads the links from the page: for each
/// child of the chapter list, the address and the text of its first child.
pub fn build_chapter(links: &Vec<(Option<String>, String)>) -> (r: Vec<Chapter>)
    ensures
        chapter_views(r@) == link_views(links@).map_values(
            |l: (Option<Seq<char>>, Seq<char>)| chapter_of(l),
        ),
{
    let mut out: Vec<Chapter> = Vec::new();
    let mut i: usize = 0;
    while i < links.len()
        invariant
            i <= links@.len(),
            out@.len() == i,
            forall|k: int| 0 <= k < i ==> out@[k]@ == chapter_of(link_views(links@)[k]),
        decreases links@.len() - i,
    {
        let link = &links[i];
        let ghost before = out@;
        let chapter = match &link.0 {
            Some(href) => Chapter::new(href.as_str(), link.1.as_str()),
            None => {
                proof {
                    reveal_strlit("");
                    assert(""@ =~= Seq::<char>::empty());
                }
                Chapter::new("", link.1.as_str())
            },
        };
        assert(link_views(links@)[i as int].1 == link.1@);
        assert(chapter@ == chapter_of(link_views(links@)[i as int]));
        out.push(chapter);
        assert forall|k: int| 0 <= k < i + 1 implies out@[k]@ == chapter_of(
            link_views(links@)[k],
        ) by {
            if k < i {
                assert(out@[k] == before[k]);
            }
        }
        i += 1;
    }
    assert(chapter_views(out@) =~= link_views(links@).map_values(
        |l: (Option<Seq<char>>, Seq<char>)| chapter_of(l),
    ));
    out
}

/// The picture that an image shows in the package, given the name of the
/// file that its address ends in: the file of that name among the package's
/// images, or the picture for a missing asset where the address names no
/// file.
pub open spec fn image_source_of(file_name: Option<Seq<char>>) -> Seq<char> {
    match file_name {
        Some(name) if name.len() > 0 => "images/"@ + name,
        _ => BROKEN_IMAGE_BASE64@,
    }
}

/// The picture that an image shows in the package, given the name of the
/// file that its address ends in.
pub fn image_source(file_name: Option<String>) -> (r: String)
    ensures
        r@ == image_source_of(crate::patterns::text_of(file_name)),
{
    match file_name {
        Some(name) => {
            if name.as_str().unicode_len() > 0 {
                let mut out: Vec<char> = Vec::new();
                push_str(&mut out, "images/");
                push_str(&mut out, name.as_str());
                string_of(&out)
            } else {
                BROKEN_IMAGE_BASE64.to_owned()
            }
        },
        None => BROKEN_IMAGE_BASE64.to_owned(),
    }
}

/// What is to be done with an image of a chapter's text.
#[derive(Debug)]
pub struct ImageChange {
    /// The picture that the image is to show, if that changes.
    pub src: Option<String>,
    /// The asset address that the chapter refers to with the image, if it
    /// names one.
    pub record: Option<String>,
}

/// `Path::file_name` of std, as a string: the last part of a path, in the
/// form of the machine's paths. Where there is one, it is not empty and it
/// stands in the path.
#[verifier::external_body]
fn file_name(path: &str) -> (r: Option<String>)
    ensures
        r matches Some(name) ==> name@.len() > 0 && crate::text::first_match(path@, name@) is Some,
{
    std::path::Path::new(path).file_name().and_then(|n| n.to_str()).map(|n| n.to_string())
}

/// Whether a picture is one that `image_rewrite` may give an image with the
/// given attribute.
pub open spec fn source_allowed(attribute: (bool, Option<Seq<char>>), source: Option<Seq<char>>) -> bool {
    if !attribute.0 {
        source == Some(BROKEN_IMAGE_BASE64@)
    } else if attribute.1 is None {
        source is None
    } else {
        match url_normal(attribute.1->Some_0) {
            None => source == Some(BROKEN_IMAGE_BASE64@),
            Some(normal) => source is Some && (source->Some_0 == BROKEN_IMAGE_BASE64@
                || exists|name: Seq<char>|
                name.len() > 0 && crate::text::first_match(normal, name) is Some
                    && source->Some_0 == "images/"@ + name),
        }
    }
}

/// What is to be done with an image, given whether it has the attribute
/// that names its asset and the value of that attribute. An image without the
/// attribute shows the picture for a missing asset. One with an attribute
/// that has a value refers to the asset of that address; it shows the file
/// that the normal form of the address ends in, or the picture for a missing
/// asset where the value is no absolute address or names no file. One with
/// an attribute without a value stays as it is.
pub fn image_rewrite(has_attr: bool, value: Option<String>) -> (r: ImageChange)
    ensures
        source_allowed((has_attr, crate::patterns::text_of(value)), crate::patterns::text_of(r.src)),
        r.record == if has_attr {
            value
        } else {
            None
        },
{
    if !has_attr {
        return ImageChange { src: Some(BROKEN_IMAGE_BASE64.to_owned()), record: None };
    }
    match value {
        None => ImageChange { src: None, record: None },
        Some(address) => {
            match normalize_url(address.as_str()) {
                Ok(normal) => {
                    let name = file_name(normal.as_str());
                    let ghost found = crate::patterns::text_of(name);
                    let src = image_source(name);
                    assert(src@ == image_source_of(found));
                    ImageChange { src: Some(src), record: Some(address) }
                },
                Err(_) => ImageChange {
                    src: Some(BROKEN_IMAGE_BASE64.to_owned()),
                    record: Some(address),
                },
            }
        },
    }
}

/// The selector of the text of a chapter on its page.
pub const TEXT_CONTENT: &'static str = "div#TextContent";

/// The attribute that names the asset of an image.
pub const ASSET_ATTRIBUTE: &'static str = "data-original-src";

/// The selectors of what is taken out of the text of a chapter: what the
/// capture has hidden, and what the site has put between the paragraphs.
pub open spec fn hidden_parts_of() -> Seq<Seq<char>> {
    seq![
        "p.sf-hidden"@,
        "div.dag"@,
        "center#show-more-images"@,
        "div.google-auto-placed"@,
        "div.ap_container"@,
    ]
}

/// The selectors of what is taken out of the text of a chapter.
pub fn hidden_parts() -> (r: Vec<String>)
    ensures
        texts(r@) == hidden_parts_of(),
{
    let mut parts: Vec<String> = Vec::new();
    parts.push("p.sf-hidden".to_owned());
    parts.push("div.dag".to_owned());
    parts.push("center#show-more-images".to_owned());
    parts.push("div.google-auto-placed".to_owned());
    parts.push("div.ap_container".to_owned());
    assert(texts(parts@) =~= hidden_parts_of());
    parts
}

/// What a list of attributes holds.
pub open spec fn attribute_views(v: Seq<(bool, Option<String>)>) -> Seq<(bool, Option<Seq<char>>)> {
    v.map_values(|a: (bool, Option<String>)| (a.0, crate::patterns::text_of(a.1)))
}

/// What a list of pictures holds.
pub open spec fn source_views(v: Seq<Option<String>>) -> Seq<Option<Seq<char>>> {
    v.map_values(|s: Option<String>| crate::patterns::text_of(s))
}

/// The asset addresses that images with the first `n` of the attributes
/// refer to: the values of the attributes that have one.
pub open spec fn recorded(attributes: Seq<(bool, Option<Seq<char>>)>, n: nat) -> Seq<Seq<char>>
    decreases n,
{
    if n == 0 {
        Seq::empty()
    } else if attributes[n - 1].0 && attributes[n - 1].1 is Some {
        recorded(attributes, (n - 1) as nat).push(attributes[n - 1].1->Some_0)
    } else {
        recorded(attributes, (n - 1) as nat)
    }
}

/// The asset addresses that the images of a chapter's text refer to, and
/// the picture that each image is to show in the package. The caller reads
/// from the page, for each image of the chapter's text in the order of the
/// page, whether it has the attribute that names its asset and the value of
/// that attribute; and sets, for each image for which the second list holds
/// a picture, the picture that it shows.
pub fn extract_chapter(attributes: &Vec<(bool, Option<String>)>) -> (r: (Vec<String>, Vec<Option<String>>))
    ensures
        texts(r.0@) == recorded(attribute_views(attributes@), attributes@.len()),
        r.1@.len() == attributes@.len(),
        forall|i: int|
            0 <= i < attributes@.len() ==> source_allowed(
                attribute_views(attributes@)[i],
                #[trigger] source_views(r.1@)[i],
            ),
{
    let ghost all = attribute_views(attributes@);
    let mut images: Vec<String> = Vec::new();
    let mut sources: Vec<Option<String>> = Vec::new();
    let mut i: usize = 0;
    assert(texts(images@) =~= recorded(all, 0));
    while i < attributes.len()
        invariant
            i <= attributes@.len(),
            all == attribute_views(attributes@),
            sources@.len() == i,
            texts(images@) == recorded(all, i as nat),
            forall|k: int| 0 <= k < i ==> source_allowed(all[k], #[trigger] source_views(sources@)[k]),
        decreases attributes@.len() - i,
    {
        let attribute = &attributes[i];
        assert(all[i as int] == (attribute.0, crate::patterns::text_of(attribute.1)));
        let value = match &attribute.1 {
            Some(v) => Some(v.clone()),
            None => None,
        };
        let change = image_rewrite(attribute.0, value);
        let ghost before = texts(images@);
        let ghost pictures = source_views(sources@);
        match change.record {
            Some(address) => {
                images.push(address);
                assert(texts(images@) =~= before.push(all[i as int].1->Some_0));
            },
            None => {},
        }
        sources.push(change.src);
        assert forall|k: int| 0 <= k < i + 1 implies source_allowed(
            all[k],
            #[trigger] source_views(sources@)[k],
        ) by {
            if k < i {
                assert(source_views(sources@)[k] == pictures[k]);
            }
        }
        i += 1;
    }
    (images, sources)
}

/// One captured page of a chapter, read: its asset addresses, and its text,
/// which is the markup of the chapter's text without white space at its
/// ends. A page whose markup could not be had was not read.
pub fn read_page(origin: Option<String>, images: Vec<String>, markup: Option<String>) -> (r:
    PageCapture)
    ensures
        r.origin == origin,
        match markup {
            Some(m) => r.extracted is Some && r.extracted->Some_0.images == images
                && r.extracted->Some_0.text@ == trimmed(m@),
            None => r.extracted is None,
        },
{
    match markup {
        Some(m) => PageCapture {
            origin,
            extracted: Some(Extracted { images, text: trim_text(m.as_str()) }),
        },
        None => PageCapture { origin, extracted: None },
    }
}

/// What the page of a volume says, where it can be read, given what the
/// renderer made of the markup of its description and the links of its
/// chapter list.
pub open spec fn volume_page_of(
    html: Seq<char>,
    description: Option<Seq<char>>,
    links: Seq<(Option<Seq<char>>, Seq<char>)>,
) -> Option<CatalogView> {
    match (
        selected(html, "div.au-name"@),
        description_of(html, "div.book-info"@, None, description),
        tags_of(html, "div.book-label"@),
        cover_of(html),
    ) {
        (Some(author), Some(d), Some(tags), Some(cover)) => Some(
            CatalogView {
                author: first_text(author),
                description: d.2,
                tags: Some(tags),
                cover,
                chapters: links.map_values(|l: (Option<Seq<char>>, Seq<char>)| chapter_of(l)),
            },
        ),
        _ => None,
    }
}

impl BiliNovel {
    /// What the page of a volume says: its author, its description, its
    /// tags, its cover and its chapters. `description` is the plain text that
    /// the renderer made of the markup that `description_markup` gives for the
    /// page, and `links` are the links of the page's chapter list.
    pub fn parse_volume_page(
        html: &str,
        description: &Option<String>,
        links: &Vec<(Option<String>, String)>,
    ) -> (r: Result<CatalogPage, ExtractError>)
        ensures
            match r {
                Ok(page) => volume_page_of(
                    html@,
                    crate::patterns::text_of(*description),
                    link_views(links@),
                ) == Some(page@),
                Err(_) => volume_page_of(
                    html@,
                    crate::patterns::text_of(*description),
                    link_views(links@),
                ) is None,
            },
    {
        let author = match extract_author(html, "div.au-name") {
            Ok(a) => a,
            Err(e) => {
                return Err(e);
            },
        };
        let (_nums, _notice, described) = match extract_description(
            html,
            "div.book-info",
            &None,
            description,
        ) {
            Ok(d) => d,
            Err(e) => {
                return Err(e);
            },
        };
        let tags = match extract_tags(html, "div.book-label") {
            Ok(t) => t,
            Err(e) => {
                return Err(e);
            },
        };
        let cover = match extract_cover(html) {
            Ok(c) => c,
            Err(e) => {
                return Err(e);
            },
        };
        let chapters = build_chapter(links);
        Ok(CatalogPage { author, description: described, tags: Some(tags), cover, chapters })
    }
}

} // verus!
