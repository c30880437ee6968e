//! Packaging a fetched volume as a book: the texts that go into the
//! package. Writing the package itself is the caller's.

use crate::assets::ImageData;
use crate::assets::ImageMap;
use crate::assets::ImageView;
use crate::volume::TagsView;
use crate::patterns::regex_replaced;
use crate::patterns::replace_all;
use crate::text::chars_of;
use crate::text::decimal;
use crate::text::find_chars_from;
use crate::text::first_match;
use crate::text::lowercase;
use crate::text::lowercase_of;
use crate::text::push_all;
use crate::text::push_decimal;
use crate::text::push_str;
use crate::text::string_of;
use crate::text::strip_chars;
use crate::text::trimmed;
use crate::text::Strip;
use crate::volume::texts;
use crate::volume::Chapter;
use crate::volume::ChapterView;
use crate::volume::Novel;
use vstd::prelude::*;

verus! {

/// The picture that stands in place of an asset that is missing.
pub const BROKEN_IMAGE_BASE64: &'static str = "data:image/svg+xml;base64,PHN2ZyB3aWR0aD0iMTAwIiBoZWlnaHQ9IjEwMCIgeG1sbnM9Imh0dHA6Ly93d3cudzMub3JnLzIwMDAvc3ZnIj48cmVjdCB3aWR0aD0iMTAwIiBoZWlnaHQ9IjEwMCIgZmlsbD0iI2ZmZiIvPjxjaXJjbGUgY3g9IjUwIiBjeT0iNTAiIHI9IjQwIiBmaWxsPSIjNzc3Ii8+PHBhdGggZD0iTTMwIDMwIEw3MCA3MCIgc3Ryb2tlPSIjMzMzIiBzdHJva2Utd2lkdGg9IjUiLz48cGF0aCBkPSJNMzAgNzAgTDcwIDMwIiBzdHJva2U9IiMzMzMiIHN0cm9rZS13aWR0aD0iNSIvPjwvc3ZnPg==";

/// The style sheet of a book that brings none of its own.
pub const DEFAULT_CSS: &'static str = r#"
    body {
        font-family: "Noto Serif", "SimSun", serif;
        font-size: 1em;
        line-height: 1.8;
        margin: 0;
        padding: 1em;
        text-align: justify;
        color: #333;
        background-color: #fff;
    }
    h1 {
        font-size: 1.3em;
        text-align: center;
        margin: 1.5em 0 1em;
        padding-bottom: 0.5em;
        border-bottom: 1px solid #e0e0e0;
        font-weight: bold;
        color: #222;
    }
    .toc-title {
        text-align: center;
        font-size: 1.5em;
        margin-bottom: 1.2em;
        font-weight: bold;
        color: #222;
    }
    .toc-list {
        list-style-type: none;
        padding: 0;
        margin: 0;
    }
    .toc-item {
        margin: 0.6em 0;
        border-bottom: 1px dashed #e0e0e0;
    }
    .toc-link {
        text-decoration: none;
        color: #1a5fb4;
        display: block;
        padding: 0.4em 0.8em;
        transition: background-color 0.2s ease;
        font-size: 0.95em;
    }
    .toc-link:hover {
        background-color: #f8f8f8;
        color: #00468b;
    }
    img {
        max-width: 95%;
        height: auto;
        display: block;
        margin: 1em auto;
        border-radius: 3px;
        box-shadow: 0 2px 5px rgba(0,0,0,0.1);
    }
    p {
        margin: 1.2em 0;
        text-indent: 2em;
        text-align: justify;
        hyphens: auto;
    }
    .cover-image {
        display: block;
        max-width: 80%;
        height: auto;
        margin: 2em auto;
        border-radius: 5px;
        box-shadow: 0 4px 10px rgba(0,0,0,0.15);
    }
    @media (prefers-color-scheme: dark) {
        body {
            color: #ddd;
            background-color: #1a1a1a;
        }
        h1, .toc-title {
            color: #eee;
            border-bottom-color: #444;
        }
        .toc-item {
            border-bottom-color: #444;
        }
        .toc-link {
            color: #4eb2ff;
        }
        .toc-link:hover {
            background-color: #2a2a2a;
            color: #7ac2ff;
        }
    }
"#;

/// The text that stands for a character in XML.
pub open spec fn escaped_char(c: char) -> Seq<char> {
    if c == '&' {
        "&amp;"@
    } else if c == '<' {
        "&lt;"@
    } else if c == '>' {
        "&gt;"@
    } else if c == '"' {
        "&quot;"@
    } else if c == '\'' {
        "&apos;"@
    } else {
        seq![c]
    }
}

/// The text with the five characters that XML reserves written as
/// entities.
pub open spec fn escaped(s: Seq<char>) -> Seq<char>
    decreases s.len(),
{
    if s.len() == 0 {
        Seq::empty()
    } else {
        escaped(s.drop_last()) + escaped_char(s.last())
    }
}

/// The text with the five characters that XML reserves written as
/// entities.
pub fn escape_xml(s: &str) -> (r: String)
    ensures
        r@ == escaped(s@),
{
    let text = chars_of(s);
    let mut out: Vec<char> = Vec::new();
    let mut i: usize = 0;
    assert(text@.take(0) =~= Seq::<char>::empty());
    while i < text.len()
        invariant
            i <= text@.len(),
            out@ == escaped(text@.take(i as int)),
        decreases text@.len() - i,
    {
        let c = text[i];
        assert(text@.take(i + 1).drop_last() =~= text@.take(i as int));
        assert(text@.take(i + 1).last() == c);
        if c == '&' {
            push_str(&mut out, "&amp;");
        } else if c == '<' {
            push_str(&mut out, "&lt;");
        } else if c == '>' {
            push_str(&mut out, "&gt;");
        } else if c == '"' {
            push_str(&mut out, "&quot;");
        } else if c == '\'' {
            push_str(&mut out, "&apos;");
        } else {
            out.push(c);
            assert(out@ =~= escaped(text@.take(i as int)) + seq![c]);
        }
        i += 1;
    }
    assert(text@.take(text@.len() as int) =~= text@);
    string_of(&out)
}

/// The tag that a self-closing tag with the given name and attributes is
/// rewritten to.
pub open spec fn self_closing_of(name: Seq<char>, attrs: Seq<char>) -> Seq<char> {
    "<"@ + lowercase_of(name) + " "@ + trimmed(attrs) + " />"@
}

/// The tag that a self-closing tag with the given name and attributes is
/// rewritten to: the name in lower case, the attributes without white space
/// around them, and a closing slash.
pub fn self_closing_tag(name: &str, attrs: &str) -> (r: String)
    ensures
        r@ == self_closing_of(name@, attrs@),
{
    let lower = lowercase(name);
    let text = chars_of(attrs);
    let bare = strip_chars(&text, 0, Strip::WhiteSpace);
    assert(text@.subrange(0, text@.len() as int) =~= text@);
    let mut out: Vec<char> = Vec::new();
    push_str(&mut out, "<");
    push_str(&mut out, lower.as_str());
    push_str(&mut out, " ");
    push_all(&mut out, &bare);
    push_str(&mut out, " />");
    string_of(&out)
}

/// The opening tag of the document that one with the given attributes is
/// rewritten to.
pub open spec fn html_tag_of(attrs: Seq<char>) -> Seq<char> {
    if first_match(attrs, "xmlns="@) is Some {
        "<html "@ + attrs + ">"@
    } else {
        "<html xmlns=\"http://www.w3.org/1999/xhtml\" "@ + attrs + ">"@
    }
}

/// The opening tag of the document that one with the given attributes is
/// rewritten to: it names the XHTML namespace unless it names one already.
pub fn html_open_tag(attrs: &str) -> (r: String)
    ensures
        r@ == html_tag_of(attrs@),
{
    let text = chars_of(attrs);
    let marker = chars_of("xmlns=");
    let mut out: Vec<char> = Vec::new();
    if find_chars_from(&text, &marker, 0).is_some() {
        push_str(&mut out, "<html ");
    } else {
        push_str(&mut out, "<html xmlns=\"http://www.w3.org/1999/xhtml\" ");
    }
    push_all(&mut out, &text);
    push_str(&mut out, ">");
    string_of(&out)
}

/// What the regex crate makes of a text in which every match of the pattern
/// is replaced by `self_closing_tag` of its second group and of its third, or
/// of nothing where the third took no part: nothing where the pattern is no
/// regular expression.
pub uninterp spec fn self_closed(pattern: Seq<char>, text: Seq<char>) -> Option<Seq<char>>;

/// What the regex crate makes of a text in which every match of the pattern
/// is replaced by `html_open_tag` of its first group: nothing where the
/// pattern is no regular expression.
pub uninterp spec fn namespaced(pattern: Seq<char>, text: Seq<char>) -> Option<Seq<char>>;

/// `Regex::new`, then `Regex::replace_all` of the regex crate with
/// `self_closing_tag` as the replacer. A pattern with fewer than two groups
/// is left out: the replacer reads the second.
#[verifier::external_body]
fn close_tags(pattern: &str, text: &str) -> (r: Result<String, regex::Error>)
    requires
        pattern@ == SELF_CLOSING@,
    ensures
        match r {
            Ok(out) => self_closed(pattern@, text@) == Some(out@),
            Err(_) => self_closed(pattern@, text@) is None,
        },
{
    let regex = regex::Regex::new(pattern)?;
    Ok(
        regex.replace_all(
            text,
            |c: &regex::Captures| self_closing_tag(&c[2], c.get(3).map_or("", |m| m.as_str())),
        ).into_owned(),
    )
}

/// `Regex::new`, then `Regex::replace_all` of the regex crate with
/// `html_open_tag` as the replacer. A pattern without a group is left out:
/// the replacer reads the first.
#[verifier::external_body]
fn name_space(pattern: &str, text: &str) -> (r: Result<String, regex::Error>)
    requires
        pattern@ == HTML_TAG@,
    ensures
        match r {
            Ok(out) => namespaced(pattern@, text@) == Some(out@),
            Err(_) => namespaced(pattern@, text@) is None,
        },
{
    let regex = regex::Regex::new(pattern)?;
    Ok(regex.replace_all(text, |c: &regex::Captures| html_open_tag(&c[1])).into_owned())
}

/// The pattern of a document type declaration.
pub const DOCTYPE: &'static str = r"(?i)<!DOCTYPE\s+html\b[^>]*>";

/// The pattern of a tag that has no content.
pub const SELF_CLOSING: &'static str = r"(?i)<(\s*)(meta|link|img|br|hr|input)(\s+[^>]*?)?(\s*)/?(\s*)>";

/// The pattern of the opening tag of a document.
pub const HTML_TAG: &'static str = r"(?i)<html\b([^>]*?)>";

/// The pattern of a script.
pub const SCRIPT: &'static str = r"(?is)<script\b[^>]*>.*?</script>";

/// Why a text could not be cleaned.
#[derive(Clone, Copy, Debug, PartialEq, Eq, Structural)]
pub enum HtmlError {
    /// One of the patterns is no regular expression.
    Pattern,
}

/// The text as XHTML takes it: without document type declarations, with the
/// tags that have no content closed, with the namespace on the document's
/// opening tag, and without scripts.
pub open spec fn cleaned(html: Seq<char>) -> Option<Seq<char>> {
    match regex_replaced(DOCTYPE@, html, ""@) {
        Some(a) => match self_closed(SELF_CLOSING@, a) {
            Some(b) => match namespaced(HTML_TAG@, b) {
                Some(c) => regex_replaced(SCRIPT@, c, ""@),
                None => None,
            },
            None => None,
        },
        None => None,
    }
}

/// The text as XHTML takes it.
pub fn clean_html(html: &str) -> (r: Result<String, HtmlError>)
    ensures
        match r {
            Ok(out) => cleaned(html@) == Some(out@),
            Err(_) => cleaned(html@) is None,
        },
{
    let a = match replace_all(DOCTYPE, html, "") {
        Ok(a) => a,
        Err(_) => {
            return Err(HtmlError::Pattern);
        },
    };
    let b = match close_tags(SELF_CLOSING, a.as_str()) {
        Ok(b) => b,
        Err(_) => {
            return Err(HtmlError::Pattern);
        },
    };
    let c = match name_space(HTML_TAG, b.as_str()) {
        Ok(c) => c,
        Err(_) => {
            return Err(HtmlError::Pattern);
        },
    };
    match replace_all(SCRIPT, c.as_str(), "") {
        Ok(d) => Ok(d),
        Err(_) => Err(HtmlError::Pattern),
    }
}

/// The text blocks one after the other.
pub open spec fn joined(blocks: Seq<Seq<char>>) -> Seq<char>
    decreases blocks.len(),
{
    if blocks.len() == 0 {
        Seq::empty()
    } else {
        joined(blocks.drop_last()) + blocks.last()
    }
}

/// The document of a chapter with the given title and the given body.
pub open spec fn chapter_document(title: Seq<char>, body: Seq<char>) -> Seq<char> {
    "<!DOCTYPE html>\n<html xmlns=\"http://www.w3.org/1999/xhtml\">\n<head>\n    <title>"@
        + escaped(title)
        + "</title>\n    <meta charset=\"UTF-8\" />\n    <link rel=\"stylesheet\" type=\"text/css\" href=\"styles.css\" />\n</head>\n<body>\n    <h1>"@
        + escaped(title) + "</h1>\n    "@ + body + "\n</body>\n</html>"@
}

/// The digits of a number, with zeros before them where they are fewer than
/// three.
pub open spec fn three_digits(n: nat) -> Seq<char> {
    if n < 10 {
        "00"@ + decimal(n)
    } else if n < 100 {
        "0"@ + decimal(n)
    } else {
        decimal(n)
    }
}

/// The name of the file of the chapter with the given index.
pub open spec fn chapter_file_of(index: nat) -> Seq<char> {
    "chapter_"@ + three_digits(index + 1) + ".xhtml"@
}

/// The name of the file of the chapter with the given index, counted from
/// zero: the files are numbered from one.
pub fn chapter_file_name(index: usize) -> (r: String)
    requires
        index < usize::MAX,
    ensures
        r@ == chapter_file_of(index as nat),
{
    let n = (index + 1) as u64;
    let mut out: Vec<char> = Vec::new();
    push_str(&mut out, "chapter_");
    if n < 10 {
        push_str(&mut out, "00");
    } else if n < 100 {
        push_str(&mut out, "0");
    }
    push_decimal(&mut out, n);
    push_str(&mut out, ".xhtml");
    let r = string_of(&out);
    assert(r@ =~= chapter_file_of(index as nat));
    r
}

/// The entry of a chapter in the table of contents.
pub open spec fn toc_entry(index: nat, title: Seq<char>) -> Seq<char> {
    "<li class=\"toc-item\"><a class=\"toc-link\" href=\""@ + chapter_file_of(index) + "\">"@
        + escaped(title) + "</a></li>"@
}

/// The entries of the first `n` chapters in the table of contents.
pub open spec fn toc_entries(chapters: Seq<ChapterView>, n: nat) -> Seq<char>
    decreases n,
{
    if n == 0 {
        Seq::empty()
    } else {
        toc_entries(chapters, (n - 1) as nat) + toc_entry((n - 1) as nat, chapters[n - 1].title)
    }
}

/// The document of the table of contents of the given chapters.
pub open spec fn toc_document(chapters: Seq<ChapterView>) -> Seq<char> {
    "<!DOCTYPE html>\n<html xmlns=\"http://www.w3.org/1999/xhtml\">\n<head>\n    <title>目录</title>\n    <link rel=\"stylesheet\" type=\"text/css\" href=\"styles.css\" />\n</head>\n<body>\n    <h1 class=\"toc-title\">目录</h1>\n    <ul class=\"toc-list\">"@
        + toc_entries(chapters, chapters.len()) + "</ul>\n</body>\n</html>"@
}

/// The subjects that tags give a package: the state, unless it is empty,
/// then the labels, then the further marks.
pub open spec fn subjects_of(tags: Option<TagsView>) -> Seq<Seq<char>> {
    match tags {
        Some(t) => (if t.state.len() > 0 {
            seq![t.state]
        } else {
            Seq::empty()
        }) + t.label + t.span,
        None => Seq::empty(),
    }
}

/// An asset that goes into the package: its path there, and its address.
#[derive(Debug)]
pub struct PackagedImage {
    pub path: String,
    pub url: String,
}

/// The path and the address of a packaged asset.
pub type Packaged = (Seq<char>, Seq<char>);

/// The paths and addresses of a list of packaged assets.
pub open spec fn packaged_views(v: Seq<PackagedImage>) -> Seq<Packaged> {
    v.map_values(|p: PackagedImage| (p.path@, p.url@))
}

/// Whether one of the packaged assets has the given path.
pub open spec fn has_path(plan: Seq<Packaged>, path: Seq<char>) -> bool {
    exists|i: int| 0 <= i < plan.len() && plan[i].0 == path
}

/// The packaged assets after one more address that a chapter refers to. The
/// cover is packaged on its own; an asset that the store lacks is left out; so
/// is one whose file is packaged already.
pub open spec fn plan_with(
    plan: Seq<Packaged>,
    url: Seq<char>,
    cover: Seq<char>,
    store: Map<Seq<char>, ImageView>,
) -> Seq<Packaged> {
    if url == cover || !store.contains_key(url) || has_path(plan, "images/"@ + store[url].filename) {
        plan
    } else {
        plan.push(("images/"@ + store[url].filename, url))
    }
}

/// The packaged assets after the first `n` addresses of a list.
pub open spec fn plan_after(
    plan: Seq<Packaged>,
    image: Seq<Seq<char>>,
    n: nat,
    cover: Seq<char>,
    store: Map<Seq<char>, ImageView>,
) -> Seq<Packaged>
    decreases n,
{
    if n == 0 {
        plan
    } else {
        plan_with(plan_after(plan, image, (n - 1) as nat, cover, store), image[n - 1], cover, store)
    }
}

/// The assets that the first `n` chapters bring into the package.
pub open spec fn package_plan(
    chapters: Seq<ChapterView>,
    n: nat,
    cover: Seq<char>,
    store: Map<Seq<char>, ImageView>,
) -> Seq<Packaged>
    decreases n,
{
    if n == 0 {
        Seq::empty()
    } else {
        plan_after(
            package_plan(chapters, (n - 1) as nat, cover, store),
            chapters[n - 1].image,
            chapters[n - 1].image.len(),
            cover,
            store,
        )
    }
}

/// Makes the texts of the package of one volume.
pub struct EpubGenerator<'a> {
    pub novel: &'a Novel,
    pub images: &'a ImageMap,
    pub css: Option<String>,
}

impl<'a> EpubGenerator<'a> {
    /// A generator for the volume and its assets, with the style sheet of
    /// the library.
    pub fn new(novel: &'a Novel, images: &'a ImageMap) -> (r: Self)
        ensures
            r.novel == novel,
            r.images == images,
            r.css is None,
    {
        EpubGenerator { novel, images, css: None }
    }

    /// The generator with a style sheet of the caller's.
    pub fn with_css(self, css: String) -> (r: Self)
        ensures
            r.novel == self.novel,
            r.images == self.images,
            r.css == Some(css),
    {
        let mut generator = self;
        generator.css = Some(css);
        generator
    }

    /// The style sheet of the package: the caller's, or the library's.
    pub fn stylesheet(&self) -> (r: &str)
        ensures
            r@ == match self.css {
                Some(css) => css@,
                None => DEFAULT_CSS@,
            },
    {
        match &self.css {
            Some(css) => css.as_str(),
            None => DEFAULT_CSS,
        }
    }

    /// The subjects of the package.
    pub fn subjects(&self) -> (r: Vec<String>)
        ensures
            texts(r@) == subjects_of(self.novel@.tags),
    {
        let mut out: Vec<String> = Vec::new();
        match &self.novel.tags {
            Some(tags) => {
                if tags.state.as_str().unicode_len() > 0 {
                    out.push(tags.state.clone());
                }
                crate::volume::append_strings(&mut out, &tags.label);
                crate::volume::append_strings(&mut out, &tags.span);
                assert(texts(out@) =~= subjects_of(self.novel@.tags));
            },
            None => {
                assert(texts(out@) =~= subjects_of(self.novel@.tags));
            },
        }
        out
    }

    /// The record of the cover, if the store has it.
    pub fn cover_image(&self) -> (r: Option<&ImageData>)
        requires
            self.images.wf(),
        ensures
            match r {
                Some(image) => self.images@.contains_key(self.novel@.cover) && image@
                    == self.images@[self.novel@.cover],
                None => !self.images@.contains_key(self.novel@.cover),
            },
    {
        self.images.get(self.novel.cover.as_str())
    }

    /// The assets that the chapters bring into the package, in the order in
    /// which the chapters refer to them: each file once, without the cover and
    /// without what the store lacks.
    pub fn chapter_images(&self) -> (r: Vec<PackagedImage>)
        requires
            self.images.wf(),
        ensures
            packaged_views(r@) == package_plan(
                self.novel@.chapters,
                self.novel@.chapters.len(),
                self.novel@.cover,
                self.images@,
            ),
    {
        let mut plan: Vec<PackagedImage> = Vec::new();
        let n = self.novel.chapters.len();
        let ghost chapters = self.novel@.chapters;
        let ghost cover = self.novel@.cover;
        let ghost store = self.images@;
        let mut i: usize = 0;
        assert(packaged_views(plan@) =~= package_plan(chapters, 0, cover, store));
        while i < n
            invariant
                i <= n,
                n == self.novel.chapters@.len(),
                self.images.wf(),
                chapters == self.novel@.chapters,
                cover == self.novel@.cover,
                store == self.images@,
                packaged_views(plan@) == package_plan(chapters, i as nat, cover, store),
            decreases n - i,
        {
            let chapter = &self.novel.chapters[i];
            assert(chapters[i as int] == chapter@);
            let ghost start = packaged_views(plan@);
            let ghost image = chapter@.image;
            let mut k: usize = 0;
            while k < chapter.image.len()
                invariant
                    k <= chapter.image@.len(),
                    self.images.wf(),
                    image == chapter@.image,
                    cover == self.novel@.cover,
                    store == self.images@,
                    packaged_views(plan@) == plan_after(start, image, k as nat, cover, store),
                decreases chapter.image@.len() - k,
            {
                let url = &chapter.image[k];
                assert(image[k as int] == url@);
                let ghost before = packaged_views(plan@);
                if !crate::text::str_eq(url.as_str(), self.novel.cover.as_str()) {
                    match self.images.get(url.as_str()) {
                        Some(record) => {
                            let mut path: Vec<char> = Vec::new();
                            push_str(&mut path, "images/");
                            push_str(&mut path, record.filename.as_str());
                            let path = string_of(&path);
                            let mut taken = false;
                            let mut j: usize = 0;
                            while j < plan.len()
                                invariant
                                    j <= plan@.len(),
                                    before == packaged_views(plan@),
                                    taken == exists|a: int| 0 <= a < j && before[a].0 == path@,
                                decreases plan@.len() - j,
                            {
                                assert(before[j as int].0 == plan@[j as int].path@);
                                if crate::text::str_eq(plan[j].path.as_str(), path.as_str()) {
                                    taken = true;
                                }
                                j += 1;
                            }
                            assert(taken == has_path(before, path@));
                            if !taken {
                                plan.push(PackagedImage { path, url: url.clone() });
                                assert(packaged_views(plan@) =~= before.push((path@, url@)));
                            }
                        },
                        None => {},
                    }
                }
                assert(packaged_views(plan@) == plan_with(before, url@, cover, store));
                k += 1;
            }
            i += 1;
        }
        plan
    }

    /// The document of a chapter: its title, and its text blocks one after
    /// the other, cleaned.
    pub fn build_chapter_content(&self, chapter: &Chapter) -> (r: Result<String, HtmlError>)
        ensures
            match r {
                Ok(out) => cleaned(joined(chapter@.context)) matches Some(body) && out@
                    == chapter_document(chapter@.title, body),
                Err(_) => cleaned(joined(chapter@.context)) is None,
            },
    {
        let mut text: Vec<char> = Vec::new();
        let mut i: usize = 0;
        assert(chapter@.context.take(0) =~= Seq::<Seq<char>>::empty());
        while i < chapter.context.len()
            invariant
                i <= chapter.context@.len(),
                text@ == joined(chapter@.context.take(i as int)),
            decreases chapter.context@.len() - i,
        {
            assert(chapter@.context.take(i + 1).drop_last() =~= chapter@.context.take(i as int));
            assert(chapter@.context.take(i + 1).last() == chapter.context@[i as int]@);
            push_str(&mut text, chapter.context[i].as_str());
            i += 1;
        }
        assert(chapter@.context.take(chapter@.context.len() as int) =~= chapter@.context);
        let whole = string_of(&text);
        let body = match clean_html(whole.as_str()) {
            Ok(body) => body,
            Err(e) => {
                return Err(e);
            },
        };
        let title = escape_xml(chapter.title.as_str());
        let mut out: Vec<char> = Vec::new();
        push_str(
            &mut out,
            "<!DOCTYPE html>\n<html xmlns=\"http://www.w3.org/1999/xhtml\">\n<head>\n    <title>",
        );
        push_str(&mut out, title.as_str());
        push_str(
            &mut out,
            "</title>\n    <meta charset=\"UTF-8\" />\n    <link rel=\"stylesheet\" type=\"text/css\" href=\"styles.css\" />\n</head>\n<body>\n    <h1>",
        );
        push_str(&mut out, title.as_str());
        push_str(&mut out, "</h1>\n    ");
        push_str(&mut out, body.as_str());
        push_str(&mut out, "\n</body>\n</html>");
        Ok(string_of(&out))
    }

    /// The document of the table of contents: one entry for each chapter,
    /// in order.
    pub fn table_of_contents(&self) -> (r: String)
        ensures
            r@ == toc_document(self.novel@.chapters),
    {
        let mut out: Vec<char> = Vec::new();
        push_str(
            &mut out,
            "<!DOCTYPE html>\n<html xmlns=\"http://www.w3.org/1999/xhtml\">\n<head>\n    <title>目录</title>\n    <link rel=\"stylesheet\" type=\"text/css\" href=\"styles.css\" />\n</head>\n<body>\n    <h1 class=\"toc-title\">目录</h1>\n    <ul class=\"toc-list\">",
        );
        let ghost head = out@;
        let n = self.novel.chapters.len();
        let mut i: usize = 0;
        assert(out@ =~= head + toc_entries(self.novel@.chapters, 0));
        while i < n
            invariant
                i <= n,
                n == self.novel.chapters@.len(),
                out@ == head + toc_entries(self.novel@.chapters, i as nat),
            decreases n - i,
        {
            let chapter = &self.novel.chapters[i];
            assert(self.novel@.chapters[i as int] == chapter@);
            let ghost before = out@;
            push_str(&mut out, "<li class=\"toc-item\"><a class=\"toc-link\" href=\"");
            push_str(&mut out, chapter_file_name(i).as_str());
            push_str(&mut out, "\">");
            push_str(&mut out, escape_xml(chapter.title.as_str()).as_str());
            push_str(&mut out, "</a></li>");
            assert(out@ =~= before + toc_entry(i as nat, chapter@.title));
            assert(out@ =~= head + toc_entries(self.novel@.chapters, (i + 1) as nat));
            i += 1;
        }
        push_str(&mut out, "</ul>\n</body>\n</html>");
        string_of(&out)
    }
}

} // verus!
