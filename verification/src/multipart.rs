//! Reading the form that the relay's producer posts: a body of parts,
//! separated by a boundary that the content type names.

use crate::text::chars_of;
use crate::text::find_bytes_from;
use crate::text::find_chars_from;
use crate::text::first_match;
use crate::text::first_match_from;
use crate::text::lemma_first_match_from;
use crate::text::lossy_text;
use crate::text::slice_bytes;
use crate::text::slice_chars;
use crate::text::string_of;
use crate::text::strip_chars;
use crate::text::stripped;
use crate::text::trimmed;
use crate::text::utf8_lossy;
use crate::text::Strip;
use vstd::prelude::*;

verus! {

/// What a `ParsedMultipart` holds.
pub struct ParsedView {
    pub filename: Option<Seq<char>>,
    pub url: Option<Seq<char>>,
    pub mime_type: Option<Seq<char>>,
    pub file_data: Option<Seq<u8>>,
}

/// The fields of a posted form.
#[derive(Debug)]
pub struct ParsedMultipart {
    pub filename: Option<String>,
    pub url: Option<String>,
    pub mime_type: Option<String>,
    pub file_data: Option<Vec<u8>>,
}

impl View for ParsedMultipart {
    type V = ParsedView;

    open spec fn view(&self) -> ParsedView {
        ParsedView {
            filename: match self.filename {
                Some(s) => Some(s@),
                None => None,
            },
            url: match self.url {
                Some(s) => Some(s@),
                None => None,
            },
            mime_type: match self.mime_type {
                Some(s) => Some(s@),
                None => None,
            },
            file_data: match self.file_data {
                Some(d) => Some(d@),
                None => None,
            },
        }
    }
}

/// Why a form could not be read.
#[derive(Clone, Copy, Debug, PartialEq, Eq, Structural)]
pub enum MultipartError {
    /// The content type names no boundary.
    NoBoundary,
}

/// The boundary that a content type names: what follows the first
/// `boundary=`, without quotation marks and then without white space at its
/// two ends.
pub open spec fn boundary_of(content_type: Seq<char>) -> Option<Seq<char>> {
    match first_match(content_type, "boundary="@) {
        Some(p) => Some(
            trimmed(
                stripped(
                    content_type.subrange(p + "boundary="@.len(), content_type.len() as int),
                    Strip::Only('"'),
                ),
            ),
        ),
        None => None,
    }
}

/// The bytes that separate two parts: a line break, two hyphens, and the
/// boundary.
pub open spec fn separator(boundary: Seq<char>) -> Seq<u8> {
    seq![13u8, 10u8, 45u8, 45u8] + vstd::utf8::encode_utf8(boundary)
}

/// The parts of the data from `start` on. A part ends where the separator
/// begins; an empty part is left out; the data after a separator that two
/// hyphens follow, and the data after the last separator, belong to no part.
pub open spec fn parts_from(data: Seq<u8>, sep: Seq<u8>, start: int) -> Seq<Seq<u8>>
    decreases data.len() - start,
{
    if sep.len() == 0 || start < 0 {
        Seq::empty()
    } else {
        match first_match_from(data, sep, start) {
            None => Seq::empty(),
            Some(p) => {
                let next = p + sep.len();
                let head = if p > start {
                    seq![data.subrange(start, p)]
                } else {
                    Seq::empty()
                };
                if p < start || next > data.len() {
                    Seq::empty()
                } else if next + 2 <= data.len() && data[next] == 45u8 && data[next + 1] == 45u8 {
                    head
                } else {
                    head + parts_from(data, sep, next)
                }
            },
        }
    }
}

/// What stands between `marker` and the next quotation mark, if the text
/// holds both.
pub open spec fn quoted_after(text: Seq<char>, marker: Seq<char>) -> Option<Seq<char>> {
    match first_match(text, marker) {
        Some(p) => match first_match_from(text, seq!['"'], p + marker.len()) {
            Some(e) => Some(text.subrange(p + marker.len(), e)),
            None => None,
        },
        None => None,
    }
}

/// The name of the field that a part holds.
pub open spec fn field_name(text: Seq<char>) -> Option<Seq<char>> {
    quoted_after(text, "name=\""@)
}

/// The file name that a part gives: in quotation marks, or up to the end of
/// the line.
pub open spec fn filename_of(text: Seq<char>) -> Option<Seq<char>> {
    if first_match(text, "filename=\""@) is Some {
        quoted_after(text, "filename=\""@)
    } else {
        match first_match(text, "filename="@) {
            Some(p) => {
                let start = p + "filename="@.len();
                let end = match first_match_from(text, "\r\n"@, start) {
                    Some(e) => e,
                    None => text.len() as int,
                };
                Some(stripped(text.subrange(start, end), Strip::Only('"')))
            },
            None => None,
        }
    }
}

/// The value of a part: its text after the first empty line, without white
/// space at its two ends; empty if there is no empty line.
pub open spec fn field_value(part: Seq<u8>) -> Seq<char> {
    let text = utf8_lossy(part);
    match first_match(text, "\r\n\r\n"@) {
        Some(p) => trimmed(text.subrange(p + "\r\n\r\n"@.len(), text.len() as int)),
        None => Seq::empty(),
    }
}

/// The content of a part: its bytes after the first empty line; empty if
/// there is no empty line.
pub open spec fn file_content(part: Seq<u8>) -> Seq<u8> {
    match first_match(part, seq![13u8, 10u8, 13u8, 10u8]) {
        Some(p) => part.subrange(p + 4, part.len() as int),
        None => Seq::empty(),
    }
}

/// The form after one more part. A part of another name changes nothing.
pub open spec fn with_part(form: ParsedView, part: Seq<u8>) -> ParsedView {
    let text = utf8_lossy(part);
    match field_name(text) {
        Some(name) => if name == "file"@ {
            ParsedView { filename: filename_of(text), file_data: Some(file_content(part)), ..form }
        } else if name == "filename"@ {
            ParsedView { filename: Some(field_value(part)), ..form }
        } else if name == "url"@ {
            ParsedView { url: Some(field_value(part)), ..form }
        } else if name == "mimeType"@ {
            ParsedView { mime_type: Some(field_value(part)), ..form }
        } else {
            form
        },
        None => form,
    }
}

/// The form that the first `n` parts make: a later part replaces what an
/// earlier one has set.
pub open spec fn form_of(parts: Seq<Seq<u8>>, n: nat) -> ParsedView
    decreases n,
{
    if n == 0 {
        ParsedView { filename: None, url: None, mime_type: None, file_data: None }
    } else {
        with_part(form_of(parts, (n - 1) as nat), parts[n - 1])
    }
}

/// The form that a body with the given content type holds.
pub open spec fn parsed(body: Seq<u8>, content_type: Seq<char>) -> Option<ParsedView> {
    match boundary_of(content_type) {
        Some(boundary) => {
            let parts = parts_from(body, separator(boundary), 0);
            Some(form_of(parts, parts.len()))
        },
        None => None,
    }
}

/// The contents of a list of byte strings, in order.
pub open spec fn byte_views(v: Seq<Vec<u8>>) -> Seq<Seq<u8>> {
    v.map_values(|p: Vec<u8>| p@)
}

fn text_option(chars: Option<Vec<char>>) -> (r: Option<String>)
    ensures
        match r {
            Some(s) => chars is Some && s@ == chars->Some_0@,
            None => chars is None,
        },
{
    match chars {
        Some(c) => Some(string_of(&c)),
        None => None,
    }
}

fn quoted_chars(text: &Vec<char>, marker: &Vec<char>) -> (r: Option<Vec<char>>)
    ensures
        match r {
            Some(c) => quoted_after(text@, marker@) == Some(c@),
            None => quoted_after(text@, marker@) is None,
        },
{
    let p = match find_chars_from(text, marker, 0) {
        Some(p) => p,
        None => {
            return None;
        },
    };
    proof {
        lemma_first_match_from(text@, marker@, 0);
    }
    let start = p + marker.len();
    let mut quote: Vec<char> = Vec::new();
    quote.push('"');
    assert(quote@ =~= seq!['"']);
    match find_chars_from(text, &quote, start) {
        Some(e) => {
            proof {
                lemma_first_match_from(text@, quote@, start as int);
            }
            Some(slice_chars(text, start, e))
        },
        None => None,
    }
}

/// The reader of posted forms.
#[derive(Debug)]
pub struct MultipartParser;

impl MultipartParser {
    /// Reads the form that a body holds. The content type must name the
    /// boundary.
    pub fn parse_multipart(body: &[u8], content_type: &str) -> (r: Result<
        ParsedMultipart,
        MultipartError,
    >)
        ensures
            match r {
                Ok(form) => parsed(body@, content_type@) == Some(form@),
                Err(e) => parsed(body@, content_type@) is None && e == MultipartError::NoBoundary,
            },
    {
        let boundary = match Self::extract_boundary(content_type) {
            Some(b) => b,
            None => {
                return Err(MultipartError::NoBoundary);
            },
        };
        let parts = Self::split_multipart(body, boundary.as_str());
        let mut form = ParsedMultipart {
            filename: None,
            url: None,
            mime_type: None,
            file_data: None,
        };
        let mut i: usize = 0;
        while i < parts.len()
            invariant
                i <= parts@.len(),
                form@ == form_of(byte_views(parts@), i as nat),
            decreases parts@.len() - i,
        {
            let part = &parts[i];
            assert(byte_views(parts@)[i as int] == part@);
            let text = lossy_text(part.as_slice());
            match Self::extract_field_name(text.as_str()) {
                Some(name) => {
                    proof {
                        reveal_strlit("file");
                        reveal_strlit("filename");
                        reveal_strlit("url");
                        reveal_strlit("mimeType");
                    }
                    if crate::text::str_eq(name.as_str(), "file") {
                        form.filename = Self::extract_filename(text.as_str());
                        form.file_data = Some(Self::extract_file_content(part.as_slice()));
                    } else if crate::text::str_eq(name.as_str(), "filename") {
                        form.filename = Some(Self::extract_field_value(part.as_slice()));
                    } else if crate::text::str_eq(name.as_str(), "url") {
                        form.url = Some(Self::extract_field_value(part.as_slice()));
                    } else if crate::text::str_eq(name.as_str(), "mimeType") {
                        form.mime_type = Some(Self::extract_field_value(part.as_slice()));
                    }
                },
                None => {},
            }
            i += 1;
        }
        Ok(form)
    }

    /// The boundary that a content type names.
    pub fn extract_boundary(content_type: &str) -> (r: Option<String>)
        ensures
            match r {
                Some(b) => boundary_of(content_type@) == Some(b@),
                None => boundary_of(content_type@) is None,
            },
    {
        let text = chars_of(content_type);
        let marker = chars_of("boundary=");
        let p = match find_chars_from(&text, &marker, 0) {
            Some(p) => p,
            None => {
                return None;
            },
        };
        proof {
            lemma_first_match_from(text@, marker@, 0);
        }
        let bare = strip_chars(&text, p + marker.len(), Strip::Only('"'));
        let trimmed = strip_chars(&bare, 0, Strip::WhiteSpace);
        assert(bare@.subrange(0, bare@.len() as int) =~= bare@);
        Some(string_of(&trimmed))
    }

    /// The parts of a body whose parts the boundary separates.
    pub fn split_multipart(data: &[u8], boundary: &str) -> (r: Vec<Vec<u8>>)
        ensures
            byte_views(r@) == parts_from(data@, separator(boundary@), 0),
    {
        let mut sep: Vec<u8> = Vec::new();
        sep.push(13u8);
        sep.push(10u8);
        sep.push(45u8);
        sep.push(45u8);
        let tail = boundary.as_bytes();
        let mut k: usize = 0;
        while k < tail.len()
            invariant
                k <= tail@.len(),
                sep@ == seq![13u8, 10u8, 45u8, 45u8] + tail@.take(k as int),
            decreases tail@.len() - k,
        {
            sep.push(tail[k]);
            assert(sep@ =~= seq![13u8, 10u8, 45u8, 45u8] + tail@.take(k + 1));
            k += 1;
        }
        assert(tail@.take(tail@.len() as int) =~= tail@);
        assert(sep@ == separator(boundary@));
        let mut parts: Vec<Vec<u8>> = Vec::new();
        let mut start: usize = 0;
        let ghost whole = parts_from(data@, sep@, 0);
        assert(byte_views(parts@) + parts_from(data@, sep@, 0) =~= whole);
        loop
            invariant
                start <= data@.len(),
                sep@.len() >= 4,
                sep@ == separator(boundary@),
                whole == parts_from(data@, sep@, 0),
                byte_views(parts@) + parts_from(data@, sep@, start as int) == whole,
            decreases data@.len() - start,
        {
            let p = match find_bytes_from(data, sep.as_slice(), start) {
                Some(p) => p,
                None => {
                    assert(byte_views(parts@) + Seq::<Seq<u8>>::empty() =~= byte_views(parts@));
                    return parts;
                },
            };
            proof {
                lemma_first_match_from(data@, sep@, start as int);
            }
            let ghost before = byte_views(parts@);
            if p > start {
                parts.push(slice_bytes(data, start, p));
                assert(byte_views(parts@) =~= before + seq![data@.subrange(start as int, p as int)]);
            }
            let next = p + sep.len();
            if data.len() - next >= 2 && data[next] == 45u8 && data[next + 1] == 45u8 {
                assert(byte_views(parts@) =~= whole);
                return parts;
            }
            assert(byte_views(parts@) + parts_from(data@, sep@, next as int) =~= whole);
            start = next;
        }
    }

    /// The first place where `needle` stands in `haystack`.
    pub fn find_subsequence(haystack: &[u8], needle: &[u8]) -> (r: Option<usize>)
        ensures
            match r {
                Some(p) => first_match(haystack@, needle@) == Some(p as int),
                None => first_match(haystack@, needle@) is None,
            },
    {
        find_bytes_from(haystack, needle, 0)
    }

    /// The name of the field that a part holds.
    pub fn extract_field_name(part: &str) -> (r: Option<String>)
        ensures
            match r {
                Some(name) => field_name(part@) == Some(name@),
                None => field_name(part@) is None,
            },
    {
        let text = chars_of(part);
        let marker = chars_of("name=\"");
        text_option(quoted_chars(&text, &marker))
    }

    /// The value of a part.
    pub fn extract_field_value(part: &[u8]) -> (r: String)
        ensures
            r@ == field_value(part@),
    {
        let lossy = lossy_text(part);
        let text = chars_of(lossy.as_str());
        let marker = chars_of("\r\n\r\n");
        match find_chars_from(&text, &marker, 0) {
            Some(p) => {
                proof {
                    lemma_first_match_from(text@, marker@, 0);
                }
                let value = strip_chars(&text, p + marker.len(), Strip::WhiteSpace);
                string_of(&value)
            },
            None => String::new(),
        }
    }

    /// The file name that a part gives.
    pub fn extract_filename(part: &str) -> (r: Option<String>)
        ensures
            match r {
                Some(name) => filename_of(part@) == Some(name@),
                None => filename_of(part@) is None,
            },
    {
        let text = chars_of(part);
        let quoted = chars_of("filename=\"");
        if find_chars_from(&text, &quoted, 0).is_some() {
            return text_option(quoted_chars(&text, &quoted));
        }
        let bare = chars_of("filename=");
        let p = match find_chars_from(&text, &bare, 0) {
            Some(p) => p,
            None => {
                return None;
            },
        };
        proof {
            lemma_first_match_from(text@, bare@, 0);
        }
        let start = p + bare.len();
        let line_end = chars_of("\r\n");
        let end = match find_chars_from(&text, &line_end, start) {
            Some(e) => {
                proof {
                    lemma_first_match_from(text@, line_end@, start as int);
                }
                e
            },
            None => text.len(),
        };
        let raw = slice_chars(&text, start, end);
        let name = strip_chars(&raw, 0, Strip::Only('"'));
        assert(raw@.subrange(0, raw@.len() as int) =~= raw@);
        Some(string_of(&name))
    }

    /// The content of a part.
    pub fn extract_file_content(part: &[u8]) -> (r: Vec<u8>)
        ensures
            r@ == file_content(part@),
    {
        let mut marker: Vec<u8> = Vec::new();
        marker.push(13u8);
        marker.push(10u8);
        marker.push(13u8);
        marker.push(10u8);
        assert(marker@ =~= seq![13u8, 10u8, 13u8, 10u8]);
        match find_bytes_from(part, marker.as_slice(), 0) {
            Some(p) => {
                proof {
                    lemma_first_match_from(part@, marker@, 0);
                }
                slice_bytes(part, p + 4, part.len())
            },
            None => Vec::new(),
        }
    }
}

} // verus!
