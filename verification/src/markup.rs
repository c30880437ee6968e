//! The outside readers of pages that the library calls: the HTML parser with
//! its selectors, and the normal form of addresses. Verus does not read them:
//! what is stated of them here is believed, not proved.

use vstd::prelude::*;

verus! {

#[verifier::external_type_specification]
#[verifier::external_body]
pub struct ExSelectorErrorKind(scraper::error::SelectorErrorKind);

/// An element that a selector found: its text, its markup, and its
/// attributes with their values.
#[derive(Debug)]
pub struct Found {
    pub text: String,
    pub html: String,
    pub attrs: Vec<(String, String)>,
}

/// What a `Found` holds.
pub type FoundView = (Seq<char>, Seq<char>, Seq<(Seq<char>, Seq<char>)>);

/// What a `Found` holds.
pub open spec fn found_view(f: Found) -> FoundView {
    (f.text@, f.html@, f.attrs@.map_values(|a: (String, String)| (a.0@, a.1@)))
}

/// What a list of found elements holds.
pub open spec fn found_views(v: Seq<Found>) -> Seq<FoundView> {
    v.map_values(|f: Found| found_view(f))
}

/// The elements of a page that a selector finds, in the order of the page:
/// nothing where the selector is none.
pub uninterp spec fn selected(html: Seq<char>, selector: Seq<char>) -> Option<
    Seq<(Seq<char>, Seq<char>, Seq<(Seq<char>, Seq<char>)>)>,
>;

/// The elements that the selector `inner` finds inside the first element
/// that the selector `outer` finds in a page: nothing where one of the two is
/// no selector, and nothing inside where `outer` finds no element.
pub uninterp spec fn selected_inside(html: Seq<char>, outer: Seq<char>, inner: Seq<char>) -> Option<
    Option<Seq<(Seq<char>, Seq<char>, Seq<(Seq<char>, Seq<char>)>)>>,
>;

/// The normal form that the url crate gives an absolute address, where the
/// text is one.
pub uninterp spec fn url_normal(url: Seq<char>) -> Option<Seq<char>>;

/// `Selector::parse`, `Html::parse_document` and `Html::select` of the
/// scraper crate: the elements that the selector finds, each with
/// `ElementRef::text`, `ElementRef::html` and the attributes of its value.
#[verifier::external_body]
pub(crate) fn select_all(html: &str, selector: &str) -> (r: Result<
    Vec<Found>,
    scraper::error::SelectorErrorKind,
>)
    ensures
        match r {
            Ok(found) => selected(html@, selector@) == Some(found_views(found@)),
            Err(_) => selected(html@, selector@) is None,
        },
{
    let parsed = scraper::Selector::parse(selector)?;
    let document = scraper::Html::parse_document(html);
    Ok(document.select(&parsed).map(|e| Found {
        text: e.text().collect(),
        html: e.html(),
        attrs: e.value().attrs().map(|(k, v)| (k.to_string(), v.to_string())).collect(),
    }).collect())
}

/// `Selector::parse`, `Html::parse_document`, `Html::select` and
/// `ElementRef::select` of the scraper crate: the elements that `inner` finds
/// inside the first element that `outer` finds.
#[verifier::external_body]
pub(crate) fn select_inside(html: &str, outer: &str, inner: &str) -> (r: Result<
    Option<Vec<Found>>,
    scraper::error::SelectorErrorKind,
>)
    ensures
        match r {
            Ok(Some(found)) => selected_inside(html@, outer@, inner@) == Some(
                Some(found_views(found@)),
            ),
            Ok(None) => selected_inside(html@, outer@, inner@) == Some(None::<Seq<FoundView>>),
            Err(_) => selected_inside(html@, outer@, inner@) is None,
        },
{
    let (first, second) = (scraper::Selector::parse(outer)?, scraper::Selector::parse(inner)?);
    let document = scraper::Html::parse_document(html);
    Ok(document.select(&first).next().map(|o| o.select(&second).map(|e| Found {
        text: e.text().collect(),
        html: e.html(),
        attrs: e.value().attrs().map(|(k, v)| (k.to_string(), v.to_string())).collect(),
    }).collect()))
}

/// `Url::parse` of the url crate, written out again: the normal form of an
/// absolute address.
#[verifier::external_body]
pub(crate) fn normalize_url(url: &str) -> (r: Result<String, url::ParseError>)
    ensures
        match r {
            Ok(normal) => url_normal(url@) == Some(normal@),
            Err(_) => url_normal(url@) is None,
        },
{
    url::Url::parse(url).map(|u| u.to_string())
}

} // verus!
