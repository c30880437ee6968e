//! The sites that books are fetched from, and which site an address belongs
//! to.

use crate::patterns::capture_group;
use crate::patterns::host_of;
use crate::patterns::regex_capture;
use crate::patterns::url_host;
use crate::text::chars_of;
use crate::text::push_all;
use crate::text::push_str;
use crate::text::str_eq;
use crate::text::string_of;
use crate::volume::BiliNovel;
use crate::volume::NovelConfig;
use vstd::prelude::*;

verus! {

/// A site that books are fetched from.
#[derive(Clone, Copy, Debug, PartialEq, Eq, Structural)]
pub enum SourceKind {
    BiliNovel,
}

/// A book of one of the sites.
pub enum Source {
    BiliNovel(BiliNovel),
}

/// One registration: a host and the site that handles its addresses.
#[derive(Debug)]
pub struct Registration {
    pub domain: String,
    pub handler: SourceKind,
}

/// The site registered for a host: the last registration of that host.
pub open spec fn registered(entries: Seq<Registration>, host: Seq<char>) -> Option<SourceKind>
    decreases entries.len(),
{
    if entries.len() == 0 {
        None
    } else if entries.last().domain@ == host {
        Some(entries.last().handler)
    } else {
        registered(entries.drop_last(), host)
    }
}

/// The registry of the hosts whose addresses are handled.
#[derive(Debug)]
pub struct UrlHandlers {
    entries: Vec<Registration>,
}

impl UrlHandlers {
    /// The registrations, in the order in which they were made.
    pub closed spec fn entries(&self) -> Seq<Registration> {
        self.entries@
    }

    /// The site registered for a host.
    pub open spec fn handler(&self, host: Seq<char>) -> Option<SourceKind> {
        registered(self.entries(), host)
    }

    /// A registry without registrations.
    pub fn new() -> (r: Self)
        ensures
            r.entries().len() == 0,
            forall|host: Seq<char>| r.handler(host) is None,
    {
        UrlHandlers { entries: Vec::new() }
    }

    /// The site registered for a host, if there is one.
    pub fn handler_for_host(&self, host: &str) -> (r: Option<SourceKind>)
        ensures
            r == self.handler(host@),
    {
        let mut i = self.entries.len();
        assert(self.entries@.take(i as int) =~= self.entries@);
        while i > 0
            invariant
                i <= self.entries@.len(),
                registered(self.entries@, host@) == registered(self.entries@.take(i as int), host@),
            decreases i,
        {
            assert(self.entries@.take(i as int).drop_last() =~= self.entries@.take(i - 1));
            if str_eq(self.entries[i - 1].domain.as_str(), host) {
                return Some(self.entries[i - 1].handler);
            }
            i -= 1;
        }
        None
    }
}

/// Registers a site for a host. A later registration of a host replaces an
/// earlier one.
pub fn register_url_handler(handlers: &mut UrlHandlers, domain: &str, handler: SourceKind)
    ensures
        final(handlers).entries().len() == old(handlers).entries().len() + 1,
        forall|host: Seq<char>|
            final(handlers).handler(host) == if host == domain@ {
                Some(handler)
            } else {
                old(handlers).handler(host)
            },
{
    let ghost before = handlers.entries@;
    handlers.entries.push(Registration { domain: domain.to_owned(), handler });
    assert(handlers.entries@.drop_last() =~= before);
}

/// Registers the hosts of the sites that the library knows.
pub fn init_url_handlers(handlers: &mut UrlHandlers)
    ensures
        forall|host: Seq<char>|
            final(handlers).handler(host) == if host == "linovelib.com"@ || host
                == "www.linovelib.com"@ {
                Some(SourceKind::BiliNovel)
            } else {
                old(handlers).handler(host)
            },
{
    register_url_handler(handlers, "www.linovelib.com", SourceKind::BiliNovel);
    register_url_handler(handlers, "linovelib.com", SourceKind::BiliNovel);
}

/// The registry with the hosts of the sites that the library knows.
pub fn init_url_parser() -> (r: UrlHandlers)
    ensures
        forall|host: Seq<char>|
            r.handler(host) == if host == "linovelib.com"@ || host == "www.linovelib.com"@ {
                Some(SourceKind::BiliNovel)
            } else {
                None
            },
{
    let mut handlers = UrlHandlers::new();
    init_url_handlers(&mut handlers);
    handlers
}

/// Why an address names no book.
#[derive(Debug)]
pub enum SourceError {
    /// The text is no absolute address.
    InvalidUrl,
    /// The address has no host.
    NoHost,
    /// No site is registered for the host.
    Unsupported { host: String },
}

/// The page of a book of the site with the given number.
pub open spec fn bilinovel_page(id: Seq<char>) -> Seq<char> {
    "https://www.linovelib.com/novel/"@ + id + ".html"@
}

/// The catalog of a book of the site with the given number.
pub open spec fn bilinovel_catalog(id: Seq<char>) -> Seq<char> {
    "https://www.linovelib.com/novel/"@ + id + "/catalog"@
}

/// The book that an address of the site names, given the number that was
/// found in the address. Without a number the book keeps the address as it
/// is and has no catalog.
pub fn bilinovel_for(url: &str, id: Option<String>) -> (r: BiliNovel)
    ensures
        r.url@ == match id {
            Some(n) if n@.len() > 0 => bilinovel_page(n@),
            _ => url@,
        },
        r.catalog@ == match id {
            Some(n) if n@.len() > 0 => bilinovel_catalog(n@),
            _ => Seq::<char>::empty(),
        },
        r.book_name@.len() == 0,
        r.volume@.len() == 0,
        r.index@.len() == 0,
        r.tags is None,
{
    match id {
        Some(n) => {
            let digits = chars_of(n.as_str());
            if digits.len() == 0 {
                return BiliNovel::new(url.to_owned(), String::new());
            }
            let mut page: Vec<char> = Vec::new();
            push_str(&mut page, "https://www.linovelib.com/novel/");
            push_all(&mut page, &digits);
            push_str(&mut page, ".html");
            let mut catalog: Vec<char> = Vec::new();
            push_str(&mut catalog, "https://www.linovelib.com/novel/");
            push_all(&mut catalog, &digits);
            push_str(&mut catalog, "/catalog");
            assert(page@ =~= bilinovel_page(n@));
            assert(catalog@ =~= bilinovel_catalog(n@));
            BiliNovel::new(string_of(&page), string_of(&catalog))
        },
        None => BiliNovel::new(url.to_owned(), String::new()),
    }
}

/// The number of the book in an address of the site: the digits that follow
/// the first `/novel/`.
pub open spec fn bilinovel_id(url: Seq<char>) -> Option<Seq<char>> {
    match regex_capture("/novel/(\\d+)"@, url, 1) {
        Some(found) => found,
        None => None,
    }
}

/// Whether a book is the one that an address of the site names, with
/// nothing resolved yet: its page and its catalog are those of the number in
/// the address; without a number it keeps the address and has no catalog.
pub open spec fn names_bilinovel(url: Seq<char>, book: BiliNovel) -> bool {
    &&& book.url@ == match bilinovel_id(url) {
        Some(n) if n.len() > 0 => bilinovel_page(n),
        _ => url,
    }
    &&& book.catalog@ == match bilinovel_id(url) {
        Some(n) if n.len() > 0 => bilinovel_catalog(n),
        _ => Seq::<char>::empty(),
    }
    &&& book.book_name@.len() == 0
    &&& book.volume@.len() == 0
    &&& book.index@.len() == 0
    &&& book.tags is None
}

/// The book that an address of the site names.
pub fn get_bilinovel(url: &str) -> (r: BiliNovel)
    ensures
        names_bilinovel(url@, r),
{
    let id = match capture_group("/novel/(\\d+)", url, 1) {
        Ok(found) => found,
        Err(_) => None,
    };
    bilinovel_for(url, id)
}

/// The book that an address names, given the host that was found in it.
pub fn source_for_host(handlers: &UrlHandlers, url: &str, host: Option<String>) -> (r: Result<
    Source,
    SourceError,
>)
    ensures
        match r {
            Ok(source) => host is Some && handlers.handler(host->Some_0@) == Some(
                SourceKind::BiliNovel,
            ) && source is BiliNovel && names_bilinovel(url@, source->BiliNovel_0),
            Err(SourceError::NoHost) => host is None,
            Err(SourceError::Unsupported { host: h }) => host is Some && h@ == host->Some_0@
                && handlers.handler(h@) is None,
            Err(SourceError::InvalidUrl) => false,
        },
{
    let host = match host {
        Some(h) => h,
        None => {
            return Err(SourceError::NoHost);
        },
    };
    match handlers.handler_for_host(host.as_str()) {
        Some(SourceKind::BiliNovel) => Ok(Source::BiliNovel(get_bilinovel(url))),
        None => Err(SourceError::Unsupported { host }),
    }
}

/// The book that an address names: the book of the site that is registered
/// for the host of the address.
pub fn get_struct_by_url(handlers: &UrlHandlers, url: &str) -> (r: Result<Source, SourceError>)
    ensures
        match r {
            Ok(source) => (url_host(url@) matches Some(Some(h)) && handlers.handler(h) == Some(
                SourceKind::BiliNovel,
            )) && source is BiliNovel && names_bilinovel(url@, source->BiliNovel_0),
            Err(SourceError::InvalidUrl) => url_host(url@) is None,
            Err(SourceError::NoHost) => url_host(url@) == Some(None::<Seq<char>>),
            Err(SourceError::Unsupported { host }) => url_host(url@) == Some(Some(host@))
                && handlers.handler(host@) is None,
        },
{
    match host_of(url) {
        Ok(host) => source_for_host(handlers, url, host),
        Err(_) => Err(SourceError::InvalidUrl),
    }
}

/// What every kind of book offers: its volumes can be counted and selected.
pub trait Singlefile {
    /// How many volumes the book has.
    spec fn volume_total(&self) -> nat;

    /// The numbers of the volumes that were asked for.
    spec fn asked(&self) -> Seq<u8>;

    /// How many volumes the book has.
    fn volume_count(&self) -> (r: usize)
        ensures
            r == self.volume_total(),
    ;

    /// Records the numbers of the volumes that are asked for.
    fn select(&mut self, index: Vec<u8>)
        ensures
            final(self).asked() == index@,
            final(self).volume_total() == old(self).volume_total(),
    ;

    /// The volumes to fetch: the numbers that were asked for and that name a
    /// volume, in the order in which they were asked for.
    fn selected_volumes(&self) -> (r: Vec<usize>)
        ensures
            r@ == selected_among(self.asked(), self.volume_total()),
    ;
}

/// The numbers of a list that are below `total`, in the order of the list.
pub open spec fn selected_among(asked: Seq<u8>, total: nat) -> Seq<usize>
    decreases asked.len(),
{
    if asked.len() == 0 {
        Seq::empty()
    } else if asked.last() < total {
        selected_among(asked.drop_last(), total).push(asked.last() as usize)
    } else {
        selected_among(asked.drop_last(), total)
    }
}

impl Singlefile for BiliNovel {
    open spec fn volume_total(&self) -> nat {
        self.volume@.len()
    }

    open spec fn asked(&self) -> Seq<u8> {
        self.index@
    }

    fn volume_count(&self) -> (r: usize) {
        self.volume.len()
    }

    fn select(&mut self, index: Vec<u8>) {
        self.index = index;
    }

    fn selected_volumes(&self) -> (r: Vec<usize>) {
        let total = self.volume.len();
        let mut out: Vec<usize> = Vec::new();
        let mut i: usize = 0;
        assert(self.index@.take(0) =~= Seq::<u8>::empty());
        while i < self.index.len()
            invariant
                i <= self.index@.len(),
                total == self.volume@.len(),
                out@ == selected_among(self.index@.take(i as int), total as nat),
            decreases self.index@.len() - i,
        {
            let n = self.index[i];
            assert(self.index@.take(i + 1).drop_last() =~= self.index@.take(i as int));
            assert(self.index@.take(i + 1).last() == n);
            if (n as usize) < total {
                out.push(n as usize);
            }
            i += 1;
        }
        assert(self.index@.take(self.index@.len() as int) =~= self.index@);
        out
    }
}

impl BiliNovel {
    /// Takes over the settings by which the book's volumes are fetched.
    pub fn load_config(&mut self, config: NovelConfig)
        ensures
            final(self).config == config,
            final(self).url == old(self).url,
            final(self).catalog == old(self).catalog,
            final(self).book_name == old(self).book_name,
            final(self).author == old(self).author,
            final(self).tags == old(self).tags,
            final(self).nums == old(self).nums,
            final(self).notice == old(self).notice,
            final(self).description == old(self).description,
            final(self).volume == old(self).volume,
            final(self).index == old(self).index,
    {
        self.config = config;
    }
}

} // verus!
