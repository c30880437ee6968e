//! The store of relayed assets: a map from an asset's address to its
//! record. An address occurs once; a later record for it replaces the earlier.

use crate::codec::bincode_decoding;
use crate::codec::bincode_encoding;
use crate::codec::decode_entries;
use crate::codec::encode_entries;
use crate::codec::gunzip;
use crate::codec::gunzip_of;
use crate::codec::gzip;
use crate::codec::gzip_of;
use crate::codec::plain_views;
use crate::codec::record_view;
use crate::codec::PlainRecord;
use crate::codec::PlainRecordView;
use crate::text::str_eq;
use vstd::prelude::*;

verus! {

/// What an `ImageData` holds.
pub struct ImageView {
    pub u8_data: Seq<u8>,
    pub base64_data: Seq<char>,
    pub filename: Seq<char>,
    pub mime_type: Seq<char>,
    pub file_path: Option<Seq<char>>,
}

/// The record of one asset: its bytes, their encoded form, the name and type
/// it came with, and where it was saved, if it was.
#[derive(Debug)]
pub struct ImageData {
    pub u8_data: Vec<u8>,
    pub base64_data: String,
    pub filename: String,
    pub mime_type: String,
    pub file_path: Option<String>,
}

impl View for ImageData {
    type V = ImageView;

    open spec fn view(&self) -> ImageView {
        ImageView {
            u8_data: self.u8_data@,
            base64_data: self.base64_data@,
            filename: self.filename@,
            mime_type: self.mime_type@,
            file_path: match self.file_path {
                Some(p) => Some(p@),
                None => None,
            },
        }
    }
}

/// Copies a list of bytes.
pub fn clone_bytes(v: &Vec<u8>) -> (r: Vec<u8>)
    ensures
        r@ == v@,
{
    let mut out: Vec<u8> = Vec::new();
    let mut i: usize = 0;
    while i < v.len()
        invariant
            i <= v.len(),
            out@ == v@.take(i as int),
        decreases v.len() - i,
    {
        out.push(v[i]);
        assert(v@.take(i as int).push(v@[i as int]) =~= v@.take(i + 1));
        i += 1;
    }
    assert(v@.take(v@.len() as int) =~= v@);
    out
}

impl Clone for ImageData {
    fn clone(&self) -> (r: Self)
        ensures
            r@ == self@,
    {
        ImageData {
            u8_data: clone_bytes(&self.u8_data),
            base64_data: self.base64_data.clone(),
            filename: self.filename.clone(),
            mime_type: self.mime_type.clone(),
            file_path: match &self.file_path {
                Some(p) => Some(p.clone()),
                None => None,
            },
        }
    }
}

/// One asset of the store, under its address.
#[derive(Debug)]
pub struct Entry {
    pub url: String,
    pub image: ImageData,
}

/// An address and the record stored under it.
pub type Listed = (Seq<char>, ImageView);

/// The addresses and records of a list of entries, in order.
pub open spec fn listed(entries: Seq<Entry>) -> Seq<Listed> {
    entries.map_values(|e: Entry| (e.url@, e.image@))
}

/// The map that results from putting the listed records into an empty map,
/// one after the other.
pub open spec fn map_of(l: Seq<Listed>) -> Map<Seq<char>, ImageView>
    decreases l.len(),
{
    if l.len() == 0 {
        Map::empty()
    } else {
        map_of(l.drop_last()).insert(l.last().0, l.last().1)
    }
}

/// No address is listed twice.
pub open spec fn distinct_keys(l: Seq<Listed>) -> bool {
    forall|i: int, j: int| 0 <= i < j < l.len() ==> l[i].0 != l[j].0
}

/// Whether an address is listed.
pub open spec fn lists(l: Seq<Listed>, k: Seq<char>) -> bool {
    exists|i: int| 0 <= i < l.len() && l[i].0 == k
}

/// The map of a list holds the listed addresses, and where no address is
/// listed twice, each with its record.
pub proof fn lemma_map_of(l: Seq<Listed>)
    ensures
        forall|k: Seq<char>|
            #![trigger map_of(l).dom().contains(k)]
            #![trigger lists(l, k)]
            map_of(l).dom().contains(k) <==> lists(l, k),
        distinct_keys(l) ==> forall|i: int|
            0 <= i < l.len() ==> map_of(l)[(#[trigger] l[i]).0] == l[i].1,
        map_of(l).dom().finite(),
        distinct_keys(l) ==> map_of(l).dom().len() == l.len(),
    decreases l.len(),
{
    if l.len() > 0 {
        let front = l.drop_last();
        lemma_map_of(front);
        assert forall|k: Seq<char>|
            #![trigger map_of(l).dom().contains(k)]
            #![trigger lists(l, k)]
            map_of(l).dom().contains(k) <==> lists(l, k) by {
            if lists(l, k) {
                let i = choose|i: int| 0 <= i < l.len() && l[i].0 == k;
                if i < l.len() - 1 {
                    assert(front[i].0 == k);
                    assert(lists(front, k));
                }
            }
            if map_of(l).contains_key(k) {
                if k == l.last().0 {
                    assert(l[l.len() - 1].0 == k);
                } else {
                    assert(lists(front, k));
                    let i = choose|i: int| 0 <= i < front.len() && front[i].0 == k;
                    assert(l[i].0 == k);
                }
            }
        }
        if distinct_keys(l) {
            assert(distinct_keys(front)) by {
                assert forall|i: int, j: int| 0 <= i < j < front.len() implies front[i].0
                    != front[j].0 by {
                    assert(front[i] == l[i] && front[j] == l[j]);
                }
            }
            assert forall|i: int| 0 <= i < l.len() implies map_of(l)[(#[trigger] l[i]).0]
                == l[i].1 by {
                if i < l.len() - 1 {
                    assert(front[i] == l[i]);
                    assert(l[i].0 != l[l.len() - 1].0);
                }
            }
            if lists(front, l.last().0) {
                let i = choose|i: int| 0 <= i < front.len() && front[i].0 == l.last().0;
                assert(front[i] == l[i]);
                assert(l[i].0 != l[l.len() - 1].0);
            }
            assert(!map_of(front).dom().contains(l.last().0));
        }
    }
}

/// Replacing the record of a listed address is putting the new record into
/// the map.
pub proof fn lemma_map_of_update(l: Seq<Listed>, i: int, v: ImageView)
    requires
        distinct_keys(l),
        0 <= i < l.len(),
    ensures
        distinct_keys(l.update(i, (l[i].0, v))),
        map_of(l.update(i, (l[i].0, v))) == map_of(l).insert(l[i].0, v),
{
    let k = l[i].0;
    let n = l.update(i, (k, v));
    assert(distinct_keys(n)) by {
        assert forall|a: int, b: int| 0 <= a < b < n.len() implies n[a].0 != n[b].0 by {
            assert(n[a].0 == l[a].0 && n[b].0 == l[b].0);
        }
    }
    lemma_map_of(l);
    lemma_map_of(n);
    assert(map_of(n) =~= map_of(l).insert(k, v)) by {
        assert forall|x: Seq<char>| map_of(n).contains_key(x) <==> map_of(l).insert(
            k,
            v,
        ).contains_key(x) by {
            if lists(n, x) {
                let a = choose|a: int| 0 <= a < n.len() && n[a].0 == x;
                assert(l[a].0 == x);
            }
            if lists(l, x) {
                let a = choose|a: int| 0 <= a < l.len() && l[a].0 == x;
                assert(n[a].0 == x);
            }
            if x == k {
                assert(n[i].0 == x);
            }
        }
        assert forall|x: Seq<char>| map_of(n).contains_key(x) implies map_of(n)[x] == map_of(
            l,
        ).insert(k, v)[x] by {
            let a = choose|a: int| 0 <= a < n.len() && n[a].0 == x;
            assert(map_of(n)[n[a].0] == n[a].1);
            if a != i {
                assert(l[a].0 == x);
                assert(map_of(l)[l[a].0] == l[a].1);
                if a < i {
                    assert(l[a].0 != l[i].0);
                } else {
                    assert(l[i].0 != l[a].0);
                }
            }
        }
    }
}

/// Taking a listed address off the list is taking it out of the map.
pub proof fn lemma_map_of_remove(l: Seq<Listed>, i: int)
    requires
        distinct_keys(l),
        0 <= i < l.len(),
    ensures
        distinct_keys(l.remove(i)),
        map_of(l.remove(i)) == map_of(l).remove(l[i].0),
{
    let k = l[i].0;
    let n = l.remove(i);
    assert(distinct_keys(n)) by {
        assert forall|a: int, b: int| 0 <= a < b < n.len() implies n[a].0 != n[b].0 by {
            let a2 = if a < i { a } else { a + 1 };
            let b2 = if b < i { b } else { b + 1 };
            assert(n[a] == l[a2] && n[b] == l[b2]);
        }
    }
    lemma_map_of(l);
    lemma_map_of(n);
    assert(map_of(n) =~= map_of(l).remove(k)) by {
        assert forall|x: Seq<char>| map_of(n).contains_key(x) <==> map_of(l).remove(
            k,
        ).contains_key(x) by {
            if lists(n, x) {
                let a = choose|a: int| 0 <= a < n.len() && n[a].0 == x;
                let a2 = if a < i { a } else { a + 1 };
                assert(n[a] == l[a2]);
                assert(l[a2].0 == x);
                if a2 < i {
                    assert(l[a2].0 != l[i].0);
                } else {
                    assert(l[i].0 != l[a2].0);
                }
            }
            if lists(l, x) && x != k {
                let a = choose|a: int| 0 <= a < l.len() && l[a].0 == x;
                let a2 = if a < i { a } else { a - 1 };
                assert(n[a2] == l[a]);
                assert(n[a2].0 == x);
            }
        }
        assert forall|x: Seq<char>| map_of(n).contains_key(x) implies map_of(n)[x] == map_of(
            l,
        ).remove(k)[x] by {
            let a = choose|a: int| 0 <= a < n.len() && n[a].0 == x;
            let a2 = if a < i { a } else { a + 1 };
            assert(n[a] == l[a2]);
            assert(map_of(n)[n[a].0] == n[a].1);
            assert(map_of(l)[l[a2].0] == l[a2].1);
        }
    }
}

/// A map from asset addresses to asset records.
#[derive(Debug)]
pub struct ImageMap {
    entries: Vec<Entry>,
}

impl View for ImageMap {
    type V = Map<Seq<char>, ImageView>;

    open spec fn view(&self) -> Map<Seq<char>, ImageView> {
        map_of(self.listing())
    }
}

impl ImageMap {
    /// The addresses and records of the map, in the order in which the
    /// addresses first came in.
    pub closed spec fn listing(&self) -> Seq<Listed> {
        listed(self.entries@)
    }

    /// No address is held twice.
    pub open spec fn wf(&self) -> bool {
        distinct_keys(self.listing())
    }

    /// An empty map.
    pub fn new() -> (r: Self)
        ensures
            r.wf(),
            r.listing() == Seq::<Listed>::empty(),
            r@ == Map::<Seq<char>, ImageView>::empty(),
    {
        let r = ImageMap { entries: Vec::new() };
        assert(r.listing() =~= Seq::<Listed>::empty());
        r
    }

    /// How many addresses the map holds.
    pub fn len(&self) -> (r: usize)
        requires
            self.wf(),
        ensures
            r == self.listing().len(),
            r == self@.dom().len(),
    {
        proof {
            lemma_map_of(self.listing());
        }
        self.entries.len()
    }

    /// Whether the map holds no address.
    pub fn is_empty(&self) -> (r: bool)
        requires
            self.wf(),
        ensures
            r == (self.listing().len() == 0),
            r == (self@ == Map::<Seq<char>, ImageView>::empty()),
    {
        proof {
            lemma_map_of(self.listing());
            if self.listing().len() > 0 {
                assert(lists(self.listing(), self.listing()[0].0));
                assert(self@.contains_key(self.listing()[0].0));
            }
            if self.listing().len() == 0 {
                assert(self@ =~= Map::<Seq<char>, ImageView>::empty());
            }
        }
        self.entries.len() == 0
    }

    fn position(&self, url: &str) -> (r: Option<usize>)
        ensures
            match r {
                Some(i) => i < self.listing().len() && self.listing()[i as int].0 == url@,
                None => !lists(self.listing(), url@),
            },
    {
        let mut i: usize = 0;
        while i < self.entries.len()
            invariant
                i <= self.entries@.len(),
                forall|k: int| 0 <= k < i ==> self.listing()[k].0 != url@,
            decreases self.entries@.len() - i,
        {
            if str_eq(self.entries[i].url.as_str(), url) {
                return Some(i);
            }
            i += 1;
        }
        None
    }

    /// Whether the map holds the address.
    pub fn contains_key(&self, url: &str) -> (r: bool)
        requires
            self.wf(),
        ensures
            r == self@.contains_key(url@),
    {
        proof {
            lemma_map_of(self.listing());
        }
        self.position(url).is_some()
    }

    /// The record stored under the address, if there is one.
    pub fn get(&self, url: &str) -> (r: Option<&ImageData>)
        requires
            self.wf(),
        ensures
            match r {
                Some(image) => self@.contains_key(url@) && image@ == self@[url@],
                None => !self@.contains_key(url@),
            },
    {
        proof {
            lemma_map_of(self.listing());
        }
        match self.position(url) {
            Some(i) => {
                assert(self.listing()[i as int].1 == self.entries@[i as int].image@);
                Some(&self.entries[i].image)
            },
            None => None,
        }
    }

    /// Stores the record under the address, in place of the one that was
    /// there, if there was one: the result says whether there was.
    pub fn insert(&mut self, url: String, image: ImageData) -> (r: bool)
        requires
            old(self).wf(),
        ensures
            final(self).wf(),
            final(self)@ == old(self)@.insert(url@, image@),
            r == old(self)@.contains_key(url@),
            final(self).listing() == match first_listed(old(self).listing(), url@) {
                Some(i) => old(self).listing().update(i, (url@, image@)),
                None => old(self).listing().push((url@, image@)),
            },
    {
        proof {
            lemma_map_of(self.listing());
            lemma_first_listed(self.listing(), url@);
        }
        match self.position(url.as_str()) {
            Some(i) => {
                proof {
                    lemma_map_of_update(self.listing(), i as int, image@);
                    assert(lists(self.listing(), url@));
                }
                self.entries.set(i, Entry { url, image });
                assert(self.listing() =~= old(self).listing().update(i as int, (url@, image@)));
                true
            },
            None => {
                self.entries.push(Entry { url, image });
                assert(self.listing() =~= old(self).listing().push((url@, image@)));
                assert(self.listing().drop_last() =~= old(self).listing());
                assert(distinct_keys(self.listing())) by {
                    let l = self.listing();
                    assert forall|a: int, b: int| 0 <= a < b < l.len() implies l[a].0 != l[b].0 by {
                        assert(l[a] == old(self).listing()[a]);
                        if b < l.len() - 1 {
                            assert(l[b] == old(self).listing()[b]);
                        } else {
                            assert(!lists(old(self).listing(), url@));
                        }
                    }
                }
                false
            },
        }
    }

    /// Takes the address out of the map and hands back the record that was
    /// stored under it.
    pub fn remove(&mut self, url: &str) -> (r: Option<ImageData>)
        requires
            old(self).wf(),
        ensures
            final(self).wf(),
            final(self)@ == old(self)@.remove(url@),
            match r {
                Some(before) => old(self)@.contains_key(url@) && before@ == old(self)@[url@],
                None => !old(self)@.contains_key(url@),
            },
    {
        proof {
            lemma_map_of(self.listing());
        }
        match self.position(url) {
            Some(i) => {
                proof {
                    lemma_map_of_remove(self.listing(), i as int);
                }
                let entry = self.entries.remove(i);
                assert(self.listing() =~= old(self).listing().remove(i as int));
                Some(entry.image)
            },
            None => {
                assert(self@ =~= old(self)@.remove(url@));
                None
            },
        }
    }

    /// Empties the map.
    pub fn clear(&mut self)
        ensures
            final(self).wf(),
            final(self).listing() == Seq::<Listed>::empty(),
            final(self)@ == Map::<Seq<char>, ImageView>::empty(),
    {
        self.entries = Vec::new();
        assert(self.listing() =~= Seq::<Listed>::empty());
    }

    /// The entries of the map, in the order in which their addresses first
    /// came in.
    pub closed spec fn held(&self) -> Seq<Entry> {
        self.entries@
    }

    /// The entries for which `predicate` answers yes, as a map of their
    /// own. Each entry is asked once, in the order of the listing.
    pub fn filter<F: Fn(&String, &ImageData) -> bool>(&self, predicate: F) -> (r: ImageMap)
        requires
            self.wf(),
            forall|url: &String, image: &ImageData| predicate.requires((url, image)),
        ensures
            r.wf(),
            forall|k: Seq<char>| #[trigger]
                r@.contains_key(k) ==> self@.contains_key(k) && r@[k] == self@[k],
            forall|i: int|
                0 <= i < self.held().len() ==> predicate.ensures(
                    (&(#[trigger] self.held()[i]).url, &self.held()[i].image),
                    r@.contains_key(self.held()[i].url@),
                ),
    {
        let mut out = ImageMap::new();
        let mut i: usize = 0;
        proof {
            lemma_map_of(self.listing());
        }
        while i < self.entries.len()
            invariant
                self.wf(),
                out.wf(),
                i <= self.entries@.len(),
                forall|url: &String, image: &ImageData| predicate.requires((url, image)),
                forall|k: Seq<char>| #[trigger]
                    out@.contains_key(k) ==> lists(self.listing().take(i as int), k)
                        && self@.contains_key(k) && out@[k] == self@[k],
                forall|j: int|
                    0 <= j < i ==> predicate.ensures(
                        (&(#[trigger] self.entries@[j]).url, &self.entries@[j].image),
                        out@.contains_key(self.entries@[j].url@),
                    ),
            decreases self.entries@.len() - i,
        {
            let e = &self.entries[i];
            let keep = predicate(&e.url, &e.image);
            let ghost before = out@;
            proof {
                lemma_map_of(self.listing());
                assert(self.listing()[i as int] == (e.url@, e.image@));
                assert(lists(self.listing(), e.url@));
                if before.contains_key(e.url@) {
                    let a = choose|a: int|
                        0 <= a < self.listing().take(i as int).len() && self.listing().take(
                            i as int,
                        )[a].0 == e.url@;
                    assert(self.listing()[a].0 != self.listing()[i as int].0);
                }
            }
            if keep {
                out.insert(e.url.clone(), e.image.clone());
            }
            proof {
                assert forall|k: Seq<char>| #[trigger] out@.contains_key(k) implies lists(
                    self.listing().take(i + 1),
                    k,
                ) && self@.contains_key(k) && out@[k] == self@[k] by {
                    if before.contains_key(k) {
                        let a = choose|a: int|
                            0 <= a < self.listing().take(i as int).len() && self.listing().take(
                                i as int,
                            )[a].0 == k;
                        assert(self.listing().take(i + 1)[a].0 == k);
                    } else {
                        assert(k == e.url@);
                        assert(self.listing().take(i + 1)[i as int].0 == k);
                    }
                }
                assert forall|j: int| 0 <= j < i + 1 implies predicate.ensures(
                    (&(#[trigger] self.entries@[j]).url, &self.entries@[j].image),
                    out@.contains_key(self.entries@[j].url@),
                ) by {
                    if j < i {
                        assert(self.listing()[j] == (self.entries@[j].url@, self.entries@[j].image@));
                        assert(self.listing()[j].0 != self.listing()[i as int].0);
                    }
                }
            }
            i += 1;
        }
        out
    }

    /// The addresses that the map holds, in the order in which they first
    /// came in.
    pub fn urls(&self) -> (r: Vec<String>)
        ensures
            r@.len() == self.listing().len(),
            forall|i: int| 0 <= i < r@.len() ==> r@[i]@ == self.listing()[i].0,
    {
        let mut out: Vec<String> = Vec::new();
        let mut i: usize = 0;
        while i < self.entries.len()
            invariant
                i <= self.entries@.len(),
                out@.len() == i,
                forall|k: int| 0 <= k < i ==> out@[k]@ == self.listing()[k].0,
            decreases self.entries@.len() - i,
        {
            out.push(self.entries[i].url.clone());
            i += 1;
        }
        out
    }

    /// The entries of the map, in the order in which their addresses first
    /// came in.
    pub fn entries(&self) -> (r: &Vec<Entry>)
        ensures
            r@ == self.held(),
            listed(r@) == self.listing(),
    {
        &self.entries
    }

    /// Puts every record of `other` into the map, in the order of `other`:
    /// where both hold an address, the record of `other` stays.
    pub fn extend(&mut self, other: &ImageMap)
        requires
            old(self).wf(),
        ensures
            final(self).wf(),
            final(self)@ == old(self)@.union_prefer_right(other@),
    {
        let ghost all = other.listing();
        let ghost start = self@;
        let mut i: usize = 0;
        assert(self@ =~= start.union_prefer_right(map_of(all.take(0))));
        while i < other.entries.len()
            invariant
                self.wf(),
                i <= other.entries@.len(),
                all == other.listing(),
                self@ == start.union_prefer_right(map_of(all.take(i as int))),
            decreases other.entries@.len() - i,
        {
            let url = other.entries[i].url.clone();
            let image = other.entries[i].image.clone();
            assert((url@, image@) == all[i as int]);
            self.insert(url, image);
            proof {
                assert(all.take(i + 1).drop_last() =~= all.take(i as int));
                assert(all.take(i + 1).last() == all[i as int]);
                assert(self@ =~= start.union_prefer_right(map_of(all.take(i + 1))));
            }
            i += 1;
        }
        assert(all.take(all.len() as int) =~= all);
    }
}

/// The first place where an address is listed.
pub open spec fn first_listed(l: Seq<Listed>, k: Seq<char>) -> Option<int> {
    if lists(l, k) {
        Some(choose|i: int| 0 <= i < l.len() && l[i].0 == k)
    } else {
        None
    }
}

/// Where no address is listed twice, the place of a listed address is the
/// place where it is found.
pub proof fn lemma_first_listed(l: Seq<Listed>, k: Seq<char>)
    requires
        distinct_keys(l),
    ensures
        forall|i: int| 0 <= i < l.len() && l[i].0 == k ==> first_listed(l, k) == Some(i),
{
    assert forall|i: int| 0 <= i < l.len() && l[i].0 == k implies first_listed(l, k) == Some(
        i,
    ) by {
        let c = choose|c: int| 0 <= c < l.len() && l[c].0 == k;
        if c < i {
            assert(l[c].0 != l[i].0);
        } else if i < c {
            assert(l[i].0 != l[c].0);
        }
    }
}

impl Clone for ImageMap {
    fn clone(&self) -> (r: Self)
        ensures
            r.listing() == self.listing(),
            r@ == self@,
    {
        let mut out: Vec<Entry> = Vec::new();
        let mut i: usize = 0;
        while i < self.entries.len()
            invariant
                i <= self.entries@.len(),
                out@.len() == i,
                forall|k: int| 0 <= k < i ==> listed(out@)[k] == self.listing()[k],
            decreases self.entries@.len() - i,
        {
            out.push(Entry { url: self.entries[i].url.clone(), image: self.entries[i].image.clone() });
            i += 1;
        }
        let r = ImageMap { entries: out };
        assert(r.listing() =~= self.listing());
        r
    }
}

/// The same items, last first.
pub fn reversed<T>(v: Vec<T>) -> (r: Vec<T>)
    ensures
        r@ == v@.reverse(),
{
    let mut items = v;
    let mut out: Vec<T> = Vec::new();
    while items.len() > 0
        invariant
            items@.len() <= v@.len(),
            items@ == v@.take(items@.len() as int),
            out@.len() == v@.len() - items@.len(),
            forall|k: int| 0 <= k < out@.len() ==> out@[k] == v@[v@.len() - 1 - k],
        decreases items@.len(),
    {
        let e = items.pop().unwrap();
        out.push(e);
    }
    assert(out@ =~= v@.reverse());
    out
}

/// The record as plain values.
pub open spec fn plain_record(image: ImageView) -> PlainRecordView {
    (image.u8_data, image.base64_data, image.filename, image.mime_type, image.file_path)
}

/// The record that the plain values make.
pub open spec fn image_of(r: PlainRecordView) -> ImageView {
    ImageView { u8_data: r.0, base64_data: r.1, filename: r.2, mime_type: r.3, file_path: r.4 }
}

/// The listing with its records as plain values.
pub open spec fn plain_of(l: Seq<Listed>) -> Seq<(Seq<char>, PlainRecordView)> {
    l.map_values(|e: Listed| (e.0, plain_record(e.1)))
}

/// The listing that the plain values make.
pub open spec fn listing_of(p: Seq<(Seq<char>, PlainRecordView)>) -> Seq<Listed> {
    p.map_values(|e: (Seq<char>, PlainRecordView)| (e.0, image_of(e.1)))
}

/// The bytes of the snapshot of a listing: the gzip stream, at the given
/// level, of the binary encoding of its entries.
pub open spec fn snapshot_of(l: Seq<Listed>, level: u32) -> Seq<u8> {
    gzip_of(bincode_encoding(plain_of(l)), level)
}

/// The listing that a snapshot holds, if the bytes are one.
pub open spec fn snapshot_listing(bytes: Seq<u8>) -> Option<Seq<Listed>> {
    match gunzip_of(bytes) {
        Some(data) => match bincode_decoding(data) {
            Some(entries) => Some(listing_of(entries)),
            None => None,
        },
        None => None,
    }
}

/// Why a snapshot could not be written or read.
#[derive(Clone, Copy, Debug, PartialEq, Eq, Structural)]
pub enum SnapshotError {
    /// The compression level is above 9.
    Level,
    /// The entries could not be encoded. The encoder writes into memory and
    /// refuses no entry, so this does not arise.
    Encode,
    /// The encoded entries could not be compressed. The compressor writes
    /// into memory, so this does not arise.
    Compress,
    /// The bytes are no gzip stream.
    Decompress,
    /// The decompressed bytes are no encoding of entries.
    Decode,
}

/// Putting the listed records into a map one after the other, from a map
/// that holds none of their addresses and where no address is listed twice,
/// lists them after what the map listed.
proof fn lemma_distinct_take(l: Seq<Listed>, n: int)
    requires
        distinct_keys(l),
        0 <= n < l.len(),
    ensures
        !lists(l.take(n), l[n].0),
        first_listed(l.take(n), l[n].0) is None,
        l.take(n).push((l[n].0, l[n].1)) == l.take(n + 1),
{
    if lists(l.take(n), l[n].0) {
        let i = choose|i: int| 0 <= i < l.take(n).len() && l.take(n)[i].0 == l[n].0;
        assert(l.take(n)[i] == l[i]);
        assert(l[i].0 != l[n].0);
    }
    assert(l.take(n).push((l[n].0, l[n].1)) =~= l.take(n + 1));
}

impl ImageMap {
    fn plain_entries(&self) -> (r: Vec<(String, PlainRecord)>)
        ensures
            plain_views(r@) == plain_of(self.listing()),
    {
        let mut out: Vec<(String, PlainRecord)> = Vec::new();
        let mut i: usize = 0;
        while i < self.entries.len()
            invariant
                i <= self.entries@.len(),
                out@.len() == i,
                forall|k: int| 0 <= k < i ==> plain_views(out@)[k] == plain_of(self.listing())[k],
            decreases self.entries@.len() - i,
        {
            let e = &self.entries[i];
            let image = e.image.clone();
            let ghost before = out@;
            out.push(
                (
                    e.url.clone(),
                    (image.u8_data, image.base64_data, image.filename, image.mime_type, image.file_path),
                ),
            );
            assert forall|k: int| 0 <= k < i + 1 implies plain_views(out@)[k] == plain_of(
                self.listing(),
            )[k] by {
                if k < i {
                    assert(out@[k] == before[k]);
                    assert(plain_views(before)[k] == plain_of(self.listing())[k]);
                }
            }
            i += 1;
        }
        assert(plain_views(out@) =~= plain_of(self.listing()));
        out
    }

    /// The map that holds the given entries, put in one after the other.
    fn from_plain(entries: Vec<(String, PlainRecord)>) -> (r: Self)
        ensures
            r.wf(),
            r@ == map_of(listing_of(plain_views(entries@))),
            distinct_keys(listing_of(plain_views(entries@))) ==> r.listing() == listing_of(
                plain_views(entries@),
            ),
    {
        let ghost all = listing_of(plain_views(entries@));
        let ghost count = entries@.len() as int;
        let mut turned = reversed(entries);
        let mut map = ImageMap::new();
        let ghost mut done: int = 0;
        assert(all.take(0) =~= Seq::<Listed>::empty());
        while turned.len() > 0
            invariant
                map.wf(),
                all.len() == count,
                0 <= done <= count,
                turned@.len() == count - done,
                forall|k: int|
                    0 <= k < turned@.len() ==> (turned@[k].0@, image_of(record_view(turned@[k].1)))
                        == all[count - 1 - k],
                map@ == map_of(all.take(done)),
                distinct_keys(all) ==> map.listing() == all.take(done),
            decreases turned@.len(),
        {
            let e = turned.pop().unwrap();
            let record = e.1;
            let image = ImageData {
                u8_data: record.0,
                base64_data: record.1,
                filename: record.2,
                mime_type: record.3,
                file_path: record.4,
            };
            assert((e.0@, image@) == all[done]);
            proof {
                assert(all.take(done + 1).drop_last() =~= all.take(done));
                assert(all.take(done + 1).last() == all[done]);
                if distinct_keys(all) {
                    lemma_distinct_take(all, done);
                }
            }
            map.insert(e.0, image);
            proof {
                done = done + 1;
            }
        }
        assert(all.take(count) =~= all);
        map
    }

    /// The snapshot of the map: its entries in binary encoding, compressed
    /// at the given level. There is one for every level up to 9, and none for
    /// a level above 9.
    pub fn to_snapshot(&self, level: u32) -> (r: Result<Vec<u8>, SnapshotError>)
        ensures
            match r {
                Ok(bytes) => level <= 9 && bytes@ == snapshot_of(self.listing(), level),
                Err(e) => level > 9 && e == SnapshotError::Level,
            },
    {
        if level > 9 {
            return Err(SnapshotError::Level);
        }
        let entries = self.plain_entries();
        let encoded = match encode_entries(&entries) {
            Ok(bytes) => bytes,
            Err(_) => {
                return Err(SnapshotError::Encode);
            },
        };
        match gzip(encoded.as_slice(), level) {
            Ok(bytes) => Ok(bytes),
            Err(_) => Err(SnapshotError::Compress),
        }
    }

    /// The map that a snapshot holds. Bytes that are no gzip stream, or whose
    /// data is no encoding of entries, are refused. The snapshot of a map, at
    /// any level up to 9, gives the map back as it was.
    pub fn from_snapshot(bytes: &[u8]) -> (r: Result<ImageMap, SnapshotError>)
        ensures
            match r {
                Ok(map) => map.wf() && snapshot_listing(bytes@) is Some && map@ == map_of(
                    snapshot_listing(bytes@)->Some_0,
                ),
                Err(e) => snapshot_listing(bytes@) is None && e == (if gunzip_of(bytes@) is None {
                    SnapshotError::Decompress
                } else {
                    SnapshotError::Decode
                }),
            },
            forall|l: Seq<Listed>, level: u32|
                level <= 9 && distinct_keys(l) && bytes@ == #[trigger] snapshot_of(l, level) ==> r is Ok
                    && r->Ok_0.listing() == l && r->Ok_0@ == map_of(l),
    {
        let data = match gunzip(bytes) {
            Ok(data) => data,
            Err(_) => {
                return Err(SnapshotError::Decompress);
            },
        };
        let entries = match decode_entries(data.as_slice()) {
            Ok(entries) => entries,
            Err(_) => {
                assert forall|l: Seq<Listed>, level: u32|
                    level <= 9 && distinct_keys(l) && bytes@ == #[trigger] snapshot_of(
                        l,
                        level,
                    ) implies false by {
                    assert(bytes@ == gzip_of(bincode_encoding(plain_of(l)), level));
                }
                return Err(SnapshotError::Decode);
            },
        };
        let map = ImageMap::from_plain(entries);
        assert forall|l: Seq<Listed>, level: u32|
            level <= 9 && distinct_keys(l) && bytes@ == #[trigger] snapshot_of(
                l,
                level,
            ) implies map.listing() == l && map@ == map_of(l) by {
            assert(bytes@ == gzip_of(bincode_encoding(plain_of(l)), level));
            assert(data@ == bincode_encoding(plain_of(l)));
            assert(plain_views(entries@) == plain_of(l));
            assert(listing_of(plain_of(l)) =~= l);
        }
        Ok(map)
    }
}

} // verus!
