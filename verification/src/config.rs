//! The options of the page capture tool: a set of keys with their values,
//! from which the tool's arguments are made.
//!
//! The keys are kept in the order of their bytes, so that two sets with the
//! same options are equal and give the same arguments. A value is nothing, a
//! text, a list of values, or any other JSON value: a truth value, a number
//! or an object. Such a value is held by its JSON text, which is what becomes
//! the argument.

use crate::text::push_str;
use crate::text::string_of;
use crate::volume::texts;
use vstd::prelude::*;

verus! {

/// A value that is not a list.
#[derive(Debug, PartialEq, Eq)]
pub enum Scalar {
    Null,
    Text(String),
    /// Any other value, by its JSON text.
    Json(String),
}

/// What a `Scalar` holds.
pub enum ScalarView {
    Null,
    Text(Seq<char>),
    Json(Seq<char>),
}

impl View for Scalar {
    type V = ScalarView;

    open spec fn view(&self) -> ScalarView {
        match self {
            Scalar::Null => ScalarView::Null,
            Scalar::Text(s) => ScalarView::Text(s@),
            Scalar::Json(s) => ScalarView::Json(s@),
        }
    }
}

impl Clone for Scalar {
    fn clone(&self) -> (r: Self)
        ensures
            r@ == self@,
    {
        match self {
            Scalar::Null => Scalar::Null,
            Scalar::Text(s) => Scalar::Text(s.clone()),
            Scalar::Json(s) => Scalar::Json(s.clone()),
        }
    }
}

/// The views of a sequence of scalars, in order.
pub open spec fn scalar_views(v: Seq<Scalar>) -> Seq<ScalarView> {
    v.map_values(|s: Scalar| s@)
}

/// The value of an option.
#[derive(Debug, PartialEq, Eq)]
pub enum ConfigValue {
    One(Scalar),
    Many(Vec<Scalar>),
}

/// What a `ConfigValue` holds.
pub enum ValueView {
    One(ScalarView),
    Many(Seq<ScalarView>),
}

impl View for ConfigValue {
    type V = ValueView;

    open spec fn view(&self) -> ValueView {
        match self {
            ConfigValue::One(s) => ValueView::One(s@),
            ConfigValue::Many(v) => ValueView::Many(scalar_views(v@)),
        }
    }
}

fn clone_scalars(v: &Vec<Scalar>) -> (r: Vec<Scalar>)
    ensures
        scalar_views(r@) == scalar_views(v@),
{
    let mut out: Vec<Scalar> = Vec::new();
    let mut i: usize = 0;
    while i < v.len()
        invariant
            i <= v@.len(),
            out@.len() == i,
            forall|k: int| 0 <= k < i ==> out@[k]@ == v@[k]@,
        decreases v@.len() - i,
    {
        out.push(v[i].clone());
        i += 1;
    }
    assert(scalar_views(out@) =~= scalar_views(v@));
    out
}

impl Clone for ConfigValue {
    fn clone(&self) -> (r: Self)
        ensures
            r@ == self@,
    {
        match self {
            ConfigValue::One(s) => ConfigValue::One(s.clone()),
            ConfigValue::Many(v) => ConfigValue::Many(clone_scalars(v)),
        }
    }
}

impl ConfigValue {
    /// The value that is a text.
    pub fn text(s: &str) -> (r: Self)
        ensures
            r@ == ValueView::One(ScalarView::Text(s@)),
    {
        ConfigValue::One(Scalar::Text(s.to_owned()))
    }

    /// The value with the given JSON text.
    pub fn json(s: &str) -> (r: Self)
        ensures
            r@ == ValueView::One(ScalarView::Json(s@)),
    {
        ConfigValue::One(Scalar::Json(s.to_owned()))
    }

    /// The value that is nothing.
    pub fn null() -> (r: Self)
        ensures
            r@ == ValueView::One(ScalarView::Null),
    {
        ConfigValue::One(Scalar::Null)
    }
}

/// Whether the bytes `a` come before the bytes `b` in the order of
/// dictionaries.
pub open spec fn comes_before(a: Seq<u8>, b: Seq<u8>) -> bool
    decreases a.len(),
{
    if b.len() == 0 {
        false
    } else if a.len() == 0 {
        true
    } else if a[0] != b[0] {
        a[0] < b[0]
    } else {
        comes_before(a.drop_first(), b.drop_first())
    }
}

/// Of two byte strings one comes before the other, or they are the same.
pub proof fn lemma_order_total(a: Seq<u8>, b: Seq<u8>)
    ensures
        comes_before(a, b) || comes_before(b, a) || a == b,
        !(comes_before(a, b) && comes_before(b, a)),
        !comes_before(a, a),
    decreases a.len(),
{
    if a.len() > 0 && b.len() > 0 && a[0] == b[0] {
        lemma_order_total(a.drop_first(), b.drop_first());
        if a.drop_first() == b.drop_first() {
            assert(a =~= seq![a[0]] + a.drop_first());
            assert(b =~= seq![b[0]] + b.drop_first());
        }
    }
    if a.len() == 0 && b.len() == 0 {
        assert(a =~= b);
    }
    if a.len() > 0 {
        lemma_order_irreflexive(a);
    }
}

/// No byte string comes before itself.
pub proof fn lemma_order_irreflexive(a: Seq<u8>)
    ensures
        !comes_before(a, a),
    decreases a.len(),
{
    if a.len() > 0 {
        lemma_order_irreflexive(a.drop_first());
    }
}

/// What comes before something that comes before a third comes before the
/// third.
pub proof fn lemma_order_transitive(a: Seq<u8>, b: Seq<u8>, c: Seq<u8>)
    requires
        comes_before(a, b),
        comes_before(b, c),
    ensures
        comes_before(a, c),
    decreases a.len(),
{
    if a.len() > 0 && b.len() > 0 && c.len() > 0 && a[0] == b[0] && b[0] == c[0] {
        lemma_order_transitive(a.drop_first(), b.drop_first(), c.drop_first());
    }
}

/// How one key stands to another.
#[derive(Clone, Copy, Debug, PartialEq, Eq, Structural)]
pub enum Place {
    Before,
    Same,
    After,
}

/// The bytes of a key.
pub open spec fn key_bytes(key: Seq<char>) -> Seq<u8> {
    vstd::utf8::encode_utf8(key)
}

/// How the key `a` stands to the key `b` in the order of their bytes.
pub fn place_of(a: &str, b: &str) -> (r: Place)
    ensures
        r == Place::Before <==> comes_before(key_bytes(a@), key_bytes(b@)),
        r == Place::After <==> comes_before(key_bytes(b@), key_bytes(a@)),
        r == Place::Same <==> a@ == b@,
{
    broadcast use vstd::utf8::encode_utf8_decode_utf8;

    let x = a.as_bytes();
    let y = b.as_bytes();
    proof {
        lemma_order_total(x@, y@);
        assert(vstd::utf8::decode_utf8(vstd::utf8::encode_utf8(a@)) == a@);
        assert(vstd::utf8::decode_utf8(vstd::utf8::encode_utf8(b@)) == b@);
    }
    let mut i: usize = 0;
    assert(x@.skip(0) =~= x@);
    assert(y@.skip(0) =~= y@);
    loop
        invariant
            i <= x@.len(),
            i <= y@.len(),
            comes_before(x@, y@) == comes_before(x@.skip(i as int), y@.skip(i as int)),
            comes_before(y@, x@) == comes_before(y@.skip(i as int), x@.skip(i as int)),
            (x@ == y@) == (x@.skip(i as int) == y@.skip(i as int)),
            x@ == key_bytes(a@),
            y@ == key_bytes(b@),
            comes_before(x@, y@) || comes_before(y@, x@) || x@ == y@,
            !(comes_before(x@, y@) && comes_before(y@, x@)),
            !comes_before(x@, x@),
            a@ == b@ <==> x@ == y@,
        decreases x@.len() - i,
    {
        if i == x.len() {
            if i == y.len() {
                assert(x@.skip(i as int) =~= y@.skip(i as int));
                return Place::Same;
            }
            return Place::Before;
        }
        if i == y.len() {
            return Place::After;
        }
        if x[i] < y[i] {
            assert(x@.skip(i as int)[0] == x@[i as int]);
            assert(y@.skip(i as int)[0] == y@[i as int]);
            return Place::Before;
        }
        if x[i] > y[i] {
            assert(x@.skip(i as int)[0] == x@[i as int]);
            assert(y@.skip(i as int)[0] == y@[i as int]);
            return Place::After;
        }
        proof {
            let xs = x@.skip(i as int);
            let ys = y@.skip(i as int);
            assert(xs[0] == x@[i as int]);
            assert(ys[0] == y@[i as int]);
            assert(xs.drop_first() =~= x@.skip(i + 1));
            assert(ys.drop_first() =~= y@.skip(i + 1));
            if xs.drop_first() == ys.drop_first() {
                assert(xs =~= seq![xs[0]] + xs.drop_first());
                assert(ys =~= seq![ys[0]] + ys.drop_first());
            }
        }
        i += 1;
    }
}

/// One option: a key and its value.
#[derive(Debug, PartialEq, Eq)]
pub struct ConfigEntry {
    pub key: String,
    pub value: ConfigValue,
}

/// What a list of options holds: the keys with their values, in order.
pub open spec fn entry_views(entries: Seq<ConfigEntry>) -> Seq<(Seq<char>, ValueView)> {
    entries.map_values(|e: ConfigEntry| (e.key@, e.value@))
}

/// The keys stand in the order of their bytes, each once.
pub open spec fn sorted(l: Seq<(Seq<char>, ValueView)>) -> bool {
    forall|i: int, j: int|
        0 <= i < j < l.len() ==> comes_before(key_bytes(l[i].0), key_bytes(l[j].0))
}

/// The place of a key in a list, if the list holds it.
pub open spec fn place(l: Seq<(Seq<char>, ValueView)>, key: Seq<char>) -> Option<int> {
    if exists|i: int| 0 <= i < l.len() && l[i].0 == key {
        Some(choose|i: int| 0 <= i < l.len() && l[i].0 == key)
    } else {
        None
    }
}

/// How many keys of a list come before a key.
pub open spec fn rank(l: Seq<(Seq<char>, ValueView)>, key: Seq<char>) -> int
    decreases l.len(),
{
    if l.len() == 0 {
        0
    } else if comes_before(key_bytes(l.last().0), key_bytes(key)) {
        rank(l.drop_last(), key) + 1
    } else {
        rank(l.drop_last(), key)
    }
}

/// The value of a key in a list.
pub open spec fn value_of(l: Seq<(Seq<char>, ValueView)>, key: Seq<char>) -> Option<ValueView> {
    match place(l, key) {
        Some(i) => Some(l[i].1),
        None => None,
    }
}

/// The list with the value of a key set: in place of the value that the key
/// had, or at the key's place in the order.
pub open spec fn with_value(l: Seq<(Seq<char>, ValueView)>, key: Seq<char>, value: ValueView) -> Seq<
    (Seq<char>, ValueView),
> {
    match place(l, key) {
        Some(i) => l.update(i, (key, value)),
        None => l.insert(rank(l, key), (key, value)),
    }
}

/// The list without a key.
pub open spec fn without_key(l: Seq<(Seq<char>, ValueView)>, key: Seq<char>) -> Seq<
    (Seq<char>, ValueView),
> {
    match place(l, key) {
        Some(i) => l.remove(i),
        None => l,
    }
}

/// The value of a key after one more value has been added to it: a list
/// grows by the value; another value becomes a list of itself and the new
/// one; a key without a value gets the new one.
pub open spec fn added(before: Option<ValueView>, value: ScalarView) -> ValueView {
    match before {
        Some(ValueView::Many(items)) => ValueView::Many(items.push(value)),
        Some(ValueView::One(first)) => ValueView::Many(seq![first, value]),
        None => ValueView::One(value),
    }
}

/// The arguments that a scalar becomes after the name of its option:
/// nothing and the empty text become none.
pub open spec fn scalar_args(value: ScalarView) -> Seq<Seq<char>> {
    match value {
        ScalarView::Null => Seq::empty(),
        ScalarView::Text(s) => if s.len() == 0 {
            Seq::empty()
        } else {
            seq![s]
        },
        ScalarView::Json(s) => seq![s],
    }
}

/// The arguments that the first `n` items of a list become: for each item
/// the name of the option, and then the item.
pub open spec fn items_args(key: Seq<char>, items: Seq<ScalarView>, n: nat) -> Seq<Seq<char>>
    decreases n,
{
    if n == 0 {
        Seq::empty()
    } else {
        items_args(key, items, (n - 1) as nat) + seq!["--"@ + key] + scalar_args(items[n - 1])
    }
}

/// The arguments that an option becomes.
pub open spec fn option_args(key: Seq<char>, value: ValueView) -> Seq<Seq<char>> {
    match value {
        ValueView::One(s) => seq!["--"@ + key] + scalar_args(s),
        ValueView::Many(items) => items_args(key, items, items.len()),
    }
}

/// The arguments that the first `n` options of a list become.
pub open spec fn args_of(l: Seq<(Seq<char>, ValueView)>, n: nat) -> Seq<Seq<char>>
    decreases n,
{
    if n == 0 {
        Seq::empty()
    } else {
        args_of(l, (n - 1) as nat) + option_args(l[n - 1].0, l[n - 1].1)
    }
}

/// In a sorted list a key is found at one place only.
pub proof fn lemma_place(l: Seq<(Seq<char>, ValueView)>, key: Seq<char>, i: int)
    requires
        sorted(l),
        0 <= i < l.len(),
        l[i].0 == key,
    ensures
        place(l, key) == Some(i),
{
    let c = choose|c: int| 0 <= c < l.len() && l[c].0 == key;
    lemma_order_irreflexive(key_bytes(key));
    if c < i {
        assert(comes_before(key_bytes(l[c].0), key_bytes(l[i].0)));
    } else if i < c {
        assert(comes_before(key_bytes(l[i].0), key_bytes(l[c].0)));
    }
}

/// In a sorted list of which the first `i` keys come before a key and the
/// others do not, `i` keys come before the key.
pub proof fn lemma_rank(l: Seq<(Seq<char>, ValueView)>, key: Seq<char>, i: int)
    requires
        0 <= i <= l.len(),
        forall|a: int| 0 <= a < i ==> comes_before(key_bytes(l[a].0), key_bytes(key)),
        forall|a: int| i <= a < l.len() ==> !comes_before(key_bytes(l[a].0), key_bytes(key)),
    ensures
        rank(l, key) == i,
    decreases l.len(),
{
    if l.len() > 0 {
        let front = l.drop_last();
        if i == l.len() {
            assert(comes_before(key_bytes(l[l.len() - 1].0), key_bytes(key)));
            assert forall|a: int| 0 <= a < i - 1 implies comes_before(
                key_bytes(front[a].0),
                key_bytes(key),
            ) by {
                assert(front[a] == l[a]);
            }
            lemma_rank(front, key, i - 1);
        } else {
            assert(!comes_before(key_bytes(l[l.len() - 1].0), key_bytes(key)));
            assert forall|a: int| 0 <= a < i implies comes_before(
                key_bytes(front[a].0),
                key_bytes(key),
            ) by {
                assert(front[a] == l[a]);
            }
            assert forall|a: int| i <= a < front.len() implies !comes_before(
                key_bytes(front[a].0),
                key_bytes(key),
            ) by {
                assert(front[a] == l[a]);
            }
            lemma_rank(front, key, i);
        }
    }
}

/// Why an option could not be changed.
#[derive(Clone, Copy, Debug, PartialEq, Eq, Structural)]
pub enum ConfigError {
    /// The set holds no option of that key.
    MissingKey,
}

/// A set of options.
#[derive(Debug, PartialEq, Eq)]
pub struct DynamicConfig {
    entries: Vec<ConfigEntry>,
}

impl View for DynamicConfig {
    type V = Seq<(Seq<char>, ValueView)>;

    closed spec fn view(&self) -> Seq<(Seq<char>, ValueView)> {
        entry_views(self.entries@)
    }
}

impl DynamicConfig {
    /// The keys stand in the order of their bytes, each once.
    pub open spec fn wf(&self) -> bool {
        sorted(self@)
    }

    /// A set without options.
    pub fn new() -> (r: Self)
        ensures
            r@.len() == 0,
            r.wf(),
    {
        DynamicConfig { entries: Vec::new() }
    }

    /// How many options the set holds.
    pub fn len(&self) -> (r: usize)
        ensures
            r == self@.len(),
    {
        self.entries.len()
    }

    /// The options, in the order of their keys.
    pub fn entries(&self) -> (r: &Vec<ConfigEntry>)
        ensures
            entry_views(r@) == self@,
    {
        &self.entries
    }

    /// Where the key stands, and whether the set holds it: the place of the
    /// key if it does, else the place at which it would stand.
    fn locate(&self, key: &str) -> (r: (usize, bool))
        requires
            self.wf(),
        ensures
            r.1 ==> place(self@, key@) == Some(r.0 as int) && r.0 < self@.len(),
            !r.1 ==> place(self@, key@) is None && rank(self@, key@) == r.0 && r.0 <= self@.len(),
            !r.1 ==> forall|a: int|
                0 <= a < r.0 ==> comes_before(key_bytes(self@[a].0), key_bytes(key@)),
            !r.1 ==> forall|a: int|
                r.0 <= a < self@.len() ==> comes_before(key_bytes(key@), key_bytes(self@[a].0)),
    {
        let mut i: usize = 0;
        while i < self.entries.len()
            invariant
                self.wf(),
                i <= self.entries@.len(),
                forall|a: int| 0 <= a < i ==> comes_before(key_bytes(self@[a].0), key_bytes(key@)),
            decreases self.entries@.len() - i,
        {
            assert(self@[i as int].0 == self.entries@[i as int].key@);
            match place_of(self.entries[i].key.as_str(), key) {
                Place::Before => {},
                Place::Same => {
                    proof {
                        lemma_place(self@, key@, i as int);
                    }
                    return (i, true);
                },
                Place::After => {
                    proof {
                        let l = self@;
                        assert forall|a: int| i <= a < l.len() implies comes_before(
                            key_bytes(key@),
                            key_bytes(l[a].0),
                        ) by {
                            if a > i {
                                assert(comes_before(key_bytes(l[i as int].0), key_bytes(l[a].0)));
                                lemma_order_transitive(
                                    key_bytes(key@),
                                    key_bytes(l[i as int].0),
                                    key_bytes(l[a].0),
                                );
                            }
                        }
                        assert forall|a: int| i <= a < l.len() implies !comes_before(
                            key_bytes(l[a].0),
                            key_bytes(key@),
                        ) by {
                            lemma_order_total(key_bytes(l[a].0), key_bytes(key@));
                        }
                        lemma_rank(l, key@, i as int);
                        if exists|c: int| 0 <= c < l.len() && l[c].0 == key@ {
                            let c = choose|c: int| 0 <= c < l.len() && l[c].0 == key@;
                            lemma_order_irreflexive(key_bytes(key@));
                        }
                    }
                    return (i, false);
                },
            }
            i += 1;
        }
        proof {
            let l = self@;
            lemma_rank(l, key@, i as int);
            if exists|c: int| 0 <= c < l.len() && l[c].0 == key@ {
                let c = choose|c: int| 0 <= c < l.len() && l[c].0 == key@;
                lemma_order_irreflexive(key_bytes(key@));
            }
        }
        (i, false)
    }

    /// The value of the option with the given key, if the set holds one.
    pub fn get(&self, key: &str) -> (r: Option<&ConfigValue>)
        requires
            self.wf(),
        ensures
            match r {
                Some(value) => value_of(self@, key@) == Some(value@),
                None => value_of(self@, key@) is None,
            },
    {
        let (i, found) = self.locate(key);
        if found {
            assert(self@[i as int].1 == self.entries@[i as int].value@);
            Some(&self.entries[i].value)
        } else {
            None
        }
    }

    fn put(&mut self, key: &str, value: ConfigValue)
        requires
            old(self).wf(),
        ensures
            final(self).wf(),
            final(self)@ == with_value(old(self)@, key@, value@),
    {
        let (i, found) = self.locate(key);
        let ghost before = self@;
        if found {
            self.entries.set(i, ConfigEntry { key: key.to_owned(), value });
            assert(self@ =~= before.update(i as int, (key@, value@)));
            assert(sorted(self@)) by {
                assert forall|a: int, b: int| 0 <= a < b < self@.len() implies comes_before(
                    key_bytes(self@[a].0),
                    key_bytes(self@[b].0),
                ) by {
                    assert(self@[a].0 == before[a].0 && self@[b].0 == before[b].0);
                }
            }
        } else {
            self.entries.insert(i, ConfigEntry { key: key.to_owned(), value });
            assert(self@ =~= before.insert(i as int, (key@, value@)));
            assert(sorted(self@)) by {
                assert forall|a: int, b: int| 0 <= a < b < self@.len() implies comes_before(
                    key_bytes(self@[a].0),
                    key_bytes(self@[b].0),
                ) by {
                    let a0 = if a < i { a } else { a - 1 };
                    let b0 = if b < i { b } else { b - 1 };
                    if a != i {
                        assert(self@[a] == before[a0]);
                    }
                    if b != i {
                        assert(self@[b] == before[b0]);
                    }
                    if a != i && b != i {
                        assert(comes_before(key_bytes(before[a0].0), key_bytes(before[b0].0)));
                    }
                }
            }
        }
    }

    /// Sets the value of an option.
    pub fn set(&mut self, key: &str, value: ConfigValue) -> (r: Result<(), ConfigError>)
        requires
            old(self).wf(),
        ensures
            r is Ok,
            final(self).wf(),
            final(self)@ == with_value(old(self)@, key@, value@),
    {
        self.put(key, value);
        Ok(())
    }

    /// Sets the value of an option and gives the set back, for the next
    /// option.
    pub fn with_set(self, key: &str, value: ConfigValue) -> (r: Self)
        requires
            self.wf(),
        ensures
            r.wf(),
            r@ == with_value(self@, key@, value@),
    {
        let mut config = self;
        config.put(key, value);
        config
    }

    /// The values of an option: the items of a list, the one value of
    /// another option, none where the set holds no such option.
    pub fn get_multi(&self, key: &str) -> (r: Vec<&Scalar>)
        requires
            self.wf(),
        ensures
            r@.map_values(|s: &Scalar| s@) == match value_of(self@, key@) {
                Some(ValueView::Many(items)) => items,
                Some(ValueView::One(s)) => seq![s],
                None => Seq::empty(),
            },
    {
        let ghost view = |s: &Scalar| s@;
        let mut out: Vec<&Scalar> = Vec::new();
        match self.get(key) {
            Some(ConfigValue::Many(items)) => {
                let mut i: usize = 0;
                while i < items.len()
                    invariant
                        i <= items@.len(),
                        out@.len() == i,
                        forall|k: int| 0 <= k < i ==> out@[k]@ == items@[k]@,
                    decreases items@.len() - i,
                {
                    out.push(&items[i]);
                    i += 1;
                }
                assert(out@.map_values(|s: &Scalar| s@) =~= scalar_views(items@));
            },
            Some(ConfigValue::One(s)) => {
                out.push(s);
                assert(out@.map_values(|s: &Scalar| s@) =~= seq![s@]);
            },
            None => {
                assert(out@.map_values(|s: &Scalar| s@) =~= Seq::<ScalarView>::empty());
            },
        }
        out
    }

    /// Adds a value to an option: to the items of a list; to another value,
    /// which becomes a list of the two; or as the value of a new option.
    pub fn add(&mut self, key: &str, value: Scalar) -> (r: Result<(), ConfigError>)
        requires
            old(self).wf(),
        ensures
            r is Ok,
            final(self).wf(),
            final(self)@ == with_value(
                old(self)@,
                key@,
                added(value_of(old(self)@, key@), value@),
            ),
    {
        let grown = match self.get(key) {
            Some(ConfigValue::Many(items)) => {
                let mut list = clone_scalars(items);
                let ghost before = scalar_views(list@);
                list.push(value);
                assert(scalar_views(list@) =~= before.push(value@));
                ConfigValue::Many(list)
            },
            Some(ConfigValue::One(first)) => {
                let mut list: Vec<Scalar> = Vec::new();
                list.push(first.clone());
                list.push(value);
                assert(scalar_views(list@) =~= seq![first@, value@]);
                ConfigValue::Many(list)
            },
            None => ConfigValue::One(value),
        };
        self.put(key, grown);
        Ok(())
    }

    /// Takes an option out of the set. A set that holds no option of that
    /// key stays as it is.
    pub fn remove(&mut self, key: &str) -> (r: Result<(), ConfigError>)
        requires
            old(self).wf(),
        ensures
            final(self).wf(),
            final(self)@ == without_key(old(self)@, key@),
            match r {
                Ok(_) => value_of(old(self)@, key@) is Some,
                Err(e) => value_of(old(self)@, key@) is None && e == ConfigError::MissingKey,
            },
    {
        let (i, found) = self.locate(key);
        if !found {
            return Err(ConfigError::MissingKey);
        }
        let ghost before = self@;
        self.entries.remove(i);
        assert(self@ =~= before.remove(i as int));
        assert(sorted(self@)) by {
            assert forall|a: int, b: int| 0 <= a < b < self@.len() implies comes_before(
                key_bytes(self@[a].0),
                key_bytes(self@[b].0),
            ) by {
                let a0 = if a < i { a } else { a + 1 };
                let b0 = if b < i { b } else { b + 1 };
                assert(self@[a] == before[a0] && self@[b] == before[b0]);
            }
        }
        Ok(())
    }

    /// The arguments of the tool: for each option, in the order of the
    /// keys, its name after two hyphens and then its value; for a list, the
    /// name and the value once for each item.
    pub fn to_args(&self) -> (r: Result<Vec<String>, ConfigError>)
        ensures
            r is Ok,
            texts(r->Ok_0@) == args_of(self@, self@.len()),
    {
        let mut args: Vec<String> = Vec::new();
        let mut i: usize = 0;
        assert(texts(args@) =~= args_of(self@, 0));
        while i < self.entries.len()
            invariant
                i <= self.entries@.len(),
                texts(args@) == args_of(self@, i as nat),
            decreases self.entries@.len() - i,
        {
            let entry = &self.entries[i];
            assert(self@[i as int] == (entry.key@, entry.value@));
            let ghost before = texts(args@);
            match &entry.value {
                ConfigValue::One(s) => {
                    Self::add_arg(&mut args, entry.key.as_str(), s);
                },
                ConfigValue::Many(items) => {
                    let mut k: usize = 0;
                    assert(texts(args@) =~= before + items_args(entry.key@, scalar_views(items@), 0));
                    while k < items.len()
                        invariant
                            k <= items@.len(),
                            texts(args@) == before + items_args(
                                entry.key@,
                                scalar_views(items@),
                                k as nat,
                            ),
                        decreases items@.len() - k,
                    {
                        let ghost so_far = texts(args@);
                        Self::add_arg(&mut args, entry.key.as_str(), &items[k]);
                        assert(scalar_views(items@)[k as int] == items@[k as int]@);
                        assert(texts(args@) =~= before + items_args(
                            entry.key@,
                            scalar_views(items@),
                            (k + 1) as nat,
                        ));
                        k += 1;
                    }
                },
            }
            assert(texts(args@) =~= before + option_args(entry.key@, entry.value@));
            i += 1;
        }
        Ok(args)
    }

    /// Appends the name of an option and one value of it to the arguments.
    pub fn add_arg(args: &mut Vec<String>, key: &str, value: &Scalar)
        ensures
            texts(final(args)@) == texts(old(args)@) + seq!["--"@ + key@] + scalar_args(value@),
    {
        let ghost before = texts(args@);
        let mut name: Vec<char> = Vec::new();
        push_str(&mut name, "--");
        push_str(&mut name, key);
        args.push(string_of(&name));
        assert(texts(args@) =~= before + seq!["--"@ + key@]);
        let ghost named = texts(args@);
        match value {
            Scalar::Null => {
                assert(texts(args@) =~= named + scalar_args(value@));
            },
            Scalar::Text(s) => {
                if s.as_str().unicode_len() > 0 {
                    args.push(s.clone());
                    assert(texts(args@) =~= named + seq![s@]);
                } else {
                    assert(texts(args@) =~= named + scalar_args(value@));
                }
            },
            Scalar::Json(s) => {
                args.push(s.clone());
                assert(texts(args@) =~= named + seq![s@]);
            },
        }
    }

    /// The path of the tool, where the options name it as a text.
    pub fn get_executable_path(&self) -> (r: Option<String>)
        requires
            self.wf(),
        ensures
            match r {
                Some(path) => value_of(self@, "single-file-path"@) == Some(
                    ValueView::One(ScalarView::Text(path@)),
                ),
                None => !(value_of(self@, "single-file-path"@) matches Some(
                    ValueView::One(ScalarView::Text(_)),
                )),
            },
    {
        match self.get("single-file-path") {
            Some(ConfigValue::One(Scalar::Text(s))) => Some(s.clone()),
            _ => None,
        }
    }
}

impl Clone for DynamicConfig {
    fn clone(&self) -> (r: Self)
        ensures
            r@ == self@,
    {
        let mut out: Vec<ConfigEntry> = Vec::new();
        let mut i: usize = 0;
        while i < self.entries.len()
            invariant
                i <= self.entries@.len(),
                out@.len() == i,
                forall|k: int| 0 <= k < i ==> entry_views(out@)[k] == self@[k],
            decreases self.entries@.len() - i,
        {
            out.push(
                ConfigEntry { key: self.entries[i].key.clone(), value: self.entries[i].value.clone() },
            );
            i += 1;
        }
        let r = DynamicConfig { entries: out };
        assert(r@ =~= self@);
        r
    }
}

impl Default for DynamicConfig {
    /// The options that a capture starts from.
    fn default() -> (r: Self)
        ensures
            r.wf(),
            r@ == with_value(
                with_value(
                    with_value(
                        with_value(
                            Seq::<(Seq<char>, ValueView)>::empty(),
                            "remove-hidden-elements"@,
                            ValueView::One(ScalarView::Json("false"@)),
                        ),
                        "dump-content"@,
                        ValueView::One(ScalarView::Json("true"@)),
                    ),
                    "output-json"@,
                    ValueView::One(ScalarView::Json("true"@)),
                ),
                "browser-arg"@,
                ValueView::Many(
                    seq![
                        ScalarView::Text("--user-data-dir=D:\\Singlefile data"@),
                        ScalarView::Text("--profile-directory=Default"@),
                    ],
                ),
            ),
    {
        let mut browser: Vec<Scalar> = Vec::new();
        browser.push(Scalar::Text("--user-data-dir=D:\\Singlefile data".to_owned()));
        browser.push(Scalar::Text("--profile-directory=Default".to_owned()));
        assert(scalar_views(browser@) =~= seq![
            ScalarView::Text("--user-data-dir=D:\\Singlefile data"@),
            ScalarView::Text("--profile-directory=Default"@),
        ]);
        let start = DynamicConfig::new();
        assert(start@ =~= Seq::<(Seq<char>, ValueView)>::empty());
        start.with_set("remove-hidden-elements", ConfigValue::json("false")).with_set(
            "dump-content",
            ConfigValue::json("true"),
        ).with_set("output-json", ConfigValue::json("true")).with_set(
            "browser-arg",
            ConfigValue::Many(browser),
        )
    }
}

} // verus!
