//! Equality-comparable values extracted from records for secondary
//! indexing, and the types that offer them.

use vstd::prelude::*;
use vstd::std_specs::convert::FromSpecImpl;
use std::sync::Arc;
use dashmap::{DashMap, DashSet};

verus! {

/// An equality-comparable value extracted from a record for indexing.
#[derive(Debug, Clone, PartialEq, Eq, Hash)]
pub enum IndexValue {
    Str(String),
    Int(i64),
    Bool(bool),
}

/// An index value as plain data.
pub enum ValueView {
    Str(Seq<char>),
    Int(i64),
    Bool(bool),
}

impl View for IndexValue {
    type V = ValueView;

    open spec fn view(&self) -> ValueView {
        match self {
            IndexValue::Str(s) => ValueView::Str(s@),
            IndexValue::Int(i) => ValueView::Int(*i),
            IndexValue::Bool(b) => ValueView::Bool(*b),
        }
    }
}

/// An optional index value as plain data.
pub open spec fn opt_view(v: Option<IndexValue>) -> Option<ValueView> {
    match v {
        Some(x) => Some(x@),
        None => None,
    }
}

impl From<String> for IndexValue {
    fn from(value: String) -> (r: Self) {
        IndexValue::Str(value)
    }
}

impl FromSpecImpl<String> for IndexValue {
    open spec fn obeys_from_spec() -> bool {
        true
    }

    open spec fn from_spec(v: String) -> Self {
        IndexValue::Str(v)
    }
}

impl<'a> From<&'a str> for IndexValue {
    fn from(value: &'a str) -> (r: Self)
        ensures
            r@ == ValueView::Str(value@),
    {
        IndexValue::Str(value.to_string())
    }
}

/// A `String` is known only by its characters, so `from` is specified by
/// the view of its result (above) and not by a spec-level value.
impl<'a> FromSpecImpl<&'a str> for IndexValue {
    open spec fn obeys_from_spec() -> bool {
        false
    }

    open spec fn from_spec(v: &'a str) -> Self {
        IndexValue::Str(choose|s: String| s@ == v@)
    }
}

impl From<i64> for IndexValue {
    fn from(value: i64) -> (r: Self) {
        IndexValue::Int(value)
    }
}

impl FromSpecImpl<i64> for IndexValue {
    open spec fn obeys_from_spec() -> bool {
        true
    }

    open spec fn from_spec(v: i64) -> Self {
        IndexValue::Int(v)
    }
}

impl From<i32> for IndexValue {
    fn from(value: i32) -> (r: Self) {
        IndexValue::Int(value as i64)
    }
}

impl FromSpecImpl<i32> for IndexValue {
    open spec fn obeys_from_spec() -> bool {
        true
    }

    open spec fn from_spec(v: i32) -> Self {
        IndexValue::Int(v as i64)
    }
}

impl From<bool> for IndexValue {
    fn from(value: bool) -> (r: Self) {
        IndexValue::Bool(value)
    }
}

impl FromSpecImpl<bool> for IndexValue {
    open spec fn obeys_from_spec() -> bool {
        true
    }

    open spec fn from_spec(v: bool) -> Self {
        IndexValue::Bool(v)
    }
}

/// Implemented by value types that expose named fields eligible for
/// secondary indexing.
pub trait Indexable {
    /// The value stored at `field`, if the value has such a field.
    spec fn index_spec(&self, field: Seq<char>) -> Option<ValueView>;

    /// Returns the equality-index value stored at `field`, or `None` if this
    /// value has no such field.
    fn index_value(&self, field: &str) -> (r: Option<IndexValue>)
        ensures
            opt_view(r) == self.index_spec(field@),
    ;
}

impl Indexable for Vec<u8> {
    /// Opaque bytes have no fields.
    open spec fn index_spec(&self, field: Seq<char>) -> Option<ValueView> {
        None
    }

    fn index_value(&self, _field: &str) -> (r: Option<IndexValue>) {
        None
    }
}

impl Indexable for i32 {
    /// A number has no fields.
    open spec fn index_spec(&self, field: Seq<char>) -> Option<ValueView> {
        None
    }

    fn index_value(&self, _field: &str) -> (r: Option<IndexValue>) {
        None
    }
}

#[verifier::external_type_specification]
#[verifier::external_body]
#[verifier::reject_recursive_types(K)]
#[verifier::reject_recursive_types(S)]
pub struct ExDashSet<K, S>(DashSet<K, S>);

/// The index of one field: value to the keys that hold it.
pub type Buckets = Map<ValueView, Set<Seq<char>>>;

/// What a `DashSet` of keys holds.
pub uninterp spec fn key_set(s: DashSet<String>) -> Set<Seq<char>>;

/// What a `DashMap` from index values to key sets holds.
pub uninterp spec fn buckets_of(m: DashMap<IndexValue, DashSet<String>>) -> Buckets;

/// What the `DashMap` of registered fields holds: each field's buckets.
pub uninterp spec fn fields_of(m: DashMap<String, DashMap<IndexValue, DashSet<String>>>) -> Map<
    Seq<char>,
    Buckets,
>;

/// The texts of a list of strings, as a set.
pub open spec fn text_set(v: Seq<String>) -> Set<Seq<char>> {
    v.map_values(|s: String| s@).to_set()
}

/// A list of strings in which no text occurs twice.
pub open spec fn distinct_texts(v: Seq<String>) -> bool {
    v.map_values(|s: String| s@).no_duplicates()
}

/// `DashSet::new`: an empty set.
#[verifier::external_body]
fn set_new() -> (r: DashSet<String>)
    ensures
        key_set(r) == Set::<Seq<char>>::empty(),
{
    DashSet::new()
}

/// `DashSet::insert`: adds the key.
#[verifier::external_body]
fn set_insert(s: &mut DashSet<String>, key: String)
    ensures
        key_set(*final(s)) == key_set(*old(s)).insert(key@),
{
    s.insert(key);
}

/// `DashSet::remove`: takes the key out, if it is there.
#[verifier::external_body]
fn set_remove(s: &mut DashSet<String>, key: &String)
    ensures
        key_set(*final(s)) == key_set(*old(s)).remove(key@),
{
    s.remove(key);
}

/// `DashSet::is_empty`.
#[verifier::external_body]
fn set_is_empty(s: &DashSet<String>) -> (r: bool)
    ensures
        r == (key_set(*s) == Set::<Seq<char>>::empty()),
{
    s.is_empty()
}

/// `DashMap::new` for one field's buckets: no buckets.
#[verifier::external_body]
fn buckets_new() -> (r: DashMap<IndexValue, DashSet<String>>)
    ensures
        buckets_of(r) == Buckets::empty(),
{
    DashMap::new()
}

/// `DashMap::insert` of a bucket: sets the value's key set, replacing any
/// earlier one.
#[verifier::external_body]
fn buckets_insert(m: &mut DashMap<IndexValue, DashSet<String>>, value: IndexValue, set: DashSet<String>)
    ensures
        buckets_of(*final(m)) == buckets_of(*old(m)).insert(value@, key_set(set)),
{
    m.insert(value, set);
}

/// `DashMap::remove` of a bucket: takes the value's key set out, if it is
/// there.
#[verifier::external_body]
fn buckets_remove(m: &mut DashMap<IndexValue, DashSet<String>>, value: &IndexValue) -> (r: Option<
    DashSet<String>,
>)
    ensures
        buckets_of(*final(m)) == buckets_of(*old(m)).remove(value@),
        match r {
            Some(set) => buckets_of(*old(m)).contains_key(value@) && key_set(set) == buckets_of(
                *old(m),
            )[value@],
            None => !buckets_of(*old(m)).contains_key(value@),
        },
{
    match m.remove(value) {
        Some((_, set)) => Some(set),
        None => None,
    }
}

/// No registered field.
pub open spec fn no_fields() -> Map<Seq<char>, Buckets> {
    Map::empty()
}

/// `DashMap::new` for the registered fields: none.
#[verifier::external_body]
fn fields_new() -> (r: DashMap<String, DashMap<IndexValue, DashSet<String>>>)
    ensures
        fields_of(r) == no_fields(),
{
    DashMap::new()
}

/// `DashMap::contains_key` on the registered fields.
#[verifier::external_body]
fn fields_contains(m: &DashMap<String, DashMap<IndexValue, DashSet<String>>>, field: &str) -> (r: bool)
    ensures
        r == fields_of(*m).contains_key(field@),
{
    m.contains_key(field)
}

/// `DashMap::insert` of a field's buckets, replacing any earlier ones.
#[verifier::external_body]
fn fields_insert(
    m: &mut DashMap<String, DashMap<IndexValue, DashSet<String>>>,
    field: String,
    buckets: DashMap<IndexValue, DashSet<String>>,
)
    ensures
        fields_of(*final(m)) == fields_of(*old(m)).insert(field@, buckets_of(buckets)),
{
    m.insert(field, buckets);
}

/// `DashMap::remove` of a field: takes its buckets out, if it is there.
#[verifier::external_body]
fn fields_remove(m: &mut DashMap<String, DashMap<IndexValue, DashSet<String>>>, field: &str) -> (r: Option<
    DashMap<IndexValue, DashSet<String>>,
>)
    ensures
        fields_of(*final(m)) == fields_of(*old(m)).remove(field@),
        match r {
            Some(b) => fields_of(*old(m)).contains_key(field@) && buckets_of(b) == fields_of(
                *old(m),
            )[field@],
            None => !fields_of(*old(m)).contains_key(field@),
        },
{
    match m.remove(field) {
        Some((_, b)) => Some(b),
        None => None,
    }
}

/// `DashMap::iter` over the registered fields, each name copied out. The
/// order is that of the map's shards, which is left open: the result holds
/// every registered field once.
#[verifier::external_body]
fn fields_names(m: &DashMap<String, DashMap<IndexValue, DashSet<String>>>) -> (r: Vec<String>)
    ensures
        text_set(r@) == fields_of(*m).dom(),
        distinct_texts(r@),
{
    m.iter().map(|e| e.key().clone()).collect()
}

/// `DashMap::get` on the registered fields and then on the field's
/// buckets, the keys of the bucket copied out in the set's own order, which
/// is left open: the result holds each key of the bucket once.
#[verifier::external_body]
fn fields_lookup(
    m: &DashMap<String, DashMap<IndexValue, DashSet<String>>>,
    field: &str,
    value: &IndexValue,
) -> (r: Vec<String>)
    ensures
        text_set(r@) == found(fields_of(*m), field@, value@),
        distinct_texts(r@),
{
    match m.get(field) {
        Some(b) => match b.value().get(value) {
            Some(set) => set.value().iter().map(|k| k.key().clone()).collect(),
            None => Vec::new(),
        },
        None => Vec::new(),
    }
}

/// The keys indexed under `field == value`: none where the field is not
/// registered or no key holds the value.
pub open spec fn found(fields: Map<Seq<char>, Buckets>, field: Seq<char>, value: ValueView) -> Set<
    Seq<char>,
> {
    if fields.contains_key(field) && fields[field].contains_key(value) {
        fields[field][value]
    } else {
        Set::empty()
    }
}

/// The key set of `value`, empty where there is no bucket for it.
pub open spec fn bucket(b: Buckets, value: ValueView) -> Set<Seq<char>> {
    if b.contains_key(value) {
        b[value]
    } else {
        Set::empty()
    }
}

/// The buckets after `key`'s value at the field changed from `before` to
/// `after`: the key leaves its old bucket, which is dropped once empty, and
/// joins its new one. Nothing changes when the value stayed the same.
pub open spec fn moved(b: Buckets, key: Seq<char>, before: Option<ValueView>, after: Option<ValueView>) -> Buckets {
    if before == after {
        b
    } else {
        let b1 = match before {
            Some(v) => if b.contains_key(v) {
                let rest = b[v].remove(key);
                if rest == Set::<Seq<char>>::empty() {
                    b.remove(v)
                } else {
                    b.insert(v, rest)
                }
            } else {
                b
            },
            None => b,
        };
        match after {
            Some(v) => b1.insert(v, bucket(b1, v).insert(key)),
            None => b1,
        }
    }
}

/// The buckets of a field built from keys and their values at the field,
/// in order; a key without a value is skipped.
pub open spec fn filled(entries: Seq<(Seq<char>, Option<ValueView>)>) -> Buckets
    decreases entries.len(),
{
    if entries.len() == 0 {
        Buckets::empty()
    } else {
        let b = filled(entries.drop_last());
        let (k, v) = entries.last();
        match v {
            Some(iv) => b.insert(iv, bucket(b, iv).insert(k)),
            None => b,
        }
    }
}

/// The keys of `entries` paired with each record's value at `field`.
pub open spec fn keyed<V: Indexable>(entries: Seq<(String, Arc<V>)>, field: Seq<char>) -> Seq<
    (Seq<char>, Option<ValueView>),
> {
    Seq::new(entries.len(), |i: int| (entries[i].0@, (*entries[i].1).index_spec(field)))
}

/// The value at `field` of a record that may be absent: none where it is.
pub open spec fn side<V: Indexable>(v: Option<&V>, field: Seq<char>) -> Option<ValueView> {
    match v {
        Some(x) => x.index_spec(field),
        None => None,
    }
}

/// Keys and their values at a field, as plain data.
pub open spec fn entries_view(entries: Seq<(String, Option<IndexValue>)>) -> Seq<(Seq<char>, Option<ValueView>)> {
    entries.map_values(|e: (String, Option<IndexValue>)| (e.0@, opt_view(e.1)))
}

fn same_value(a: &Option<IndexValue>, b: &Option<IndexValue>) -> (r: bool)
    ensures
        r == (opt_view(*a) == opt_view(*b)),
{
    match (a, b) {
        (None, None) => true,
        (Some(x), Some(y)) => match (x, y) {
            (IndexValue::Str(p), IndexValue::Str(q)) => p.eq(q),
            (IndexValue::Int(p), IndexValue::Int(q)) => *p == *q,
            (IndexValue::Bool(p), IndexValue::Bool(q)) => *p == *q,
            _ => false,
        },
        _ => false,
    }
}

fn clone_value(v: &IndexValue) -> (r: IndexValue)
    ensures
        r@ == v@,
{
    match v {
        IndexValue::Str(s) => IndexValue::Str(s.clone()),
        IndexValue::Int(i) => IndexValue::Int(*i),
        IndexValue::Bool(b) => IndexValue::Bool(*b),
    }
}

/// Moves `key` from the bucket of `before` to that of `after`.
fn move_key(
    buckets: &mut DashMap<IndexValue, DashSet<String>>,
    key: &String,
    before: Option<IndexValue>,
    after: Option<IndexValue>,
)
    requires
        opt_view(before) != opt_view(after),
    ensures
        buckets_of(*final(buckets)) == moved(buckets_of(*old(buckets)), key@, opt_view(before), opt_view(after)),
{
    if let Some(v) = before {
        if let Some(mut set) = buckets_remove(buckets, &v) {
            set_remove(&mut set, key);
            if !set_is_empty(&set) {
                buckets_insert(buckets, v, set);
            }
        }
    }
    if let Some(v) = after {
        let mut set = match buckets_remove(buckets, &v) {
            Some(s) => s,
            None => set_new(),
        };
        set_insert(&mut set, key.clone());
        buckets_insert(buckets, v, set);
    }
}

/// An index kept in sync with a key's value stays in sync: if `key` was in
/// exactly the bucket of its old value, then after the change it is in
/// exactly the bucket of its new value. Other keys keep their buckets, and
/// no empty bucket is left behind.
pub proof fn law_on_change_tracks_the_value(
    b: Buckets,
    key: Seq<char>,
    before: Option<ValueView>,
    after: Option<ValueView>,
)
    requires
        forall|v: ValueView| #[trigger] bucket(b, v).contains(key) <==> before == Some(v),
    ensures
        forall|v: ValueView| #[trigger] bucket(moved(b, key, before, after), v).contains(key) <==> after
            == Some(v),
        forall|k: Seq<char>, v: ValueView| k != key ==> (#[trigger] bucket(moved(b, key, before, after), v).contains(k)
            <==> bucket(b, v).contains(k)),
        (forall|v: ValueView| #[trigger] b.contains_key(v) ==> b[v] != Set::<Seq<char>>::empty()) ==> (
        forall|v: ValueView| #[trigger] moved(b, key, before, after).contains_key(v) ==> moved(
            b,
            key,
            before,
            after,
        )[v] != Set::<Seq<char>>::empty()),
{
    let m = moved(b, key, before, after);
    if before != after {
        let b1 = match before {
            Some(w) => if b.contains_key(w) {
                let rest = b[w].remove(key);
                if rest == Set::<Seq<char>>::empty() {
                    b.remove(w)
                } else {
                    b.insert(w, rest)
                }
            } else {
                b
            },
            None => b,
        };
        assert forall|v: ValueView| !(#[trigger] bucket(b1, v).contains(key)) by {
            assert(bucket(b, v).contains(key) <==> before == Some(v));
            if before == Some(v) {
                assert(b.contains_key(v));
            }
        }
        assert(m == match after {
            Some(v) => b1.insert(v, bucket(b1, v).insert(key)),
            None => b1,
        });
        assert forall|v: ValueView| #[trigger] bucket(m, v).contains(key) <==> after == Some(v) by {
            assert(!bucket(b1, v).contains(key));
            if after == Some(v) {
                assert(m.contains_key(v) && m[v].contains(key));
            }
        }
        assert forall|k: Seq<char>, v: ValueView| k != key implies (#[trigger] bucket(m, v).contains(k)
            <==> bucket(b, v).contains(k)) by {
        }
        if forall|v: ValueView| #[trigger] b.contains_key(v) ==> b[v] != Set::<Seq<char>>::empty() {
            assert forall|v: ValueView| #[trigger] m.contains_key(v) implies m[v] != Set::<Seq<char>>::empty() by {
                if after == Some(v) {
                    assert(m[v].contains(key));
                }
            }
        }
    }
}

/// A backfilled index holds `key` under `value` exactly when one of the
/// entries has that key and that value at the field.
pub proof fn law_backfill_indexes_every_entry(
    entries: Seq<(Seq<char>, Option<ValueView>)>,
    key: Seq<char>,
    value: ValueView,
)
    ensures
        bucket(filled(entries), value).contains(key) <==> exists|i: int|
            0 <= i < entries.len() && #[trigger] entries[i] == (key, Some(value)),
    decreases entries.len(),
{
    if entries.len() > 0 {
        let rest = entries.drop_last();
        law_backfill_indexes_every_entry(rest, key, value);
        let n = entries.len() - 1;
        if bucket(filled(entries), value).contains(key) {
            if !bucket(filled(rest), value).contains(key) {
                assert(entries[n] == (key, Some(value)));
            } else {
                let i = choose|i: int| 0 <= i < rest.len() && #[trigger] rest[i] == (key, Some(value));
                assert(entries[i] == rest[i]);
            }
        } else {
            assert forall|i: int| 0 <= i < entries.len() implies #[trigger] entries[i] != (key, Some(value)) by {
                if i < n {
                    assert(entries[i] == rest[i]);
                }
            }
        }
    }
}

/// Owns the registered secondary indexes of a store keyed by strings, and
/// keeps them in sync as records change: field name to (index value to the
/// keys that hold it). No field is indexed until it is registered.
pub struct IndexWorker {
    fields: DashMap<String, DashMap<IndexValue, DashSet<String>>>,
}

impl View for IndexWorker {
    type V = Map<Seq<char>, Buckets>;

    closed spec fn view(&self) -> Map<Seq<char>, Buckets> {
        fields_of(self.fields)
    }
}

impl IndexWorker {
    /// Creates a worker with no registered indexes.
    pub fn new() -> (r: Self)
        ensures
            r@ == Map::<Seq<char>, Buckets>::empty(),
    {
        IndexWorker { fields: fields_new() }
    }

    /// Registers `field` for indexing; a no-op if already registered.
    /// Returns `true` if a new, empty index was created, so the caller
    /// knows whether it still needs to backfill existing entries.
    pub fn create_index(&mut self, field: String) -> (r: bool)
        ensures
            r == !old(self)@.contains_key(field@),
            r ==> final(self)@ == old(self)@.insert(field@, Buckets::empty()),
            !r ==> final(self)@ == old(self)@,
    {
        if fields_contains(&self.fields, field.as_str()) {
            return false;
        }
        fields_insert(&mut self.fields, field, buckets_new());
        true
    }

    /// Drops `field`'s index entirely; returns `true` if there was one.
    pub fn drop_index(&mut self, field: &str) -> (r: bool)
        ensures
            r == old(self)@.contains_key(field@),
            final(self)@ == old(self)@.remove(field@),
    {
        fields_remove(&mut self.fields, field).is_some()
    }

    /// Returns `true` if `field` currently has a registered index.
    pub fn has_index(&self, field: &str) -> (r: bool)
        ensures
            r == self@.contains_key(field@),
    {
        fields_contains(&self.fields, field)
    }

    /// Every key currently indexed under `field == value`, each once, in
    /// no particular order.
    pub fn lookup(&self, field: &str, value: &IndexValue) -> (r: Vec<String>)
        ensures
            text_set(r@) == found(self@, field@, value@),
            distinct_texts(r@),
    {
        fields_lookup(&self.fields, field, value)
    }

    /// Moves `key` within `field`'s index from the bucket of `before` to
    /// that of `after`; a no-op if `field` isn't registered or the value
    /// did not change.
    pub fn change_key(&mut self, field: &str, key: &String, before: Option<IndexValue>, after: Option<IndexValue>)
        ensures
            old(self)@.contains_key(field@) ==> final(self)@ == old(self)@.insert(
                field@,
                moved(old(self)@[field@], key@, opt_view(before), opt_view(after)),
            ),
            !old(self)@.contains_key(field@) ==> final(self)@ == old(self)@,
    {
        if same_value(&before, &after) {
            if fields_contains(&self.fields, field) {
                assert(old(self)@.insert(field@, old(self)@[field@]) =~= old(self)@);
            }
            return;
        }
        let mut buckets = match fields_remove(&mut self.fields, field) {
            Some(b) => b,
            None => return,
        };
        move_key(&mut buckets, key, before, after);
        fields_insert(&mut self.fields, field.to_string(), buckets);
    }

    /// Updates every registered index to reflect `key`'s value changing
    /// from `before` to `after`. Either side may be `None`: an insert has
    /// no `before`, a removal no `after`. At each field, the key leaves the
    /// bucket of the old record's value there and joins the bucket of the
    /// new record's value.
    pub fn on_change<V: Indexable>(&mut self, key: &String, before: Option<&V>, after: Option<&V>)
        ensures
            final(self)@.dom() == old(self)@.dom(),
            forall|f: Seq<char>| #[trigger] old(self)@.contains_key(f) ==> final(self)@[f] == moved(
                old(self)@[f],
                key@,
                side(before, f),
                side(after, f),
            ),
    {
        let names = fields_names(&self.fields);
        let ghost start = self@;
        let ghost texts = names@.map_values(|s: String| s@);
        let mut i: usize = 0;
        while i < names.len()
            invariant
                i <= names@.len(),
                texts == names@.map_values(|s: String| s@),
                texts.to_set() == start.dom(),
                texts.no_duplicates(),
                self@.dom() == start.dom(),
                forall|j: int| 0 <= j < i ==> #[trigger] self@[texts[j]] == moved(
                    start[texts[j]],
                    key@,
                    side(before, texts[j]),
                    side(after, texts[j]),
                ),
                forall|j: int| i <= j < texts.len() ==> #[trigger] self@[texts[j]] == start[texts[j]],
            decreases names@.len() - i,
        {
            let field = &names[i];
            assert(texts[i as int] == field@);
            assert(texts.to_set().contains(texts[i as int]));
            let before_value = match before {
                Some(v) => v.index_value(field.as_str()),
                None => None,
            };
            let after_value = match after {
                Some(v) => v.index_value(field.as_str()),
                None => None,
            };
            self.change_key(field.as_str(), key, before_value, after_value);
            assert(self@.dom() =~= start.dom());
            assert forall|j: int| 0 <= j < texts.len() && j != i implies texts[j] != field@ by {
                assert(texts.no_duplicates());
            }
            i = i + 1;
        }
        assert forall|f: Seq<char>| #[trigger] start.contains_key(f) implies self@[f] == moved(
            start[f],
            key@,
            side(before, f),
            side(after, f),
        ) by {
            assert(texts.to_set().contains(f));
            let j = choose|j: int| 0 <= j < texts.len() && texts[j] == f;
            assert(self@[texts[j]] == moved(start[texts[j]], key@, side(before, texts[j]), side(after, texts[j])));
        }
    }

    /// Rebuilds `field`'s index from scratch out of keys and their values
    /// at the field; a no-op if `field` isn't registered.
    pub fn backfill_values(&mut self, field: &str, entries: Vec<(String, Option<IndexValue>)>)
        ensures
            old(self)@.contains_key(field@) ==> final(self)@ == old(self)@.insert(
                field@,
                filled(entries_view(entries@)),
            ),
            !old(self)@.contains_key(field@) ==> final(self)@ == old(self)@,
    {
        if !fields_contains(&self.fields, field) {
            return;
        }
        let ghost ev = entries_view(entries@);
        let mut buckets = buckets_new();
        let mut i: usize = 0;
        while i < entries.len()
            invariant
                i <= entries@.len(),
                ev == entries_view(entries@),
                buckets_of(buckets) == filled(ev.subrange(0, i as int)),
            decreases entries@.len() - i,
        {
            let (key, value) = &entries[i];
            assert(ev.subrange(0, i + 1).drop_last() =~= ev.subrange(0, i as int));
            assert(ev[i as int] == (key@, opt_view(*value)));
            match value {
                Some(iv) => {
                    let mut set = match buckets_remove(&mut buckets, iv) {
                        Some(s) => s,
                        None => set_new(),
                    };
                    set_insert(&mut set, key.clone());
                    buckets_insert(&mut buckets, clone_value(iv), set);
                },
                None => {},
            }
            i = i + 1;
        }
        assert(ev.subrange(0, ev.len() as int) =~= ev);
        fields_insert(&mut self.fields, field.to_string(), buckets);
    }

    /// Rebuilds `field`'s index from scratch out of `entries`, each
    /// record's value at the field being what its `index_value` gives; used
    /// when an index is registered after data already exists. A no-op if
    /// `field` isn't registered.
    pub fn backfill<V: Indexable>(&mut self, field: &str, entries: Vec<(String, Arc<V>)>)
        ensures
            old(self)@.contains_key(field@) ==> final(self)@ == old(self)@.insert(
                field@,
                filled(keyed(entries@, field@)),
            ),
            !old(self)@.contains_key(field@) ==> final(self)@ == old(self)@,
    {
        let mut values: Vec<(String, Option<IndexValue>)> = Vec::new();
        let mut i: usize = 0;
        while i < entries.len()
            invariant
                i <= entries@.len(),
                values@.len() == i,
                forall|j: int| 0 <= j < i ==> (#[trigger] values@[j]).0@ == entries@[j].0@
                    && opt_view(values@[j].1) == (*entries@[j].1).index_spec(field@),
            decreases entries@.len() - i,
        {
            let (key, value) = &entries[i];
            values.push((key.clone(), value.index_value(field)));
            i = i + 1;
        }
        assert(keyed(entries@, field@) =~= entries_view(values@));
        self.backfill_values(field, values);
    }
}

impl Default for IndexWorker {
    fn default() -> (r: Self)
        ensures
            r@ == Map::<Seq<char>, Buckets>::empty(),
    {
        Self::new()
    }
}

} // verus!
