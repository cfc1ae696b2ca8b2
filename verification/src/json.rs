//! The JSON document a save is decoded into.
//!
//! `Json` is the executable value; `JVal` is its mathematical view. Objects keep
//! their entries in a sequence, in the order in which they are walked; a
//! document decoded from text lists the keys of each object in byte order, and
//! a key that is added goes before the first key that sorts after it, so that
//! order is kept.
use vstd::prelude::*;
use crate::search::{first_index, lemma_first_facts, lemma_first_is, lemma_first_none};
use crate::text::{key_lt, owned, str_eq, str_lt};

verus! {

/// A JSON number: a non-negative integer, a negative integer, or a finite
/// floating-point number held by the bits of its `f64` encoding.
#[derive(Clone, Copy, Debug, PartialEq, Eq, Structural)]
pub enum JsonNum {
    PosInt(u64),
    NegInt(i64),
    Float(u64),
}

/// A JSON value.
#[derive(Debug)]
pub enum Json {
    Null,
    Bool(bool),
    Num(JsonNum),
    Str(String),
    Array(Vec<Json>),
    Object(Vec<(String, Json)>),
}

/// The mathematical view of a JSON value.
pub enum JVal {
    Null,
    Bool(bool),
    Num(JsonNum),
    Str(Seq<char>),
    Array(Seq<JVal>),
    Object(Seq<(Seq<char>, JVal)>),
}

pub open spec fn views(s: Seq<Json>) -> Seq<JVal>
    decreases s,
{
    Seq::new(s.len(), |i: int| if 0 <= i < s.len() { s[i].view_rec() } else { JVal::Null })
}

pub open spec fn entry_views(s: Seq<(String, Json)>) -> Seq<(Seq<char>, JVal)>
    decreases s,
{
    Seq::new(
        s.len(),
        |i: int|
            if 0 <= i < s.len() {
                (s[i].0@, s[i].1.view_rec())
            } else {
                (Seq::empty(), JVal::Null)
            },
    )
}

impl Json {
    pub open spec fn view_rec(self) -> JVal
        decreases self,
    {
        match self {
            Json::Null => JVal::Null,
            Json::Bool(b) => JVal::Bool(b),
            Json::Num(n) => JVal::Num(n),
            Json::Str(s) => JVal::Str(s@),
            Json::Array(v) => JVal::Array(views(v@)),
            Json::Object(v) => JVal::Object(entry_views(v@)),
        }
    }
}

impl View for Json {
    type V = JVal;

    open spec fn view(&self) -> JVal {
        self.view_rec()
    }
}

/// The number that `serde_json` makes of an integer.
pub open spec fn num_of_int(n: int) -> JsonNum {
    if n >= 0 {
        JsonNum::PosInt(n as u64)
    } else {
        JsonNum::NegInt(n as i64)
    }
}

/// Entries of an object: key and value.
pub type Entries = Seq<(Seq<char>, JVal)>;

pub open spec fn key_is(k: Seq<char>) -> spec_fn((Seq<char>, JVal)) -> bool {
    |e: (Seq<char>, JVal)| e.0 == k
}

pub open spec fn key_after(k: Seq<char>) -> spec_fn((Seq<char>, JVal)) -> bool {
    |e: (Seq<char>, JVal)| key_lt(k, e.0)
}

/// Position of the entry for `k`.
pub open spec fn find_key(es: Entries, k: Seq<char>) -> Option<int> {
    first_index(es, key_is(k))
}

/// Where a new key goes: before the first key that sorts after it.
pub open spec fn insert_pos(es: Entries, k: Seq<char>) -> int {
    match first_index(es, key_after(k)) {
        Some(i) => i,
        None => es.len() as int,
    }
}

/// `Map::insert`: the value of an existing key is replaced, a new key is placed
/// in key order.
pub open spec fn entries_insert(es: Entries, k: Seq<char>, v: JVal) -> Entries {
    match find_key(es, k) {
        Some(i) => es.update(i, (k, v)),
        None => es.insert(insert_pos(es, k), (k, v)),
    }
}

/// `Map::remove`.
pub open spec fn entries_remove(es: Entries, k: Seq<char>) -> Entries {
    match find_key(es, k) {
        Some(i) => es.remove(i),
        None => es,
    }
}

impl JVal {
    /// `value[key]` for reading: the member of an object, `Null` otherwise.
    pub open spec fn get(self, k: Seq<char>) -> JVal {
        match self {
            JVal::Object(es) => match find_key(es, k) {
                Some(i) => es[i].1,
                None => JVal::Null,
            },
            _ => JVal::Null,
        }
    }

    pub open spec fn has_key(self, k: Seq<char>) -> bool {
        match self {
            JVal::Object(es) => find_key(es, k) is Some,
            _ => false,
        }
    }

    /// `value[i]` for reading: the element of an array, `Null` otherwise.
    pub open spec fn at(self, i: int) -> JVal {
        match self {
            JVal::Array(s) => if 0 <= i < s.len() { s[i] } else { JVal::Null },
            _ => JVal::Null,
        }
    }

    pub open spec fn as_str(self) -> Option<Seq<char>> {
        match self {
            JVal::Str(s) => Some(s),
            _ => None,
        }
    }

    pub open spec fn as_bool(self) -> Option<bool> {
        match self {
            JVal::Bool(b) => Some(b),
            _ => None,
        }
    }

    pub open spec fn as_i64(self) -> Option<i64> {
        match self {
            JVal::Num(JsonNum::PosInt(u)) => if u <= i64::MAX { Some(u as i64) } else { None },
            JVal::Num(JsonNum::NegInt(i)) => Some(i),
            _ => None,
        }
    }

    pub open spec fn as_u64(self) -> Option<u64> {
        match self {
            JVal::Num(JsonNum::PosInt(u)) => Some(u),
            _ => None,
        }
    }

    pub open spec fn as_num(self) -> Option<JsonNum> {
        match self {
            JVal::Num(n) => Some(n),
            _ => None,
        }
    }

    pub open spec fn as_array(self) -> Option<Seq<JVal>> {
        match self {
            JVal::Array(s) => Some(s),
            _ => None,
        }
    }

    pub open spec fn as_object(self) -> Option<Entries> {
        match self {
            JVal::Object(es) => Some(es),
            _ => None,
        }
    }

    /// `value[key] = v`: a `Null` becomes an object holding the one entry; an
    /// object gets the entry inserted. (Any other value panics in `serde_json`.)
    pub open spec fn set(self, k: Seq<char>, v: JVal) -> JVal {
        match self {
            JVal::Null => JVal::Object(seq![(k, v)]),
            JVal::Object(es) => JVal::Object(entries_insert(es, k, v)),
            _ => self,
        }
    }

    /// `value.as_object_mut().insert(k, v)` (nothing for a non-object).
    pub open spec fn insert(self, k: Seq<char>, v: JVal) -> JVal {
        match self {
            JVal::Object(es) => JVal::Object(entries_insert(es, k, v)),
            _ => self,
        }
    }

    /// `value.as_object_mut().remove(k)` (nothing for a non-object).
    pub open spec fn remove(self, k: Seq<char>) -> JVal {
        match self {
            JVal::Object(es) => JVal::Object(entries_remove(es, k)),
            _ => self,
        }
    }

    /// The value with the element at `i` of an array replaced.
    pub open spec fn set_at(self, i: int, v: JVal) -> JVal {
        match self {
            JVal::Array(s) => if 0 <= i < s.len() { JVal::Array(s.update(i, v)) } else { self },
            _ => self,
        }
    }

    /// `value.as_array_mut().push(v)` (nothing for a non-array).
    pub open spec fn push(self, v: JVal) -> JVal {
        match self {
            JVal::Array(s) => JVal::Array(s.push(v)),
            _ => self,
        }
    }

    /// `value[key]` used for writing: a `Null` or an object is given the key
    /// (holding `Null` when it was missing); true when this does not panic.
    pub open spec fn can_index_mut(self) -> bool {
        self is Null || self is Object
    }

    pub open spec fn ensure_key(self, k: Seq<char>) -> JVal {
        if self.has_key(k) {
            self
        } else {
            self.set(k, JVal::Null)
        }
    }
}

pub proof fn lemma_find_key_is(es: Entries, k: Seq<char>, i: int)
    requires
        0 <= i < es.len(),
        es[i].0 == k,
        forall|j: int| 0 <= j < i ==> es[j].0 != k,
    ensures
        find_key(es, k) == Some(i),
{
    assert forall|j: int| 0 <= j < i implies !key_is(k)(#[trigger] es[j]) by {}
    lemma_first_is(es, key_is(k), i);
}

pub proof fn lemma_find_key_none(es: Entries, k: Seq<char>)
    requires
        forall|j: int| 0 <= j < es.len() ==> es[j].0 != k,
    ensures
        find_key(es, k) is None,
{
    assert forall|j: int| 0 <= j < es.len() implies !key_is(k)(#[trigger] es[j]) by {}
    lemma_first_none(es, key_is(k));
}

pub proof fn lemma_find_key_facts(es: Entries, k: Seq<char>)
    ensures
        find_key(es, k) matches Some(i) ==> 0 <= i < es.len() && es[i].0 == k && forall|j: int|
            0 <= j < i ==> es[j].0 != k,
        find_key(es, k) is None ==> forall|j: int| 0 <= j < es.len() ==> es[j].0 != k,
{
    lemma_first_facts(es, key_is(k));
    if let Some(i) = find_key(es, k) {
        assert forall|j: int| 0 <= j < i implies es[j].0 != k by {
            assert(!key_is(k)(es[j]));
        }
    } else {
        assert forall|j: int| 0 <= j < es.len() implies es[j].0 != k by {
            assert(!key_is(k)(es[j]));
        }
    }
}

/// Replacing the value of an entry keeps every key, so the position of a key is unchanged.
pub proof fn lemma_find_key_update(es: Entries, i: int, v: JVal, k: Seq<char>)
    requires
        0 <= i < es.len(),
    ensures
        find_key(es.update(i, (es[i].0, v)), k) == find_key(es, k),
{
    let es2 = es.update(i, (es[i].0, v));
    lemma_find_key_facts(es, k);
    match find_key(es, k) {
        Some(m) => {
            lemma_find_key_is(es2, k, m);
        },
        None => {
            lemma_find_key_none(es2, k);
        },
    }
}

pub proof fn lemma_insert_pos_range(es: Entries, k: Seq<char>)
    ensures
        0 <= insert_pos(es, k) <= es.len(),
{
    lemma_first_facts(es, key_after(k));
}

/// After `value[k] = v`, reading `value[k]` gives `v`.
pub proof fn lemma_set_then_get(j: JVal, k: Seq<char>, v: JVal)
    requires
        j.can_index_mut(),
    ensures
        j.set(k, v).get(k) == v,
        j.set(k, v).has_key(k),
        j.set(k, v) is Object,
{
    match j {
        JVal::Object(es) => {
            lemma_find_key_facts(es, k);
            match find_key(es, k) {
                Some(i) => {
                    lemma_find_key_update(es, i, v, k);
                },
                None => {
                    let p = insert_pos(es, k);
                    lemma_insert_pos_range(es, k);
                    let es2 = es.insert(p, (k, v));
                    assert forall|m: int| 0 <= m < p implies es2[m].0 != k by {
                        assert(es2[m] == es[m]);
                    }
                    lemma_find_key_is(es2, k, p);
                },
            }
        },
        _ => {
            lemma_find_key_is(seq![(k, v)], k, 0);
        },
    }
}

/// Setting a key twice leaves the second value.
pub proof fn lemma_set_set(j: JVal, k: Seq<char>, a: JVal, b: JVal)
    requires
        j.can_index_mut(),
    ensures
        j.set(k, a).set(k, b) == j.set(k, b),
{
    match j {
        JVal::Object(es) => {
            lemma_find_key_facts(es, k);
            match find_key(es, k) {
                Some(i) => {
                    lemma_find_key_update(es, i, a, k);
                    assert(es.update(i, (k, a)).update(i, (k, b)) =~= es.update(i, (k, b)));
                },
                None => {
                    lemma_set_then_get(j, k, a);
                    let p = insert_pos(es, k);
                    lemma_insert_pos_range(es, k);
                    let es2 = es.insert(p, (k, a));
                    assert forall|m: int| 0 <= m < p implies es2[m].0 != k by {
                        assert(es2[m] == es[m]);
                    }
                    lemma_find_key_is(es2, k, p);
                    assert(es2.update(p, (k, b)) =~= es.insert(p, (k, b)));
                },
            }
        },
        _ => {
            lemma_find_key_is(seq![(k, a)], k, 0);
            assert(seq![(k, a)].update(0, (k, b)) =~= seq![(k, b)]);
        },
    }
}

/// Setting a key of an object to the value it holds changes nothing.
pub proof fn lemma_set_same(j: JVal, k: Seq<char>)
    requires
        j is Object,
        j.has_key(k),
    ensures
        j.set(k, j.get(k)) == j,
{
    if let JVal::Object(es) = j {
        lemma_find_key_facts(es, k);
        let i = find_key(es, k).unwrap();
        assert(es.update(i, (k, es[i].1)) =~= es);
    }
}

/// A key that is set is still there, and every other key keeps its value.
pub proof fn lemma_set_other(j: JVal, k: Seq<char>, v: JVal, k2: Seq<char>)
    requires
        j.can_index_mut(),
        k2 != k,
    ensures
        j.set(k, v).get(k2) == j.get(k2),
        j.set(k, v).has_key(k2) == j.has_key(k2),
{
    match j {
        JVal::Object(es) => {
            lemma_find_key_facts(es, k);
            lemma_find_key_facts(es, k2);
            match find_key(es, k) {
                Some(i) => {
                    lemma_find_key_update(es, i, v, k2);
                },
                None => {
                    let p = insert_pos(es, k);
                    lemma_insert_pos_range(es, k);
                    let es2 = es.insert(p, (k, v));
                    match find_key(es, k2) {
                        Some(m) => {
                            if m < p {
                                assert forall|q: int| 0 <= q < m implies es2[q].0 != k2 by {
                                    assert(es2[q] == es[q]);
                                }
                                lemma_find_key_is(es2, k2, m);
                            } else {
                                assert forall|q: int| 0 <= q < m + 1 implies es2[q].0 != k2 by {
                                    if q < p {
                                        assert(es2[q] == es[q]);
                                    } else if q > p {
                                        assert(es2[q] == es[q - 1]);
                                    }
                                }
                                assert(es2[m + 1] == es[m]);
                                lemma_find_key_is(es2, k2, m + 1);
                            }
                        },
                        None => {
                            assert forall|q: int| 0 <= q < es2.len() implies es2[q].0 != k2 by {
                                if q < p {
                                    assert(es2[q] == es[q]);
                                } else if q > p {
                                    assert(es2[q] == es[q - 1]);
                                }
                            }
                            lemma_find_key_none(es2, k2);
                        },
                    }
                },
            }
        },
        _ => {
            lemma_find_key_none(seq![(k, v)], k2);
        },
    }
}

/// Removing a key leaves every other key with its value.
pub proof fn lemma_remove_other(j: JVal, k: Seq<char>, k2: Seq<char>)
    requires
        k2 != k,
    ensures
        j.remove(k).get(k2) == j.get(k2),
{
    if let JVal::Object(es) = j {
        lemma_find_key_facts(es, k);
        lemma_find_key_facts(es, k2);
        if let Some(i) = find_key(es, k) {
            let es2 = es.remove(i);
            match find_key(es, k2) {
                Some(m) => {
                    if m < i {
                        assert forall|q: int| 0 <= q < m implies es2[q].0 != k2 by {
                            assert(es2[q] == es[q]);
                        }
                        assert(es2[m] == es[m]);
                        lemma_find_key_is(es2, k2, m);
                    } else {
                        assert(m != i);
                        assert forall|q: int| 0 <= q < m - 1 implies es2[q].0 != k2 by {
                            if q < i {
                                assert(es2[q] == es[q]);
                            } else {
                                assert(es2[q] == es[q + 1]);
                            }
                        }
                        assert(es2[m - 1] == es[m]);
                        lemma_find_key_is(es2, k2, m - 1);
                    }
                },
                None => {
                    assert forall|q: int| 0 <= q < es2.len() implies es2[q].0 != k2 by {
                        if q < i {
                            assert(es2[q] == es[q]);
                        } else {
                            assert(es2[q] == es[q + 1]);
                        }
                    }
                    lemma_find_key_none(es2, k2);
                },
            }
        }
    }
}

/// An object holds the key `k` in at most one entry.
pub open spec fn key_once(j: JVal, k: Seq<char>) -> bool {
    j is Object ==> forall|i: int, i2: int|
        0 <= i < j->Object_0.len() && 0 <= i2 < j->Object_0.len() && (#[trigger] j->Object_0[i]).0 == k && (
        #[trigger] j->Object_0[i2]).0 == k ==> i == i2
}

/// Setting another key keeps `k` in at most one entry.
pub proof fn lemma_set_key_once(j: JVal, k2: Seq<char>, v: JVal, k: Seq<char>)
    requires
        key_once(j, k),
        k2 != k,
    ensures
        key_once(j.set(k2, v), k),
{
    if let JVal::Object(es) = j {
        lemma_find_key_facts(es, k2);
        match find_key(es, k2) {
            Some(i) => {
                let es2 = es.update(i, (k2, v));
                assert forall|a: int, b: int|
                    0 <= a < es2.len() && 0 <= b < es2.len() && (#[trigger] es2[a]).0 == k && (#[trigger] es2[b]).0
                        == k implies a == b by {
                    assert(es2[a] == es[a]);
                    assert(es2[b] == es[b]);
                }
            },
            None => {
                let p = insert_pos(es, k2);
                lemma_insert_pos_range(es, k2);
                let es2 = es.insert(p, (k2, v));
                assert forall|a: int, b: int|
                    0 <= a < es2.len() && 0 <= b < es2.len() && (#[trigger] es2[a]).0 == k && (#[trigger] es2[b]).0
                        == k implies a == b by {
                    let a0 = if a < p { a } else { a - 1 };
                    let b0 = if b < p { b } else { b - 1 };
                    assert(a != p && b != p);
                    assert(es2[a] == es[a0]);
                    assert(es2[b] == es[b0]);
                }
            },
        }
    }
}

/// Removing a key held in at most one entry leaves none.
pub proof fn lemma_remove_once(j: JVal, k: Seq<char>)
    requires
        key_once(j, k),
    ensures
        j.remove(k).get(k) == JVal::Null,
{
    if let JVal::Object(es) = j {
        lemma_find_key_facts(es, k);
        match find_key(es, k) {
            Some(i) => {
                let es2 = es.remove(i);
                assert forall|q: int| 0 <= q < es2.len() implies es2[q].0 != k by {
                    if q < i {
                        assert(es2[q] == es[q]);
                    } else {
                        assert(es2[q] == es[q + 1]);
                    }
                }
                lemma_find_key_none(es2, k);
            },
            None => {},
        }
    }
}

/// `value[k]` used for writing does not change what `value[k]` reads.
pub proof fn lemma_ensure_key_get(j: JVal, k: Seq<char>)
    requires
        j.can_index_mut(),
    ensures
        j.ensure_key(k).get(k) == j.get(k),
        j.ensure_key(k) is Object,
        j.ensure_key(k).has_key(k),
{
    lemma_set_then_get(j, k, JVal::Null);
}

impl Json {
    pub fn null() -> (r: Json)
        ensures
            r@ == JVal::Null,
    {
        Json::Null
    }

    pub fn from_str(s: &str) -> (r: Json)
        ensures
            r@ == JVal::Str(s@),
    {
        Json::Str(owned(s))
    }

    pub fn from_string(s: String) -> (r: Json)
        ensures
            r@ == JVal::Str(s@),
    {
        Json::Str(s)
    }

    pub fn from_i64(n: i64) -> (r: Json)
        ensures
            r@ == JVal::Num(num_of_int(n as int)),
    {
        if n >= 0 {
            Json::Num(JsonNum::PosInt(n as u64))
        } else {
            Json::Num(JsonNum::NegInt(n))
        }
    }

    pub fn from_u64(n: u64) -> (r: Json)
        ensures
            r@ == JVal::Num(JsonNum::PosInt(n)),
    {
        Json::Num(JsonNum::PosInt(n))
    }

    pub fn from_bool(b: bool) -> (r: Json)
        ensures
            r@ == JVal::Bool(b),
    {
        Json::Bool(b)
    }

    pub fn empty_array() -> (r: Json)
        ensures
            r@ == JVal::Array(Seq::empty()),
    {
        let v: Vec<Json> = Vec::new();
        let r = Json::Array(v);
        assert(r@ == JVal::Array(Seq::empty())) by {
            assert(views(v@) =~= Seq::<JVal>::empty());
        }
        r
    }

    pub fn is_null(&self) -> (r: bool)
        ensures
            r == (self@ is Null),
    {
        match self {
            Json::Null => true,
            _ => false,
        }
    }

    pub fn is_object(&self) -> (r: bool)
        ensures
            r == (self@ is Object),
    {
        match self {
            Json::Object(_) => true,
            _ => false,
        }
    }

    pub fn as_str(&self) -> (r: Option<&str>)
        ensures
            r is Some == self@.as_str() is Some,
            r matches Some(s) ==> self@.as_str() == Some(s@),
    {
        match self {
            Json::Str(s) => Some(s.as_str()),
            _ => None,
        }
    }

    pub fn as_bool(&self) -> (r: Option<bool>)
        ensures
            r == self@.as_bool(),
    {
        match self {
            Json::Bool(b) => Some(*b),
            _ => None,
        }
    }

    pub fn as_i64(&self) -> (r: Option<i64>)
        ensures
            r == self@.as_i64(),
    {
        match self {
            Json::Num(JsonNum::PosInt(u)) => if *u <= 0x7fff_ffff_ffff_ffffu64 {
                Some(*u as i64)
            } else {
                None
            },
            Json::Num(JsonNum::NegInt(i)) => Some(*i),
            _ => None,
        }
    }

    pub fn as_u64(&self) -> (r: Option<u64>)
        ensures
            r == self@.as_u64(),
    {
        match self {
            Json::Num(JsonNum::PosInt(u)) => Some(*u),
            _ => None,
        }
    }

    pub fn as_num(&self) -> (r: Option<JsonNum>)
        ensures
            r == self@.as_num(),
    {
        match self {
            Json::Num(n) => Some(*n),
            _ => None,
        }
    }

    pub fn as_array(&self) -> (r: Option<&Vec<Json>>)
        ensures
            r is Some == self@.as_array() is Some,
            r matches Some(v) ==> self@.as_array() == Some(views(v@)),
    {
        match self {
            Json::Array(v) => Some(v),
            _ => None,
        }
    }

    pub fn as_object(&self) -> (r: Option<&Vec<(String, Json)>>)
        ensures
            r is Some == self@.as_object() is Some,
            r matches Some(es) ==> self@.as_object() == Some(entry_views(es@)),
    {
        match self {
            Json::Object(es) => Some(es),
            _ => None,
        }
    }

    /// `value[key]` for reading; `None` stands for the `Null` that indexing yields
    /// when there is no such member.
    pub fn get(&self, key: &str) -> (r: Option<&Json>)
        ensures
            r is Some == self@.has_key(key@),
            r matches Some(v) ==> v@ == self@.get(key@),
            r is None ==> self@.get(key@) == JVal::Null,
    {
        match self {
            Json::Object(es) => {
                let ghost ev = entry_views(es@);
                assert(self@ == JVal::Object(ev));
                let mut i: usize = 0;
                while i < es.len()
                    invariant
                        ev == entry_views(es@),
                        self@ == JVal::Object(ev),
                        0 <= i <= es.len(),
                        forall|j: int| 0 <= j < i ==> ev[j].0 != key@,
                    decreases es.len() - i,
                {
                    if str_eq(es[i].0.as_str(), key) {
                        proof {
                            lemma_find_key_is(ev, key@, i as int);
                            assert(ev[i as int].1 == es@[i as int].1@);
                        }
                        return Some(&es[i].1);
                    }
                    i += 1;
                }
                proof {
                    lemma_find_key_none(ev, key@);
                }
                None
            },
            _ => None,
        }
    }

    /// Position of `key` among the entries of an object.
    pub fn key_index(es: &Vec<(String, Json)>, key: &str) -> (r: Option<usize>)
        ensures
            r matches Some(i) ==> find_key(entry_views(es@), key@) == Some(i as int),
            r is None ==> find_key(entry_views(es@), key@) is None,
    {
        let ghost ev = entry_views(es@);
        let mut i: usize = 0;
        while i < es.len()
            invariant
                ev == entry_views(es@),
                0 <= i <= es.len(),
                forall|j: int| 0 <= j < i ==> ev[j].0 != key@,
            decreases es.len() - i,
        {
            if str_eq(es[i].0.as_str(), key) {
                proof {
                    lemma_find_key_is(ev, key@, i as int);
                }
                return Some(i);
            }
            i += 1;
        }
        proof {
            lemma_find_key_none(ev, key@);
        }
        None
    }

    /// Where a new key goes among the entries of an object.
    fn insert_index(es: &Vec<(String, Json)>, key: &str) -> (r: usize)
        ensures
            r == insert_pos(entry_views(es@), key@),
    {
        let ghost ev = entry_views(es@);
        let mut i: usize = 0;
        while i < es.len()
            invariant
                ev == entry_views(es@),
                0 <= i <= es.len(),
                forall|j: int| 0 <= j < i ==> !key_after(key@)(#[trigger] ev[j]),
            decreases es.len() - i,
        {
            if str_lt(key, es[i].0.as_str()) {
                proof {
                    lemma_first_is(ev, key_after(key@), i as int);
                }
                return i;
            }
            i += 1;
        }
        proof {
            lemma_first_none(ev, key_after(key@));
        }
        i
    }

    /// `value[i]` for reading; `None` stands for `Null`.
    pub fn at(&self, i: usize) -> (r: Option<&Json>)
        ensures
            r matches Some(v) ==> v@ == self@.at(i as int),
            r is None ==> self@.at(i as int) == JVal::Null,
    {
        match self {
            Json::Array(v) => if i < v.len() {
                Some(&v[i])
            } else {
                None
            },
            _ => None,
        }
    }

    /// A copy of the value.
    pub fn deep_copy(&self) -> (r: Json)
        ensures
            r@ == self@,
        decreases self,
    {
        match self {
            Json::Null => Json::Null,
            Json::Bool(b) => Json::Bool(*b),
            Json::Num(n) => Json::Num(*n),
            Json::Str(s) => Json::Str(s.clone()),
            Json::Array(v) => {
                let mut out: Vec<Json> = Vec::new();
                let mut i: usize = 0;
                while i < v.len()
                    invariant
                        *self == Json::Array(*v),
                        0 <= i <= v.len(),
                        out@.len() == i,
                        forall|j: int| 0 <= j < i ==> (#[trigger] out@[j])@ == v@[j]@,
                    decreases v.len() - i,
                {
                    proof {
                        assert(*self == Json::Array(*v));
                        assert(decreases_to!(*self => self->Array_0));
                        assert(decreases_to!(*v => v@));
                        assert(decreases_to!(v@ => v@[i as int]));
                    }
                    let c = v[i].deep_copy();
                    out.push(c);
                    i += 1;
                }
                let r = Json::Array(out);
                assert(views(out@) =~= views(v@));
                r
            },
            Json::Object(es) => {
                let mut out: Vec<(String, Json)> = Vec::new();
                let mut i: usize = 0;
                while i < es.len()
                    invariant
                        *self == Json::Object(*es),
                        0 <= i <= es.len(),
                        out@.len() == i,
                        forall|j: int|
                            0 <= j < i ==> (#[trigger] out@[j]).0@ == es@[j].0@ && out@[j].1@
                                == es@[j].1@,
                    decreases es.len() - i,
                {
                    let k = es[i].0.clone();
                    proof {
                        assert(*self == Json::Object(*es));
                        assert(decreases_to!(*self => self->Object_0));
                        assert(decreases_to!(*es => es@));
                        assert(decreases_to!(es@ => es@[i as int]));
                        assert(decreases_to!(es@[i as int] => es@[i as int].1));
                    }
                    let c = es[i].1.deep_copy();
                    out.push((k, c));
                    i += 1;
                }
                let r = Json::Object(out);
                assert(entry_views(out@) =~= entry_views(es@));
                r
            },
        }
    }

    /// `value[key] = v` on a `Null` or an object.
    pub fn set(&mut self, key: &str, v: Json)
        requires
            old(self)@.can_index_mut(),
        ensures
            final(self)@ == old(self)@.set(key@, v@),
    {
        let ghost vv = v@;
        match self {
            Json::Object(es) => {
                let ghost ev = entry_views(es@);
                match Json::key_index(es, key) {
                    Some(i) => {
                        let k = owned(key);
                        es.set(i, (k, v));
                        proof {
                            lemma_find_key_facts(ev, key@);
                        }
                        assert(entry_views(es@) =~= ev.update(i as int, (key@, vv)));
                    },
                    None => {
                        let p = Json::insert_index(es, key);
                        let k = owned(key);
                        es.insert(p, (k, v));
                        assert(entry_views(es@) =~= ev.insert(p as int, (key@, vv)));
                    },
                }
            },
            _ => {
                let mut es: Vec<(String, Json)> = Vec::new();
                es.push((owned(key), v));
                *self = Json::Object(es);
                assert(entry_views(es@) =~= seq![(key@, vv)]);
            },
        }
    }

    /// `value.as_object_mut().map(|m| m.insert(key, v))`.
    pub fn insert(&mut self, key: &str, v: Json)
        ensures
            final(self)@ == old(self)@.insert(key@, v@),
    {
        if self.is_object() {
            self.set(key, v);
        }
    }

    /// `value.as_object_mut().map(|m| m.remove(key))`.
    pub fn remove(&mut self, key: &str)
        ensures
            final(self)@ == old(self)@.remove(key@),
    {
        match self {
            Json::Object(es) => {
                let ghost ev = entry_views(es@);
                match Json::key_index(es, key) {
                    Some(i) => {
                        es.remove(i);
                        assert(entry_views(es@) =~= ev.remove(i as int));
                    },
                    None => {},
                }
            },
            _ => {},
        }
    }

    /// `value.as_array_mut().map(|a| a.push(v))`.
    pub fn push(&mut self, v: Json)
        ensures
            final(self)@ == old(self)@.push(v@),
    {
        match self {
            Json::Array(a) => {
                let ghost av = views(a@);
                let ghost vv = v@;
                a.push(v);
                assert(views(a@) =~= av.push(vv));
            },
            _ => {},
        }
    }

    /// Takes the value of an existing key out of an object, leaving `Null` in its place.
    pub fn take(&mut self, key: &str) -> (r: Json)
        ensures
            old(self)@.has_key(key@) ==> r@ == old(self)@.get(key@) && final(self)@ == old(
                self,
            )@.set(key@, JVal::Null),
            !old(self)@.has_key(key@) ==> r@ == JVal::Null && final(self)@ == old(self)@,
    {
        match self {
            Json::Object(es) => {
                let ghost ev = entry_views(es@);
                match Json::key_index(es, key) {
                    Some(i) => {
                        proof {
                            lemma_find_key_facts(ev, key@);
                        }
                        let mut entry = (String::new(), Json::Null);
                        std::mem::swap(&mut entry, &mut es[i]);
                        let (k, val) = entry;
                        es.set(i, (k, Json::Null));
                        assert(entry_views(es@) =~= ev.update(i as int, (key@, JVal::Null)));
                        val
                    },
                    None => Json::Null,
                }
            },
            _ => Json::Null,
        }
    }

    /// Takes the element at `i` out of an array, leaving `Null` in its place.
    pub fn take_at(&mut self, i: usize) -> (r: Json)
        ensures
            old(self)@ is Array && i < old(self)@.as_array().unwrap().len() ==> r@ == old(
                self,
            )@.at(i as int) && final(self)@ == old(self)@.set_at(i as int, JVal::Null),
            !(old(self)@ is Array && i < old(self)@.as_array().unwrap().len()) ==> r@
                == JVal::Null && final(self)@ == old(self)@,
    {
        match self {
            Json::Array(a) => {
                if i < a.len() {
                    let ghost av = views(a@);
                    let mut val = Json::Null;
                    std::mem::swap(&mut val, &mut a[i]);
                    assert(views(a@) =~= av.update(i as int, JVal::Null));
                    val
                } else {
                    Json::Null
                }
            },
            _ => Json::Null,
        }
    }

    /// Replaces the element at `i` of an array.
    pub fn put_at(&mut self, i: usize, v: Json)
        ensures
            final(self)@ == old(self)@.set_at(i as int, v@),
    {
        match self {
            Json::Array(a) => {
                if i < a.len() {
                    let ghost av = views(a@);
                    let ghost vv = v@;
                    a.set(i, v);
                    assert(views(a@) =~= av.update(i as int, vv));
                }
            },
            _ => {},
        }
    }

    /// `value[key]` on a `Null` or an object used for writing: the key is added
    /// (holding `Null`) when it is missing.
    pub fn ensure_key(&mut self, key: &str)
        requires
            old(self)@.can_index_mut(),
        ensures
            final(self)@ == old(self)@.ensure_key(key@),
            final(self)@ is Object,
            final(self)@.has_key(key@),
    {
        if self.get(key).is_none() {
            self.set(key, Json::Null);
            proof {
                lemma_set_then_get(old(self)@, key@, JVal::Null);
            }
        }
    }
}

} // verus!
