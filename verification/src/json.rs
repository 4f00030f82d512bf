//! A JSON value model held as plain values, with the lookups that the
//! tool-argument logic performs (`value["key"].as_str()` and friends).
use vstd::prelude::*;
use vstd::string::*;
use crate::text::owned;

verus! {

pub const MICROS_PER_UNIT: i128 = 1_000_000;

/// A JSON number: its value in millionths, and whether it was written as an
/// integer (as serde_json's `is_i64() || is_u64()` reports).
#[derive(Clone, Copy, Debug)]
pub struct JsonNumber {
    pub micros: i128,
    pub integral: bool,
}

/// A JSON document. Objects keep their entries in order; a lookup finds the
/// first entry with the key.
#[derive(Debug)]
pub enum Json {
    Null,
    Bool(bool),
    Number(JsonNumber),
    Str(String),
    Array(Vec<Json>),
    Object(Vec<(String, Json)>),
}

pub open spec fn entries_lookup(entries: Seq<(String, Json)>, key: Seq<char>) -> Option<Json>
    decreases entries.len(),
{
    if entries.len() == 0 {
        None
    } else if entries[0].0@ == key {
        Some(entries[0].1)
    } else {
        entries_lookup(entries.drop_first(), key)
    }
}

pub open spec fn spec_as_str(j: Json) -> Option<Seq<char>> {
    match j {
        Json::Str(s) => Some(s@),
        _ => None,
    }
}

pub open spec fn spec_as_bool(j: Json) -> Option<bool> {
    match j {
        Json::Bool(b) => Some(b),
        _ => None,
    }
}

pub open spec fn spec_as_array(j: Json) -> Option<Seq<Json>> {
    match j {
        Json::Array(items) => Some(items@),
        _ => None,
    }
}

/// Integer part of a value in millionths, truncated toward zero.
pub open spec fn int_part(micros: i128) -> int {
    if micros >= 0 {
        micros / MICROS_PER_UNIT
    } else {
        -((-(micros as int)) / (MICROS_PER_UNIT as int))
    }
}

/// `Value::as_u64`: an integral, non-negative number within `u64`.
pub open spec fn spec_as_u64(j: Json) -> Option<u64> {
    match j {
        Json::Number(n) => if n.integral && 0 <= n.micros && n.micros / MICROS_PER_UNIT
            <= u64::MAX {
            Some((n.micros / MICROS_PER_UNIT) as u64)
        } else {
            None
        },
        _ => None,
    }
}

/// `Value::as_i64`: an integral number within `i64`.
pub open spec fn spec_as_i64(j: Json) -> Option<i64> {
    match j {
        Json::Number(n) => if n.integral && i64::MIN <= int_part(n.micros) && int_part(n.micros)
            <= i64::MAX {
            Some(int_part(n.micros) as i64)
        } else {
            None
        },
        _ => None,
    }
}

/// The value of any number, in millionths (`Value::as_f64` scaled).
pub open spec fn spec_as_micros(j: Json) -> Option<i128> {
    match j {
        Json::Number(n) => Some(n.micros),
        _ => None,
    }
}

/// A JSON value as plain values: strings as character sequences, and an
/// object's entries in order.
pub enum JView {
    Null,
    Bool(bool),
    Number(JsonNumber),
    Str(Seq<char>),
    Array(Seq<JView>),
    Object(Seq<(Seq<char>, JView)>),
}

/// The plain-value view of a JSON value.
pub open spec fn jview(j: Json) -> JView
    decreases j,
{
    match j {
        Json::Null => JView::Null,
        Json::Bool(b) => JView::Bool(b),
        Json::Number(n) => JView::Number(n),
        Json::Str(s) => JView::Str(s@),
        Json::Array(items) => JView::Array(
            Seq::new(
                items@.len(),
                |i: int|
                    if 0 <= i < items@.len() {
                        jview(items@[i])
                    } else {
                        JView::Null
                    },
            ),
        ),
        Json::Object(entries) => JView::Object(
            Seq::new(
                entries@.len(),
                |i: int|
                    if 0 <= i < entries@.len() {
                        (entries@[i].0@, jview(entries@[i].1))
                    } else {
                        (Seq::empty(), JView::Null)
                    },
            ),
        ),
    }
}

impl View for Json {
    type V = JView;

    open spec fn view(&self) -> JView {
        jview(*self)
    }
}

impl Json {
    /// `value[key]` when the value is an object holding the key.
    pub open spec fn field(self, key: Seq<char>) -> Option<Json> {
        match self {
            Json::Object(entries) => entries_lookup(entries@, key),
            _ => None,
        }
    }

    /// `value[key].as_str()`.
    pub open spec fn str_at(self, key: Seq<char>) -> Option<Seq<char>> {
        match self.field(key) {
            Some(v) => spec_as_str(v),
            None => None,
        }
    }

    /// `value[key].as_str()` with empty strings treated as absent.
    pub open spec fn nonempty_str_at(self, key: Seq<char>) -> Option<Seq<char>> {
        match self.str_at(key) {
            Some(s) => if s.len() > 0 {
                Some(s)
            } else {
                None
            },
            None => None,
        }
    }

    /// `value[key].as_bool()`.
    pub open spec fn bool_at(self, key: Seq<char>) -> Option<bool> {
        match self.field(key) {
            Some(v) => spec_as_bool(v),
            None => None,
        }
    }

    /// `value[key].as_bool().unwrap_or(false)`.
    pub open spec fn flag_at(self, key: Seq<char>) -> bool {
        self.bool_at(key) == Some(true)
    }

    pub open spec fn u64_at(self, key: Seq<char>) -> Option<u64> {
        match self.field(key) {
            Some(v) => spec_as_u64(v),
            None => None,
        }
    }

    pub open spec fn i64_at(self, key: Seq<char>) -> Option<i64> {
        match self.field(key) {
            Some(v) => spec_as_i64(v),
            None => None,
        }
    }

    pub open spec fn micros_at(self, key: Seq<char>) -> Option<i128> {
        match self.field(key) {
            Some(v) => spec_as_micros(v),
            None => None,
        }
    }

    pub open spec fn array_at(self, key: Seq<char>) -> Option<Seq<Json>> {
        match self.field(key) {
            Some(v) => spec_as_array(v),
            None => None,
        }
    }

    pub open spec fn is_object(self) -> bool {
        self is Object
    }

    /// `value.get(key)`.
    pub fn get(&self, key: &str) -> (r: Option<&Json>)
        ensures
            r is Some <==> self.field(key@) is Some,
            r is Some ==> *r->0 == self.field(key@)->0,
    {
        match self {
            Json::Object(entries) => {
                let k = owned(key);
                let mut i: usize = 0;
                assert(entries@.skip(0) =~= entries@);
                while i < entries.len()
                    invariant
                        0 <= i <= entries.len(),
                        k@ == key@,
                        self.field(key@) == entries_lookup(entries@, key@),
                        entries_lookup(entries@, key@) == entries_lookup(entries@.skip(i as int), key@),
                    decreases entries.len() - i,
                {
                    assert(entries@.skip(i as int).drop_first() =~= entries@.skip(i + 1));
                    if entries[i].0 == k {
                        assert(entries@.skip(i as int)[0] == entries@[i as int]);
                        assert(entries@[i as int].0@ == key@);
                        assert(entries_lookup(entries@.skip(i as int), key@) == Some(
                            entries@[i as int].1,
                        ));
                        return Some(&entries[i].1);
                    }
                    i = i + 1;
                }
                None
            },
            _ => None,
        }
    }

    /// `value.as_str()`, owned.
    pub fn as_string(&self) -> (r: Option<String>)
        ensures
            r is Some <==> spec_as_str(*self) is Some,
            r is Some ==> r->0@ == spec_as_str(*self)->0,
    {
        match self {
            Json::Str(s) => Some(s.clone()),
            _ => None,
        }
    }

    /// `value[key].as_str()`, owned.
    pub fn str_field(&self, key: &str) -> (r: Option<String>)
        ensures
            r is Some <==> self.str_at(key@) is Some,
            r is Some ==> r->0@ == self.str_at(key@)->0,
    {
        match self.get(key) {
            Some(v) => v.as_string(),
            None => None,
        }
    }

    /// `value[key].as_str().filter(|s| !s.is_empty())`, owned.
    pub fn nonempty_str_field(&self, key: &str) -> (r: Option<String>)
        ensures
            r is Some <==> self.nonempty_str_at(key@) is Some,
            r is Some ==> r->0@ == self.nonempty_str_at(key@)->0,
    {
        match self.str_field(key) {
            Some(s) => {
                if !s.as_str().is_empty() {
                    Some(s)
                } else {
                    None
                }
            },
            None => None,
        }
    }

    /// `value[key].as_bool()`.
    pub fn bool_field(&self, key: &str) -> (r: Option<bool>)
        ensures
            r == self.bool_at(key@),
    {
        match self.get(key) {
            Some(Json::Bool(b)) => Some(*b),
            _ => None,
        }
    }

    /// `value[key].as_bool().unwrap_or(false)`.
    pub fn flag(&self, key: &str) -> (r: bool)
        ensures
            r == self.flag_at(key@),
    {
        match self.bool_field(key) {
            Some(b) => b,
            None => false,
        }
    }

    /// `value[key].as_u64()`.
    pub fn u64_field(&self, key: &str) -> (r: Option<u64>)
        ensures
            r == self.u64_at(key@),
    {
        match self.get(key) {
            Some(Json::Number(n)) => {
                if n.integral && 0 <= n.micros && n.micros / MICROS_PER_UNIT <= u64::MAX as i128 {
                    Some((n.micros / MICROS_PER_UNIT) as u64)
                } else {
                    None
                }
            },
            _ => None,
        }
    }

    /// `value[key].as_i64()`.
    pub fn i64_field(&self, key: &str) -> (r: Option<i64>)
        ensures
            r == self.i64_at(key@),
    {
        match self.get(key) {
            Some(Json::Number(n)) => {
                if n.micros == i128::MIN {
                    return None;
                }
                let v: i128 = if n.micros >= 0 {
                    n.micros / MICROS_PER_UNIT
                } else {
                    -((-n.micros) / MICROS_PER_UNIT)
                };
                if n.integral && i64::MIN as i128 <= v && v <= i64::MAX as i128 {
                    Some(v as i64)
                } else {
                    None
                }
            },
            _ => None,
        }
    }

    /// `value[key].as_f64()`, in millionths.
    pub fn micros_field(&self, key: &str) -> (r: Option<i128>)
        ensures
            r == self.micros_at(key@),
    {
        match self.get(key) {
            Some(Json::Number(n)) => Some(n.micros),
            _ => None,
        }
    }
}


/// A JSON string.
pub fn jstr(s: &str) -> (r: Json)
    ensures
        spec_as_str(r) == Some(s@),
        jview(r) == JView::Str(s@),
{
    Json::Str(owned(s))
}

/// A JSON object of the entries, in order.
pub fn jobj(entries: Vec<(String, Json)>) -> (r: Json)
    ensures
        r == Json::Object(entries),
        jview(r) == JView::Object(entries@.map_values(|e: (String, Json)| (e.0@, jview(e.1)))),
{
    let r = Json::Object(entries);
    proof {
        if let JView::Object(es) = jview(r) {
            assert(es =~= entries@.map_values(|e: (String, Json)| (e.0@, jview(e.1))));
        }
    }
    r
}

/// A JSON array of the items, in order.
pub fn jarr(items: Vec<Json>) -> (r: Json)
    ensures
        r == Json::Array(items),
        jview(r) == JView::Array(items@.map_values(|x: Json| jview(x))),
{
    let r = Json::Array(items);
    proof {
        if let JView::Array(xs) = jview(r) {
            assert(xs =~= items@.map_values(|x: Json| jview(x)));
        }
    }
    r
}

/// An object entry.
pub fn jkv(k: &str, v: Json) -> (r: (String, Json))
    ensures
        r.0@ == k@,
        r.1 == v,
{
    (owned(k), v)
}

/// An integer JSON number.
pub fn jint(n: i64) -> (r: Json)
    ensures
        r == Json::Number(JsonNumber { micros: (n * MICROS_PER_UNIT) as i128, integral: true }),
        jview(r) == JView::Number(JsonNumber { micros: (n * MICROS_PER_UNIT) as i128, integral: true }),
{
    Json::Number(JsonNumber { micros: (n as i128) * MICROS_PER_UNIT, integral: true })
}

/// A non-integral JSON number, given in millionths.
pub fn jmicros(m: i128) -> (r: Json)
    ensures
        r == Json::Number(JsonNumber { micros: m, integral: false }),
{
    Json::Number(JsonNumber { micros: m, integral: false })
}

/// Sets `key` in an object's entries: the first entry with the key takes
/// the value, else the entry is added at the end (`Map::insert`).
pub fn object_insert(entries: &mut Vec<(String, Json)>, key: &str, value: Json)
    ensures
        entries_lookup(final(entries)@, key@) == Some(value),
        forall|k: Seq<char>| k != key@ ==> #[trigger] entries_lookup(final(entries)@, k) == entries_lookup(
            old(entries)@,
            k,
        ),
{
    let k = owned(key);
    let mut i: usize = 0;
    while i < entries.len()
        invariant
            0 <= i <= entries.len(),
            k@ == key@,
            *entries == *old(entries),
            forall|j: int| 0 <= j < i ==> (#[trigger] entries@[j]).0@ != key@,
        decreases entries.len() - i,
    {
        if entries[i].0 == k {
            let ghost before = entries@;
            let mut slot = (String::new(), Json::Null);
            std::mem::swap(&mut slot, &mut entries[i]);
            slot.1 = value;
            let ghost newslot = slot;
            entries.set(i, slot);
            proof {
                assert(entries@ == before.update(i as int, newslot));
                lemma_lookup_update(before, i as int, newslot, key@);
            }
            return;
        }
        i = i + 1;
    }
    let ghost before = entries@;
    let e = (k, value);
    let ghost ev = e;
    entries.push(e);
    proof {
        lemma_lookup_push(before, ev, key@);
    }
}

proof fn lemma_lookup_update(entries: Seq<(String, Json)>, i: int, e: (String, Json), key: Seq<char>)
    requires
        0 <= i < entries.len(),
        entries[i].0@ == key,
        e.0@ == key,
        forall|j: int| 0 <= j < i ==> (#[trigger] entries[j]).0@ != key,
    ensures
        entries_lookup(entries.update(i, e), key) == Some(e.1),
        forall|k: Seq<char>| k != key ==> #[trigger] entries_lookup(entries.update(i, e), k) == entries_lookup(entries, k),
    decreases i,
{
    let u = entries.update(i, e);
    if i == 0 {
        assert(u[0] == e);
        assert(u.drop_first() =~= entries.drop_first());
        assert forall|k: Seq<char>| k != key implies #[trigger] entries_lookup(u, k) == entries_lookup(entries, k) by {
            assert(entries_lookup(u, k) == entries_lookup(u.drop_first(), k));
            assert(entries_lookup(entries, k) == entries_lookup(entries.drop_first(), k));
        }
    } else {
        assert(u.drop_first() =~= entries.drop_first().update(i - 1, e));
        assert forall|j: int| 0 <= j < i - 1 implies (#[trigger] entries.drop_first()[j]).0@ != key by {
            assert(entries.drop_first()[j] == entries[j + 1]);
        }
        lemma_lookup_update(entries.drop_first(), i - 1, e, key);
        assert(u[0] == entries[0]);
        assert forall|k: Seq<char>| k != key implies #[trigger] entries_lookup(u, k) == entries_lookup(entries, k) by {
            if entries[0].0@ != k {
                assert(entries_lookup(u, k) == entries_lookup(u.drop_first(), k));
                assert(entries_lookup(entries, k) == entries_lookup(entries.drop_first(), k));
            }
        }
    }
}

proof fn lemma_lookup_push(entries: Seq<(String, Json)>, e: (String, Json), key: Seq<char>)
    requires
        e.0@ == key,
        forall|j: int| 0 <= j < entries.len() ==> (#[trigger] entries[j]).0@ != key,
    ensures
        entries_lookup(entries.push(e), key) == Some(e.1),
        forall|k: Seq<char>| k != key ==> #[trigger] entries_lookup(entries.push(e), k) == entries_lookup(entries, k),
    decreases entries.len(),
{
    if entries.len() == 0 {
        assert(entries.push(e).drop_first() =~= Seq::<(String, Json)>::empty());
        assert forall|k: Seq<char>| k != key implies #[trigger] entries_lookup(entries.push(e), k) == entries_lookup(
            entries,
            k,
        ) by {
            assert(entries_lookup(entries.push(e), k) == entries_lookup(entries.push(e).drop_first(), k));
        }
    } else {
        assert(entries.push(e).drop_first() =~= entries.drop_first().push(e));
        assert forall|j: int| 0 <= j < entries.drop_first().len() implies (#[trigger] entries.drop_first()[j]).0@
            != key by {
            assert(entries.drop_first()[j] == entries[j + 1]);
        }
        lemma_lookup_push(entries.drop_first(), e, key);
        assert(entries.push(e)[0] == entries[0]);
        assert forall|k: Seq<char>| k != key implies #[trigger] entries_lookup(entries.push(e), k) == entries_lookup(
            entries,
            k,
        ) by {
            if entries[0].0@ != k {
                assert(entries_lookup(entries.push(e), k) == entries_lookup(entries.push(e).drop_first(), k));
                assert(entries_lookup(entries, k) == entries_lookup(entries.drop_first(), k));
            }
        }
    }
}

} // verus!
