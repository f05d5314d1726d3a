//! JSON values as the library reads and builds them.

use vstd::prelude::*;

verus! {

/// A JSON value. A number is kept as the text that denotes it; an object
/// keeps its members in order.
pub enum Json {
    Null,
    Bool(bool),
    Number(String),
    Str(String),
    Array(Vec<Json>),
    Object(Vec<(String, Json)>),
}

/// The mathematical form of a JSON value.
pub enum JsonV {
    Null,
    Bool(bool),
    Number(Seq<char>),
    Str(Seq<char>),
    Array(Seq<JsonV>),
    Object(Seq<(Seq<char>, JsonV)>),
}

impl Json {
    /// The mathematical form of this value.
    pub open spec fn spec_view(self) -> JsonV
        decreases self,
    {
        match self {
            Json::Null => JsonV::Null,
            Json::Bool(b) => JsonV::Bool(b),
            Json::Number(n) => JsonV::Number(n@),
            Json::Str(s) => JsonV::Str(s@),
            Json::Array(items) => JsonV::Array(
                Seq::new(
                    items@.len(),
                    |i: int|
                        if 0 <= i < items@.len() {
                            proof {
                                assert(decreases_to!(items => items@));
                            }
                            items@[i].spec_view()
                        } else {
                            JsonV::Null
                        },
                ),
            ),
            Json::Object(entries) => JsonV::Object(
                Seq::new(
                    entries@.len(),
                    |i: int|
                        if 0 <= i < entries@.len() {
                            proof {
                                assert(decreases_to!(entries => entries@));
                            }
                            (entries@[i].0@, entries@[i].1.spec_view())
                        } else {
                            (Seq::empty(), JsonV::Null)
                        },
                ),
            ),
        }
    }
}

impl View for Json {
    type V = JsonV;

    open spec fn view(&self) -> JsonV {
        self.spec_view()
    }
}

/// The value of the first member named `key`, if `v` is an object that has one.
pub open spec fn member(v: JsonV, key: Seq<char>) -> Option<JsonV> {
    match v {
        JsonV::Object(entries) => if exists|i: int| 0 <= i < entries.len() && entries[i].0 == key {
            let i = choose|i: int|
                0 <= i < entries.len() && entries[i].0 == key && forall|j: int|
                    0 <= j < i ==> entries[j].0 != key;
            Some(entries[i].1)
        } else {
            None
        },
        _ => None,
    }
}

/// The text of `v` if it is a string.
pub open spec fn as_text(v: JsonV) -> Option<Seq<char>> {
    match v {
        JsonV::Str(s) => Some(s),
        _ => None,
    }
}

/// Whether `entries` has no name twice.
pub open spec fn distinct_names(entries: Seq<(Seq<char>, JsonV)>) -> bool {
    forall|i: int, j: int|
        0 <= i < entries.len() && 0 <= j < entries.len() && i != j ==> #[trigger] entries[i].0
            != #[trigger] entries[j].0
}

/// `v` with member `key` set to `value`: a member of that name is replaced
/// where it stands, otherwise the member is added at the end. A value that
/// is not an object is left as it is.
pub open spec fn with_member(v: JsonV, key: Seq<char>, value: JsonV) -> JsonV {
    match v {
        JsonV::Object(entries) => if exists|i: int| 0 <= i < entries.len() && entries[i].0 == key {
            let i = choose|i: int|
                0 <= i < entries.len() && entries[i].0 == key && forall|j: int|
                    0 <= j < i ==> entries[j].0 != key;
            JsonV::Object(entries.update(i, (key, value)))
        } else {
            JsonV::Object(entries.push((key, value)))
        },
        _ => v,
    }
}

/// An object made of the given members, in order.
pub open spec fn object_of(entries: Seq<(Seq<char>, JsonV)>) -> JsonV {
    JsonV::Object(entries)
}

fn first_member_index(entries: &Vec<(String, Json)>, key: &str) -> (r: Option<usize>)
    ensures
        match r {
            Some(i) => i < entries@.len() && entries@[i as int].0@ == key@ && forall|j: int|
                0 <= j < i ==> entries@[j].0@ != key@,
            None => forall|j: int| 0 <= j < entries@.len() ==> entries@[j].0@ != key@,
        },
{
    let mut i: usize = 0;
    while i < entries.len()
        invariant
            i <= entries@.len(),
            forall|j: int| 0 <= j < i ==> entries@[j].0@ != key@,
        decreases entries@.len() - i,
    {
        if crate::text::text_eq(entries[i].0.as_str(), key) {
            return Some(i);
        }
        i = i + 1;
    }
    None
}

impl Json {
    /// The value of member `key`, as `Value::get` with a string gives it.
    pub fn get(&self, key: &str) -> (r: Option<&Json>)
        ensures
            match r {
                Some(v) => member(self@, key@) == Some(v@),
                None => member(self@, key@) is None,
            },
    {
        match self {
            Json::Object(entries) => {
                let ghost ev = self@->Object_0;
                assert(ev.len() == entries@.len());
                assert(forall|j: int| 0 <= j < entries@.len() ==> ev[j] == (entries@[j].0@, entries@[j].1@));
                match first_member_index(entries, key) {
                    Some(i) => {
                        let ghost c = choose|c: int|
                            0 <= c < ev.len() && ev[c].0 == key@ && forall|j: int|
                                0 <= j < c ==> ev[j].0 != key@;
                        assert(ev[i as int].0 == key@);
                        assert(c == i) by {
                            if c < i {
                                assert(entries@[c].0@ != key@);
                            } else if c > i {
                                assert(ev[i as int].0 != key@);
                            }
                        }
                        Some(&entries[i].1)
                    },
                    None => {
                        assert(!exists|c: int| 0 <= c < ev.len() && ev[c].0 == key@);
                        None
                    },
                }
            },
            _ => None,
        }
    }

    /// The text of a string value, as `Value::as_str` gives it.
    pub fn as_str(&self) -> (r: Option<&String>)
        ensures
            match r {
                Some(s) => as_text(self@) == Some(s@),
                None => as_text(self@) is None,
            },
    {
        match self {
            Json::Str(s) => Some(s),
            _ => None,
        }
    }

    /// A string value.
    pub fn text(s: String) -> (v: Json)
        ensures
            v@ == JsonV::Str(s@),
    {
        Json::Str(s)
    }

    /// Whether this value is an object.
    pub fn is_object(&self) -> (b: bool)
        ensures
            b == (self@ is Object),
    {
        match self {
            Json::Object(_) => true,
            _ => false,
        }
    }

    /// Sets member `key` of an object to `value`; a value that is not an
    /// object is left as it is.
    pub fn insert_member(&mut self, key: String, value: Json)
        ensures
            final(self)@ == with_member(old(self)@, key@, value@),
    {
        let ghost kv = key@;
        let ghost vv = value@;
        if let Json::Object(entries) = self {
            let ghost ev = old(self)@->Object_0;
            assert(forall|j: int| 0 <= j < entries@.len() ==> ev[j] == (entries@[j].0@, entries@[j].1@));
            match first_member_index(entries, key.as_str()) {
                Some(i) => {
                    let ghost c = choose|c: int|
                        0 <= c < ev.len() && ev[c].0 == kv && forall|j: int|
                            0 <= j < c ==> ev[j].0 != kv;
                    assert(ev[i as int].0 == kv);
                    assert(c == i) by {
                        if c < i {
                            assert(entries@[c].0@ != kv);
                        } else if c > i {
                            assert(ev[i as int].0 != kv);
                        }
                    }
                    entries.set(i, (key, value));
                },
                None => {
                    assert(!exists|c: int| 0 <= c < ev.len() && ev[c].0 == kv);
                    entries.push((key, value));
                },
            }
            proof {
                let nv = self@->Object_0;
                let expected = with_member(old(self)@, kv, vv)->Object_0;
                assert(nv.len() == expected.len());
                assert(nv =~= expected);
            }
        }
    }

    /// A deep copy.
    pub fn deep_clone(&self) -> (r: Json)
        ensures
            r@ == self@,
        decreases self,
    {
        match self {
            Json::Null => Json::Null,
            Json::Bool(b) => Json::Bool(*b),
            Json::Number(n) => Json::Number(n.clone()),
            Json::Str(s) => Json::Str(s.clone()),
            Json::Array(items) => {
                let mut out: Vec<Json> = Vec::new();
                let mut i: usize = 0;
                while i < items.len()
                    invariant
                        i <= items@.len(),
                        out@.len() == i,
                        *self == Json::Array(*items),
                        forall|j: int| 0 <= j < i ==> (#[trigger] out@[j])@ == items@[j]@,
                    decreases items@.len() - i,
                {
                    proof {
                        assert(decreases_to!(items => items@));
                        assert(decreases_to!(items@ => items@[i as int]));
                        assert(decreases_to!(*self => (*self)->Array_0));
                    }
                    let c = items[i].deep_clone();
                    out.push(c);
                    i = i + 1;
                }
                let r = Json::Array(out);
                assert(r@->Array_0 =~= self@->Array_0);
                r
            },
            Json::Object(entries) => {
                let mut out: Vec<(String, Json)> = Vec::new();
                let mut i: usize = 0;
                while i < entries.len()
                    invariant
                        i <= entries@.len(),
                        out@.len() == i,
                        *self == Json::Object(*entries),
                        forall|j: int|
                            0 <= j < i ==> (#[trigger] out@[j]).0@ == entries@[j].0@ && out@[j].1@
                                == entries@[j].1@,
                    decreases entries@.len() - i,
                {
                    proof {
                        assert(decreases_to!(entries => entries@));
                        assert(decreases_to!(entries@ => entries@[i as int]));
                        assert(decreases_to!(entries@[i as int] => entries@[i as int].1));
                        assert(decreases_to!(*self => (*self)->Object_0));
                    }
                    let c = entries[i].1.deep_clone();
                    out.push((entries[i].0.clone(), c));
                    i = i + 1;
                }
                let r = Json::Object(out);
                assert(r@->Object_0 =~= self@->Object_0);
                r
            },
        }
    }
}

/// Builds an object from members given in order.
pub fn make_object(entries: Vec<(String, Json)>) -> (v: Json)
    ensures
        v@ == JsonV::Object(Seq::new(entries@.len(), |i: int| (entries@[i].0@, entries@[i].1@))),
{
    let v = Json::Object(entries);
    assert(v@->Object_0 =~= Seq::new(entries@.len(), |i: int| (entries@[i].0@, entries@[i].1@)));
    v
}

/// An object of two members.
pub fn object2(k1: &str, v1: Json, k2: &str, v2: Json) -> (v: Json)
    ensures
        v@ == JsonV::Object(seq![(k1@, v1@), (k2@, v2@)]),
{
    let mut entries: Vec<(String, Json)> = Vec::new();
    entries.push((k1.to_owned(), v1));
    entries.push((k2.to_owned(), v2));
    let v = make_object(entries);
    assert(v@->Object_0 =~= seq![(k1@, v1@), (k2@, v2@)]);
    v
}

/// An object of one member.
pub fn object1(k1: &str, v1: Json) -> (v: Json)
    ensures
        v@ == JsonV::Object(seq![(k1@, v1@)]),
{
    let mut entries: Vec<(String, Json)> = Vec::new();
    entries.push((k1.to_owned(), v1));
    let v = make_object(entries);
    assert(v@->Object_0 =~= seq![(k1@, v1@)]);
    v
}

/// The JSON string of `s`.
pub fn str_value(s: &str) -> (v: Json)
    ensures
        v@ == JsonV::Str(s@),
{
    Json::Str(s.to_owned())
}

proof fn lemma_member_at(entries: Seq<(Seq<char>, JsonV)>, key: Seq<char>, i: int)
    requires
        0 <= i < entries.len(),
        entries[i].0 == key,
        forall|j: int| 0 <= j < i ==> entries[j].0 != key,
    ensures
        member(JsonV::Object(entries), key) == Some(entries[i].1),
{
    assert(0 <= i < entries.len() && entries[i].0 == key && forall|j: int|
        0 <= j < i ==> entries[j].0 != key);
    let c = choose|c: int|
        0 <= c < entries.len() && entries[c].0 == key && forall|j: int|
            0 <= j < c ==> entries[j].0 != key;
    assert(c == i) by {
        if c < i {
        } else if c > i {
        }
    }
}

proof fn lemma_first_of(entries: Seq<(Seq<char>, JsonV)>, key: Seq<char>, k: int) -> (i: int)
    requires
        0 <= k < entries.len(),
        entries[k].0 == key,
    ensures
        0 <= i <= k,
        entries[i].0 == key,
        forall|j: int| 0 <= j < i ==> entries[j].0 != key,
    decreases k,
{
    if exists|j: int| 0 <= j < k && entries[j].0 == key {
        let j = choose|j: int| 0 <= j < k && entries[j].0 == key;
        lemma_first_of(entries, key, j)
    } else {
        k
    }
}

proof fn lemma_member_none(entries: Seq<(Seq<char>, JsonV)>, key: Seq<char>)
    requires
        forall|j: int| 0 <= j < entries.len() ==> entries[j].0 != key,
    ensures
        member(JsonV::Object(entries), key) is None,
{
}

proof fn lemma_member_some(entries: Seq<(Seq<char>, JsonV)>, key: Seq<char>) -> (i: int)
    requires
        exists|i: int| 0 <= i < entries.len() && entries[i].0 == key,
    ensures
        0 <= i < entries.len(),
        entries[i].0 == key,
        forall|j: int| 0 <= j < i ==> entries[j].0 != key,
        member(JsonV::Object(entries), key) == Some(entries[i].1),
{
    let k = choose|k: int| 0 <= k < entries.len() && entries[k].0 == key;
    let i = lemma_first_of(entries, key, k);
    lemma_member_at(entries, key, i);
    i
}

/// Setting a member of an object and then reading it gives the value set;
/// every other member reads as before.
pub proof fn law_member_after_set(
    entries: Seq<(Seq<char>, JsonV)>,
    key: Seq<char>,
    value: JsonV,
    other: Seq<char>,
)
    ensures
        member(with_member(JsonV::Object(entries), key, value), key) == Some(value),
        other != key ==> member(with_member(JsonV::Object(entries), key, value), other) == member(
            JsonV::Object(entries),
            other,
        ),
{
    let v = JsonV::Object(entries);
    let ne = with_member(v, key, value)->Object_0;
    if exists|i: int| 0 <= i < entries.len() && entries[i].0 == key {
        let i = lemma_member_some(entries, key);
        assert(ne == entries.update(i, (key, value)));
        lemma_member_at(ne, key, i);
        if other != key {
            if exists|k: int| 0 <= k < entries.len() && entries[k].0 == other {
                let a = lemma_member_some(entries, other);
                lemma_member_at(ne, other, a);
            } else {
                lemma_member_none(ne, other);
            }
        }
    } else {
        assert(ne == entries.push((key, value)));
        lemma_member_at(ne, key, entries.len() as int);
        if other != key {
            if exists|k: int| 0 <= k < entries.len() && entries[k].0 == other {
                let a = lemma_member_some(entries, other);
                lemma_member_at(ne, other, a);
            } else {
                lemma_member_none(ne, other);
            }
        }
    }
}

} // verus!
