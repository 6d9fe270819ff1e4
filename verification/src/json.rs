//! JSON values built by the mappings to JSCalendar and JSContact.
use vstd::prelude::*;
use crate::text::str_eq;

verus! {

/// A JSON value. An object keeps its members in the order in which their
/// keys were first put.
#[derive(Debug)]
pub enum JsonValue {
    Null,
    Bool(bool),
    Number(i64),
    /// A number outside the `i64` range, or one with a fraction or an
    /// exponent, as its JSON text.
    OtherNumber(String),
    Str(String),
    Array(Vec<JsonValue>),
    Object(Vec<(String, JsonValue)>),
}

/// The mathematical model of a JSON value.
pub enum JsonV {
    Null,
    Bool(bool),
    Number(int),
    OtherNumber(Seq<char>),
    Str(Seq<char>),
    Array(Seq<JsonV>),
    Object(Seq<(Seq<char>, JsonV)>),
}

pub open spec fn json_view(j: JsonValue) -> JsonV
    decreases j,
{
    match j {
        JsonValue::Null => JsonV::Null,
        JsonValue::Bool(b) => JsonV::Bool(b),
        JsonValue::Number(n) => JsonV::Number(n as int),
        JsonValue::OtherNumber(t) => JsonV::OtherNumber(t@),
        JsonValue::Str(s) => JsonV::Str(s@),
        JsonValue::Array(a) => JsonV::Array(items_view(a@)),
        JsonValue::Object(o) => JsonV::Object(entries_view(o@)),
    }
}

pub open spec fn items_view(s: Seq<JsonValue>) -> Seq<JsonV>
    decreases s,
{
    if s.len() == 0 {
        Seq::empty()
    } else {
        items_view(s.drop_last()).push(json_view(s.last()))
    }
}

pub open spec fn entries_view(s: Seq<(String, JsonValue)>) -> Seq<(Seq<char>, JsonV)>
    decreases s,
{
    if s.len() == 0 {
        Seq::empty()
    } else {
        entries_view(s.drop_last()).push((s.last().0@, json_view(s.last().1)))
    }
}

impl View for JsonValue {
    type V = JsonV;

    open spec fn view(&self) -> JsonV {
        json_view(*self)
    }
}

/// A JSON string.
pub open spec fn jstr(s: Seq<char>) -> JsonV {
    JsonV::Str(s)
}

/// A JSON object of one member.
pub open spec fn single(k: Seq<char>, v: JsonV) -> JsonV {
    JsonV::Object(seq![(k, v)])
}

/// The object `{"@type": kind, key: value}` with a string value.
pub open spec fn typed_pair(kind: Seq<char>, key: Seq<char>, value: Seq<char>) -> JsonV {
    JsonV::Object(seq![("@type"@, jstr(kind)), (key, jstr(value))])
}

/// The index of the first member named `k`, if any.
pub open spec fn first_key(e: Seq<(Seq<char>, JsonV)>, k: Seq<char>) -> Option<int> {
    if exists|i: int| 0 <= i < e.len() && e[i].0 == k {
        Some(choose|i: int| 0 <= i < e.len() && e[i].0 == k && forall|j: int| 0 <= j < i ==> e[j].0 != k)
    } else {
        None
    }
}

/// The members after putting `k`: an existing member named `k` takes the new
/// value in place, else the member is added at the end.
pub open spec fn object_put(e: Seq<(Seq<char>, JsonV)>, k: Seq<char>, v: JsonV) -> Seq<(Seq<char>, JsonV)> {
    match first_key(e, k) {
        Some(i) => e.update(i, (k, v)),
        None => e.push((k, v)),
    }
}

/// Puts each member in turn.
pub open spec fn object_put_all(e: Seq<(Seq<char>, JsonV)>, m: Seq<(Seq<char>, JsonV)>) -> Seq<(Seq<char>, JsonV)>
    decreases m.len(),
{
    if m.len() == 0 {
        e
    } else {
        object_put(object_put_all(e, m.drop_last()), m.last().0, m.last().1)
    }
}

pub proof fn lemma_items_push(s: Seq<JsonValue>, x: JsonValue)
    ensures
        items_view(s.push(x)) == items_view(s).push(json_view(x)),
{
    assert(s.push(x).drop_last() =~= s);
}

pub proof fn lemma_entries_push(s: Seq<(String, JsonValue)>, x: (String, JsonValue))
    ensures
        entries_view(s.push(x)) == entries_view(s).push((x.0@, json_view(x.1))),
{
    assert(s.push(x).drop_last() =~= s);
}

pub proof fn lemma_entries_len(s: Seq<(String, JsonValue)>)
    ensures
        entries_view(s).len() == s.len(),
        forall|i: int| 0 <= i < s.len() ==> #[trigger] entries_view(s)[i] == (s[i].0@, json_view(s[i].1)),
    decreases s.len(),
{
    if s.len() > 0 {
        lemma_entries_len(s.drop_last());
    }
}

pub proof fn lemma_entries_update(s: Seq<(String, JsonValue)>, i: int, x: (String, JsonValue))
    requires
        0 <= i < s.len(),
    ensures
        entries_view(s.update(i, x)) == entries_view(s).update(i, (x.0@, json_view(x.1))),
{
    lemma_entries_len(s);
    lemma_entries_len(s.update(i, x));
    assert(entries_view(s.update(i, x)) =~= entries_view(s).update(i, (x.0@, json_view(x.1))));
}

/// Adds an item at the end of an array.
pub fn push_item(v: &mut Vec<JsonValue>, x: JsonValue)
    ensures
        items_view(final(v)@) == items_view(old(v)@).push(x@),
{
    proof { lemma_items_push(v@, x); }
    v.push(x);
}

/// Adds a member at the end of an object.
pub fn push_member(o: &mut Vec<(String, JsonValue)>, k: &str, x: JsonValue)
    ensures
        entries_view(final(o)@) == entries_view(old(o)@).push((k@, x@)),
{
    let key = k.to_owned();
    proof { lemma_entries_push(o@, (key, x)); }
    o.push((key, x));
}

/// `serde_json::Map::insert`: puts a member, replacing the value of one of
/// the same name.
pub fn put_member(o: &mut Vec<(String, JsonValue)>, k: String, x: JsonValue)
    ensures
        entries_view(final(o)@) == object_put(entries_view(old(o)@), k@, x@),
{
    let ghost e = entries_view(o@);
    proof { lemma_entries_len(o@); }
    assert(forall|j: int| 0 <= j < o@.len() ==> #[trigger] e[j] == (o@[j].0@, json_view(o@[j].1)));
    let mut i: usize = 0;
    while i < o.len()
        invariant
            e == entries_view(o@),
            o@ == old(o)@,
            e.len() == o@.len(),
            forall|j: int| 0 <= j < o@.len() ==> #[trigger] e[j] == (o@[j].0@, json_view(o@[j].1)),
            i <= o@.len(),
            forall|j: int| 0 <= j < i ==> e[j].0 != k@,
        decreases o.len() - i,
    {
        if str_eq(o[i].0.as_str(), k.as_str()) {
            assert(e[i as int].0 == k@);
            proof {
                let c = choose|c: int| 0 <= c < e.len() && e[c].0 == k@ && forall|j: int| 0 <= j < c ==> e[j].0 != k@;
                assert(0 <= c < e.len() && e[c].0 == k@ && forall|j: int| 0 <= j < c ==> e[j].0 != k@);
                if c < i {
                } else if c > i {
                    assert(e[i as int].0 != k@);
                }
                assert(first_key(e, k@) == Some(i as int));
                lemma_entries_update(o@, i as int, (k, x));
            }
            o.set(i, (k, x));
            return;
        }
        i += 1;
    }
    proof {
        assert(first_key(e, k@) is None);
        lemma_entries_push(o@, (k, x));
    }
    o.push((k, x));
}

/// A JSON string value.
pub fn json_string(s: &str) -> (r: JsonValue)
    ensures
        r@ == jstr(s@),
{
    JsonValue::Str(s.to_owned())
}

/// The object of one member.
pub fn single_member(k: &str, x: JsonValue) -> (r: JsonValue)
    ensures
        r@ == single(k@, x@),
{
    let mut o: Vec<(String, JsonValue)> = Vec::new();
    push_member(&mut o, k, x);
    assert(entries_view(o@) =~= seq![(k@, x@)]) by {
        reveal_with_fuel(entries_view, 2);
    }
    JsonValue::Object(o)
}

/// The object `{"@type": kind, key: value}`.
pub fn typed_string_pair(kind: &str, key: &str, value: &str) -> (r: JsonValue)
    ensures
        r@ == typed_pair(kind@, key@, value@),
{
    let mut o: Vec<(String, JsonValue)> = Vec::new();
    push_member(&mut o, "@type", json_string(kind));
    push_member(&mut o, key, json_string(value));
    proof { reveal_strlit("@type"); }
    assert(entries_view(o@) =~= seq![("@type"@, jstr(kind@)), (key@, jstr(value@))]);
    JsonValue::Object(o)
}

pub proof fn lemma_items_index(s: Seq<JsonValue>)
    ensures
        items_view(s).len() == s.len(),
        forall|i: int| 0 <= i < s.len() ==> #[trigger] items_view(s)[i] == json_view(s[i]),
    decreases s.len(),
{
    if s.len() > 0 {
        lemma_items_index(s.drop_last());
    }
}

/// A copy of a JSON value.
pub fn json_copy(v: &JsonValue) -> (r: JsonValue)
    ensures
        r@ == v@,
    decreases v,
{
    match v {
        JsonValue::Null => JsonValue::Null,
        JsonValue::Bool(b) => JsonValue::Bool(*b),
        JsonValue::Number(n) => JsonValue::Number(*n),
        JsonValue::OtherNumber(t) => JsonValue::OtherNumber(t.clone()),
        JsonValue::Str(t) => JsonValue::Str(t.clone()),
        JsonValue::Array(a) => {
            let mut out: Vec<JsonValue> = Vec::new();
            let mut i: usize = 0;
            proof { lemma_items_index(a@); }
            while i < a.len()
                invariant
                    *v == JsonValue::Array(*a),
                    i <= a@.len(),
                    items_view(out@) == items_view(a@).take(i as int),
                    items_view(a@).len() == a@.len(),
                    forall|j: int| 0 <= j < a@.len() ==> #[trigger] items_view(a@)[j] == json_view(a@[j]),
                decreases a.len() - i,
            {
                proof {
                    assert(decreases_to!(*v => (*v)->Array_0));
                    assert(decreases_to!(*a => a@));
                    assert(decreases_to!(a@ => a@[i as int]));
                }
                let x = json_copy(&a[i]);
                proof { lemma_items_push(out@, x); }
                out.push(x);
                assert(items_view(a@).take(i + 1) =~= items_view(a@).take(i as int).push(json_view(a@[i as int])));
                i += 1;
            }
            assert(items_view(a@).take(i as int) =~= items_view(a@));
            JsonValue::Array(out)
        },
        JsonValue::Object(o) => {
            let mut out: Vec<(String, JsonValue)> = Vec::new();
            let mut i: usize = 0;
            proof { lemma_entries_len(o@); }
            while i < o.len()
                invariant
                    *v == JsonValue::Object(*o),
                    i <= o@.len(),
                    entries_view(out@) == entries_view(o@).take(i as int),
                    entries_view(o@).len() == o@.len(),
                    forall|j: int| 0 <= j < o@.len() ==> #[trigger] entries_view(o@)[j] == (o@[j].0@, json_view(o@[j].1)),
                decreases o.len() - i,
            {
                proof {
                    assert(decreases_to!(*v => (*v)->Object_0));
                    assert(decreases_to!(*o => o@));
                    assert(decreases_to!(o@ => o@[i as int]));
                    assert(decreases_to!(o@[i as int] => o@[i as int].1));
                }
                let x = json_copy(&o[i].1);
                let k = o[i].0.clone();
                proof { lemma_entries_push(out@, (k, x)); }
                out.push((k, x));
                assert(entries_view(o@).take(i + 1) =~= entries_view(o@).take(i as int).push(entries_view(o@)[i as int]));
                i += 1;
            }
            assert(entries_view(o@).take(i as int) =~= entries_view(o@));
            JsonValue::Object(out)
        },
    }
}

/// The index of the first member named `k`.
pub fn find_member(o: &Vec<(String, JsonValue)>, k: &str) -> (r: Option<usize>)
    ensures
        match r {
            Some(i) => first_key(entries_view(o@), k@) == Some(i as int),
            None => first_key(entries_view(o@), k@) is None,
        },
{
    let ghost e = entries_view(o@);
    proof { lemma_entries_len(o@); lemma_first_key_found(e, k@); }
    let mut i: usize = 0;
    while i < o.len()
        invariant
            e == entries_view(o@),
            e.len() == o@.len(),
            forall|j: int| 0 <= j < o@.len() ==> #[trigger] e[j] == (o@[j].0@, json_view(o@[j].1)),
            i <= o@.len(),
            forall|j: int| 0 <= j < i ==> e[j].0 != k@,
            first_key(e, k@) matches Some(f) ==> 0 <= f < e.len() && e[f].0 == k@ && forall|j: int| 0 <= j < f ==> e[j].0 != k@,
            first_key(e, k@) is None ==> forall|j: int| 0 <= j < e.len() ==> e[j].0 != k@,
        decreases o.len() - i,
    {
        if str_eq(o[i].0.as_str(), k) {
            assert(e[i as int].0 == k@);
            proof {
                match first_key(e, k@) {
                    Some(f) => {
                        if f < i {
                        } else if f > i {
                            assert(e[i as int].0 != k@);
                        }
                    },
                    None => {},
                }
            }
            return Some(i);
        }
        i += 1;
    }
    None
}

pub proof fn lemma_items_len(s: Seq<JsonValue>)
    ensures
        items_view(s).len() == s.len(),
    decreases s.len(),
{
    if s.len() > 0 {
        lemma_items_len(s.drop_last());
    }
}


// ---------------------------------------------------------------------------
// Laws

/// The value of member `k`, if the object has one.
pub open spec fn member_value(e: Seq<(Seq<char>, JsonV)>, k: Seq<char>) -> Option<JsonV> {
    match first_key(e, k) {
        Some(i) => Some(e[i].1),
        None => None,
    }
}

/// No two members share a name.
pub open spec fn distinct_keys(e: Seq<(Seq<char>, JsonV)>) -> bool {
    forall|a: int, b: int| 0 <= a < b < e.len() ==> e[a].0 != e[b].0
}

proof fn lemma_least(e: Seq<(Seq<char>, JsonV)>, k: Seq<char>, i: int)
    requires
        0 <= i < e.len(),
        e[i].0 == k,
    ensures
        exists|c: int| 0 <= c < e.len() && e[c].0 == k && forall|j: int| 0 <= j < c ==> e[j].0 != k,
    decreases i,
{
    if exists|j: int| 0 <= j < i && e[j].0 == k {
        let j = choose|j: int| 0 <= j < i && e[j].0 == k;
        lemma_least(e, k, j);
    } else {
        assert(forall|j: int| 0 <= j < i ==> e[j].0 != k);
    }
}

pub proof fn lemma_first_key_found(e: Seq<(Seq<char>, JsonV)>, k: Seq<char>)
    ensures
        first_key(e, k) matches Some(i) ==> 0 <= i < e.len() && e[i].0 == k && forall|j: int| 0 <= j < i ==> e[j].0 != k,
        first_key(e, k) is None ==> forall|j: int| 0 <= j < e.len() ==> e[j].0 != k,
{
    if exists|i: int| 0 <= i < e.len() && e[i].0 == k {
        let i = choose|i: int| 0 <= i < e.len() && e[i].0 == k;
        lemma_least(e, k, i);
    }
}

/// Putting a member makes it hold the new value; every other member keeps
/// its value.
pub proof fn law_put_then_read(e: Seq<(Seq<char>, JsonV)>, k: Seq<char>, v: JsonV, other: Seq<char>)
    requires
        other != k,
    ensures
        member_value(object_put(e, k, v), k) == Some(v),
        member_value(object_put(e, k, v), other) == member_value(e, other),
{
    lemma_put_reads(e, k, v, other);
}

/// Putting a member never makes a name appear twice.
pub proof fn law_put_keeps_names_distinct(e: Seq<(Seq<char>, JsonV)>, k: Seq<char>, v: JsonV)
    ensures
        distinct_keys(e) ==> distinct_keys(object_put(e, k, v)),
{
    assert(k.push('x').len() != k.len());
    lemma_put_reads(e, k, v, k.push('x'));
}

proof fn lemma_put_reads(e: Seq<(Seq<char>, JsonV)>, k: Seq<char>, v: JsonV, other: Seq<char>)
    requires
        other != k,
    ensures
        member_value(object_put(e, k, v), k) == Some(v),
        member_value(object_put(e, k, v), other) == member_value(e, other),
        distinct_keys(e) ==> distinct_keys(object_put(e, k, v)),
{
    let p = object_put(e, k, v);
    lemma_first_key_found(e, k);
    lemma_first_key_found(e, other);
    lemma_first_key_found(p, k);
    lemma_first_key_found(p, other);
    match first_key(e, k) {
        Some(i) => {
            assert(p[i].0 == k);
            assert forall|j: int| 0 <= j < i implies p[j].0 != k by {
                assert(p[j] == e[j]);
            }
            assert(first_key(p, k) == Some(i)) by {
                let c = choose|c: int| 0 <= c < p.len() && p[c].0 == k && forall|j: int| 0 <= j < c ==> p[j].0 != k;
                assert(0 <= c < p.len() && p[c].0 == k && forall|j: int| 0 <= j < c ==> p[j].0 != k);
                if c < i {
                    assert(p[c] == e[c]);
                } else if c > i {
                    assert(p[i].0 != k);
                }
            }
            assert forall|j: int| 0 <= j < p.len() && j != i implies #[trigger] p[j] == e[j] by {}
            match first_key(e, other) {
                Some(o) => {
                    assert(o != i);
                    assert(p[o] == e[o]);
                    assert(first_key(p, other) == Some(o)) by {
                        let c = choose|c: int| 0 <= c < p.len() && p[c].0 == other && forall|j: int| 0 <= j < c ==> p[j].0 != other;
                        assert(0 <= c < p.len() && p[c].0 == other && forall|j: int| 0 <= j < c ==> p[j].0 != other);
                        if c < o {
                            if c != i {
                                assert(p[c] == e[c]);
                            }
                        } else if c > o {
                            assert(p[o].0 != other);
                        }
                    }
                },
                None => {
                    assert forall|j: int| 0 <= j < p.len() implies p[j].0 != other by {
                        if j != i {
                            assert(p[j] == e[j]);
                        }
                    }
                },
            }
            if distinct_keys(e) {
                assert forall|a: int, b: int| 0 <= a < b < p.len() implies p[a].0 != p[b].0 by {
                    if a != i && b != i {
                        assert(p[a] == e[a] && p[b] == e[b]);
                    } else if a == i {
                        assert(p[b] == e[b]);
                        assert(e[a].0 == k);
                    } else {
                        assert(p[a] == e[a]);
                        assert(e[b].0 == k);
                    }
                }
            }
        },
        None => {
            let n = e.len() as int;
            assert(p[n].0 == k);
            assert forall|j: int| 0 <= j < n implies p[j].0 != k by {
                assert(p[j] == e[j]);
            }
            assert(first_key(p, k) == Some(n)) by {
                let c = choose|c: int| 0 <= c < p.len() && p[c].0 == k && forall|j: int| 0 <= j < c ==> p[j].0 != k;
                assert(0 <= c < p.len() && p[c].0 == k && forall|j: int| 0 <= j < c ==> p[j].0 != k);
                if c < n {
                    assert(p[c] == e[c]);
                }
            }
            match first_key(e, other) {
                Some(o) => {
                    assert(p[o] == e[o]);
                    assert(first_key(p, other) == Some(o)) by {
                        let c = choose|c: int| 0 <= c < p.len() && p[c].0 == other && forall|j: int| 0 <= j < c ==> p[j].0 != other;
                        assert(0 <= c < p.len() && p[c].0 == other && forall|j: int| 0 <= j < c ==> p[j].0 != other);
                        if c < o {
                            assert(p[c] == e[c]);
                        } else if c > o {
                            assert(p[o].0 != other);
                        }
                    }
                },
                None => {
                    assert forall|j: int| 0 <= j < p.len() implies p[j].0 != other by {
                        if j < n {
                            assert(p[j] == e[j]);
                        }
                    }
                },
            }
            if distinct_keys(e) {
                assert forall|a: int, b: int| 0 <= a < b < p.len() implies p[a].0 != p[b].0 by {
                    assert(p[a] == e[a]);
                    if b < n {
                        assert(p[b] == e[b]);
                    }
                }
            }
        },
    }
}
} // verus!
