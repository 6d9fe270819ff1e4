//! Blob references inside JMAP objects: server blob ids rewritten into local
//! ids on import and back on export, and a property moved to the front.
use vstd::prelude::*;
use crate::json::{
    entries_view, first_key, find_member, items_view, json_copy, json_view, lemma_entries_len,
    lemma_entries_push, lemma_items_index, lemma_items_push, JsonV, JsonValue,
};
use crate::text::str_eq;

verus! {

/// The member that marks a blob by its local id.
pub const SENTINEL_KEY: &'static str = "@blob";

/// Why blob references could not be rewritten.
#[derive(Debug)]
pub enum BlobWalkError {
    /// A `@blob` member did not hold an integer local id.
    MalformedSentinel,
    /// The resolver failed, with its message.
    Resolver(String),
}

pub open spec fn blob_error_message(e: BlobWalkError) -> Seq<char> {
    match e {
        BlobWalkError::MalformedSentinel => "malformed @blob sentinel: expected integer local id"@,
        BlobWalkError::Resolver(m) => "blob resolver failed: "@ + m@,
    }
}

impl BlobWalkError {
    /// The text of the error.
    pub fn to_string(&self) -> (r: String)
        ensures
            r@ == blob_error_message(*self),
    {
        match self {
            BlobWalkError::MalformedSentinel => "malformed @blob sentinel: expected integer local id".to_owned(),
            BlobWalkError::Resolver(m) => {
                let mut s = "blob resolver failed: ".to_owned();
                s.append(m.as_str());
                s
            },
        }
    }
}


/// The members whose name is not `k`, in order.
pub open spec fn without_member(e: Seq<(Seq<char>, JsonV)>, k: Seq<char>) -> Seq<(Seq<char>, JsonV)>
    decreases e.len(),
{
    if e.len() == 0 {
        e
    } else if e.last().0 == k {
        without_member(e.drop_last(), k)
    } else {
        without_member(e.drop_last(), k).push(e.last())
    }
}

/// Puts member `key` first in an object, the other members following in
/// their order; a member of the same name is replaced.
pub fn prepend_property(target: &mut Vec<(String, JsonValue)>, key: &str, value: JsonValue)
    ensures
        entries_view(final(target)@) == seq![(key@, value@)] + without_member(entries_view(old(target)@), key@),
{
    let ghost e = entries_view(target@);
    let mut existing: Vec<(String, JsonValue)> = Vec::new();
    std::mem::swap(&mut existing, target);
    let ghost ex = existing@;
    proof { crate::json::lemma_entries_len(ex); }
    crate::json::push_member(target, key, value);
    assert(entries_view(target@) =~= seq![(key@, value@)]) by {
        reveal_with_fuel(entries_view, 2);
    }
    let ghost head = entries_view(target@);
    assert(e.take(0) =~= Seq::<(Seq<char>, JsonV)>::empty());
    assert(ex.skip(0) =~= ex);
    let mut i: usize = 0;
    let n = existing.len();
    while i < n
        invariant
            n == ex.len(),
            i <= n,
            existing@ == ex.skip(i as int),
            e == entries_view(ex),
            e.len() == ex.len(),
            forall|j: int| 0 <= j < ex.len() ==> #[trigger] e[j] == (ex[j].0@, crate::json::json_view(ex[j].1)),
            entries_view(target@) == head + without_member(e.take(i as int), key@),
        decreases n - i,
    {
        let (k, v) = existing.remove(0);
        assert(ex.skip(i as int)[0] == ex[i as int]);
        assert(ex.skip(i as int).skip(1) =~= ex.skip(i + 1));
        assert(e.take(i + 1).drop_last() =~= e.take(i as int));
        assert(e.take(i + 1).last() == e[i as int]);
        let ghost before = entries_view(target@);
        if !str_eq(k.as_str(), key) {
            proof { crate::json::lemma_entries_push(target@, (k, v)); }
            target.push((k, v));
        }
        assert(entries_view(target@) =~= head + without_member(e.take(i + 1), key@));
        i += 1;
    }
    assert(e.take(i as int) =~= e);
}

proof fn lemma_without_member(e: Seq<(Seq<char>, JsonV)>, k: Seq<char>)
    ensures
        forall|j: int| 0 <= j < without_member(e, k).len() ==> #[trigger] without_member(e, k)[j].0 != k,
    decreases e.len(),
{
    if e.len() > 0 {
        lemma_without_member(e.drop_last(), k);
        let r = without_member(e.drop_last(), k);
        if e.last().0 != k {
            assert forall|j: int| 0 <= j < r.push(e.last()).len() implies #[trigger] r.push(e.last())[j].0 != k by {
                if j < r.len() {
                    assert(r.push(e.last())[j] == r[j]);
                }
            }
        }
    }
}

/// A prepended property comes first and is the only member of its name.
pub proof fn law_prepended_first_and_once(e: Seq<(Seq<char>, JsonV)>, k: Seq<char>, v: JsonV)
    ensures
        (seq![(k, v)] + without_member(e, k))[0] == (k, v),
        forall|j: int| 0 < j < (seq![(k, v)] + without_member(e, k)).len() ==> #[trigger] (seq![(k, v)] + without_member(e, k))[j].0 != k,
{
    lemma_without_member(e, k);
    let r = seq![(k, v)] + without_member(e, k);
    assert forall|j: int| 0 < j < r.len() implies #[trigger] r[j].0 != k by {
        assert(r[j] == without_member(e, k)[j - 1]);
    }
}

// ---------------------------------------------------------------------------
// Taking a member out of an object

/// The position of the first member named `k`, or -1.
#[verifier::opaque]
pub open spec fn key_index(e: Seq<(Seq<char>, JsonV)>, k: Seq<char>) -> int {
    match first_key(e, k) {
        Some(i) => i,
        None => -1,
    }
}

/// A position found by a search, or -1.
pub open spec fn opt_index(i: Option<usize>) -> int {
    match i {
        Some(i) => i as int,
        None => -1,
    }
}

/// The texts of a list of strings.
pub open spec fn texts(v: Seq<String>) -> Seq<Seq<char>> {
    v.map_values(|s: String| s@)
}

/// The members once member `out` is taken out the way `serde_json`'s
/// `Map::remove` does it on an order-keeping map: the last member moves into
/// its place. Where `out` is -1 nothing is taken out.
pub open spec fn taken_out(e: Seq<(Seq<char>, JsonV)>, out: int) -> Seq<(Seq<char>, JsonV)> {
    if 0 <= out {
        e.update(out, e.last()).drop_last()
    } else {
        e
    }
}

/// How many members are left once member `out` is taken out.
pub open spec fn left(len: int, out: int) -> int {
    if 0 <= out { len - 1 } else { len }
}

/// The position of the original members that position `j` holds once
/// member `out` is taken out.
pub open spec fn slot(len: int, out: int, j: int) -> int {
    if 0 <= out && j == out { len - 1 } else { j }
}

proof fn lemma_taken_out(e: Seq<(Seq<char>, JsonV)>, out: int)
    requires
        -1 <= out < e.len(),
    ensures
        taken_out(e, out).len() == left(e.len() as int, out),
        forall|j: int| 0 <= j < left(e.len() as int, out) ==> 0 <= #[trigger] slot(e.len() as int, out, j) < e.len()
            && slot(e.len() as int, out, j) != out,
        forall|j: int| 0 <= j < left(e.len() as int, out) ==> #[trigger] taken_out(e, out)[j] == e[slot(e.len() as int, out, j)],
{
}

proof fn lemma_key_index(e: Seq<(Seq<char>, JsonV)>, k: Seq<char>)
    ensures
        -1 <= key_index(e, k) < e.len(),
        key_index(e, k) >= 0 ==> e[key_index(e, k)].0 == k,
        key_index(e, k) >= 0 ==> forall|i: int| 0 <= i < key_index(e, k) ==> e[i].0 != k,
        key_index(e, k) < 0 ==> forall|i: int| 0 <= i < e.len() ==> e[i].0 != k,
{
    reveal(key_index);
    crate::json::lemma_first_key_found(e, k);
}

/// A search's answer is the position of the first member of that name.
proof fn lemma_key_index_found(e: Seq<(Seq<char>, JsonV)>, k: Seq<char>, r: Option<usize>)
    requires
        match r {
            Some(i) => first_key(e, k) == Some(i as int),
            None => first_key(e, k) is None,
        },
    ensures
        key_index(e, k) == opt_index(r),
{
    reveal(key_index);
}

/// The position of the first member named `k` once member `out` is taken out.
fn find_member_left(o: &Vec<(String, JsonValue)>, out: Option<usize>, k: &str) -> (r: Option<usize>)
    requires
        -1 <= opt_index(out) < o@.len(),
    ensures
        opt_index(r) == key_index(taken_out(entries_view(o@), opt_index(out)), k@),
{
    let ghost e = entries_view(o@);
    let ghost t = taken_out(e, opt_index(out));
    proof {
        reveal(key_index);
        lemma_entries_len(o@);
        lemma_taken_out(e, opt_index(out));
        crate::json::lemma_first_key_found(t, k@);
    }
    let n = match out {
        Some(_) => o.len() - 1,
        None => o.len(),
    };
    let mut j: usize = 0;
    while j < n
        invariant
            e == entries_view(o@),
            e.len() == o@.len(),
            forall|i: int| 0 <= i < o@.len() ==> #[trigger] e[i] == (o@[i].0@, json_view(o@[i].1)),
            t == taken_out(e, opt_index(out)),
            -1 <= opt_index(out) < o@.len(),
            n == left(e.len() as int, opt_index(out)),
            t.len() == n,
            forall|i: int| 0 <= i < n ==> 0 <= #[trigger] slot(e.len() as int, opt_index(out), i) < e.len(),
            forall|i: int| 0 <= i < n ==> #[trigger] t[i] == e[slot(e.len() as int, opt_index(out), i)],
            j <= n,
            forall|i: int| 0 <= i < j ==> t[i].0 != k@,
            first_key(t, k@) matches Some(f) ==> 0 <= f < t.len() && t[f].0 == k@ && forall|i: int| 0 <= i < f ==> t[i].0 != k@,
            first_key(t, k@) is None ==> forall|i: int| 0 <= i < t.len() ==> t[i].0 != k@,
        decreases n - j,
    {
        let at = if Some(j) == out { o.len() - 1 } else { j };
        assert(at == slot(e.len() as int, opt_index(out), j as int));
        if str_eq(o[at].0.as_str(), k) {
            assert(t[j as int].0 == k@);
            proof {
                match first_key(t, k@) {
                    Some(f) => {
                        if f > j {
                            assert(t[j as int].0 != k@);
                        }
                    },
                    None => {},
                }
            }
            proof { reveal(key_index); }
            return Some(j);
        }
        j += 1;
    }
    proof { reveal(key_index); }
    None
}

// ---------------------------------------------------------------------------
// Import: server blob ids become local ids

/// The blob ids that an import asks the resolver for, in the order in which
/// it meets them: in an object, its own `blobId` string first, then those in
/// its other members in the order they have once `blobId` is taken out (a
/// `@blob` member that the answer replaces is not searched).
pub open spec fn import_refs(v: JsonV) -> Seq<Seq<char>>
    decreases v, 0int,
{
    match v {
        JsonV::Object(e) => {
            let b = key_index(e, "blobId"@);
            if 0 <= b && e[b].1 is Str {
                seq![e[b].1->Str_0] + import_member_refs(e, 0, b, key_index(taken_out(e, b), "@blob"@))
            } else {
                import_member_refs(e, 0, b, -1)
            }
        },
        JsonV::Array(a) => import_item_refs(a, 0),
        _ => Seq::empty(),
    }
}

/// The blob ids met in positions `j..` of an object once member `out` is
/// taken out, leaving out position `num`.
pub open spec fn import_member_refs(e: Seq<(Seq<char>, JsonV)>, j: int, out: int, num: int) -> Seq<Seq<char>>
    decreases e, e.len() - j,
{
    if j < 0 || j >= left(e.len() as int, out) {
        Seq::empty()
    } else if j == num {
        import_member_refs(e, j + 1, out, num)
    } else {
        let k = slot(e.len() as int, out, j);
        proof {
            assert(0 <= k < e.len());
        }
        import_refs(e[k].1) + import_member_refs(e, j + 1, out, num)
    }
}

/// The blob ids met in items `j..` of an array.
pub open spec fn import_item_refs(a: Seq<JsonV>, j: int) -> Seq<Seq<char>>
    decreases a, a.len() - j,
{
    if j < 0 || j >= a.len() {
        Seq::empty()
    } else {
        import_refs(a[j]) + import_item_refs(a, j + 1)
    }
}

/// An import of `v` given the resolver's answers `locals` for its blob ids,
/// in order: the value it leaves, the answers not used, and whether it
/// stopped at a blob id for which no answer was left.
///
/// In an object, the `blobId` member is taken out. Where it held a string,
/// the next answer goes into a `@blob` member (in place of one already
/// there, else at the end), and the other members are rewritten in turn;
/// where no answer is left the walk stops there with the member taken out.
pub open spec fn import_walk(v: JsonV, locals: Seq<i64>) -> (JsonV, Seq<i64>, bool)
    decreases v, 0int,
{
    match v {
        JsonV::Object(e) => {
            let b = key_index(e, "blobId"@);
            if 0 <= b && e[b].1 is Str {
                if locals.len() == 0 {
                    (JsonV::Object(taken_out(e, b)), locals, true)
                } else {
                    let s = key_index(taken_out(e, b), "@blob"@);
                    let m = import_members(e, 0, b, s, locals[0], locals.drop_first(), false);
                    let members = if s >= 0 { m.0 } else { m.0.push(("@blob"@, JsonV::Number(locals[0] as int))) };
                    (JsonV::Object(members), m.1, m.2)
                }
            } else {
                let m = import_members(e, 0, b, -1, 0, locals, false);
                (JsonV::Object(m.0), m.1, m.2)
            }
        },
        JsonV::Array(a) => {
            let m = import_items(a, 0, locals, false);
            (JsonV::Array(m.0), m.1, m.2)
        },
        _ => (v, locals, false),
    }
}

/// Positions `j..` of an object, once member `out` is taken out, after an
/// import: position `num` holding the local id `n`, the others rewritten in
/// turn until the walk has stopped, and kept as they are after that.
pub open spec fn import_members(
    e: Seq<(Seq<char>, JsonV)>,
    j: int,
    out: int,
    num: int,
    n: i64,
    locals: Seq<i64>,
    stopped: bool,
) -> (Seq<(Seq<char>, JsonV)>, Seq<i64>, bool)
    decreases e, e.len() - j,
{
    if j < 0 || j >= left(e.len() as int, out) {
        (Seq::empty(), locals, stopped)
    } else {
        let k = slot(e.len() as int, out, j);
        proof {
            assert(0 <= k < e.len());
        }
        let w = if j == num {
            (JsonV::Number(n as int), locals, stopped)
        } else if stopped {
            (e[k].1, locals, stopped)
        } else {
            import_walk(e[k].1, locals)
        };
        let rest = import_members(e, j + 1, out, num, n, w.1, w.2);
        (seq![(e[k].0, w.0)] + rest.0, rest.1, rest.2)
    }
}

/// Items `j..` of an array after an import.
pub open spec fn import_items(a: Seq<JsonV>, j: int, locals: Seq<i64>, stopped: bool) -> (Seq<JsonV>, Seq<i64>, bool)
    decreases a, a.len() - j,
{
    if j < 0 || j >= a.len() {
        (Seq::empty(), locals, stopped)
    } else {
        let w = if stopped { (a[j], locals, stopped) } else { import_walk(a[j], locals) };
        let rest = import_items(a, j + 1, w.1, w.2);
        (seq![w.0] + rest.0, rest.1, rest.2)
    }
}

proof fn lemma_texts_push(v: Seq<String>, x: String)
    ensures
        texts(v.push(x)) == texts(v).push(x@),
{
    assert(texts(v.push(x)) =~= texts(v).push(x@));
}

/// Appends the blob ids that an import of `v` asks for.
fn collect_import_refs(v: &JsonValue, out: &mut Vec<String>)
    ensures
        texts(final(out)@) == texts(old(out)@) + import_refs(v@),
    decreases v, 2int,
{
    match v {
        JsonValue::Object(o) => {
            collect_import_object_refs(v, o, out);
        },
        JsonValue::Array(a) => {
            collect_import_item_refs(v, a, out);
        },
        _ => {
            assert(texts(out@) =~= texts(out@) + import_refs(v@));
        },
    }
}

/// Appends the blob ids that an import of object `o` (which is `v`) asks
/// for.
fn collect_import_object_refs(v: &JsonValue, o: &Vec<(String, JsonValue)>, out: &mut Vec<String>)
    requires
        *v == JsonValue::Object(*o),
    ensures
        texts(final(out)@) == texts(old(out)@) + import_refs(v@),
    decreases v, 1int,
{
    let ghost start = texts(out@);
    let ghost e = entries_view(o@);
    assert(v@ == JsonV::Object(e));
    proof {
        lemma_entries_len(o@);
        lemma_key_index(e, "blobId"@);
    }
    let drop = find_member(o, "blobId");
    proof { lemma_key_index_found(e, "blobId"@, drop); }
    match drop {
        Some(b) => {
            match &o[b].1 {
                JsonValue::Str(t) => {
                    let c = t.clone();
                    assert(e[b as int].1 == JsonV::Str(c@));
                    proof { lemma_texts_push(out@, c); }
                    out.push(c);
                    let num = find_member_left(o, drop, "@blob");
                    collect_import_member_refs(v, o, drop, num, out);
                    let ghost rest = import_member_refs(e, 0, b as int, opt_index(num));
                    assert(import_refs(v@) == seq![c@] + rest);
                    assert(start.push(c@) + rest =~= start + (seq![c@] + rest));
                },
                _ => {
                    collect_import_member_refs(v, o, drop, None, out);
                    assert(import_refs(v@) == import_member_refs(e, 0, b as int, -1));
                },
            }
        },
        None => {
            collect_import_member_refs(v, o, drop, None, out);
            assert(import_refs(v@) == import_member_refs(e, 0, -1, -1));
        },
    }
}

/// Appends the blob ids met in the members of object `o` (which is `v`)
/// once member `drop` is taken out, leaving out position `num`.
fn collect_import_member_refs(
    v: &JsonValue,
    o: &Vec<(String, JsonValue)>,
    drop: Option<usize>,
    num: Option<usize>,
    out: &mut Vec<String>,
)
    requires
        *v == JsonValue::Object(*o),
        -1 <= opt_index(drop) < o@.len(),
    ensures
        texts(final(out)@) == texts(old(out)@) + import_member_refs(entries_view(o@), 0, opt_index(drop), opt_index(num)),
    decreases v, 0int,
{
    let ghost e = entries_view(o@);
    let ghost d = opt_index(drop);
    let ghost u = opt_index(num);
    let ghost goal = texts(out@) + import_member_refs(e, 0, d, u);
    proof {
        lemma_entries_len(o@);
        lemma_taken_out(e, d);
    }
    let n = match drop {
        Some(_) => o.len() - 1,
        None => o.len(),
    };
    let mut i: usize = 0;
    while i < n
        invariant
            *v == JsonValue::Object(*o),
            e == entries_view(o@),
            e.len() == o@.len(),
            forall|j: int| 0 <= j < o@.len() ==> #[trigger] e[j] == (o@[j].0@, json_view(o@[j].1)),
            d == opt_index(drop),
            u == opt_index(num),
            -1 <= d < e.len(),
            n == left(e.len() as int, d),
            forall|j: int| 0 <= j < n ==> 0 <= #[trigger] slot(e.len() as int, d, j) < e.len(),
            i <= n,
            texts(out@) + import_member_refs(e, i as int, d, u) == goal,
        decreases n - i,
    {
        let ghost before = texts(out@);
        if Some(i) != num {
            let at = if Some(i) == drop { o.len() - 1 } else { i };
            assert(at == slot(e.len() as int, d, i as int));
            proof {
                assert(decreases_to!(*v => (*v)->Object_0));
                assert(decreases_to!(*o => o@));
                assert(decreases_to!(o@ => o@[at as int]));
                assert(decreases_to!(o@[at as int] => o@[at as int].1));
            }
            collect_import_refs(&o[at].1, out);
            assert(before + (import_refs(e[at as int].1) + import_member_refs(e, i + 1, d, u))
                =~= (before + import_refs(e[at as int].1)) + import_member_refs(e, i + 1, d, u));
        }
        i += 1;
    }
    assert(import_member_refs(e, i as int, d, u) =~= Seq::<Seq<char>>::empty());
    assert(texts(out@) =~= goal);
}

/// Appends the blob ids met in the items of array `a` (which is `v`).
fn collect_import_item_refs(v: &JsonValue, a: &Vec<JsonValue>, out: &mut Vec<String>)
    requires
        *v == JsonValue::Array(*a),
    ensures
        texts(final(out)@) == texts(old(out)@) + import_item_refs(items_view(a@), 0),
    decreases v, 0int,
{
    let ghost s = items_view(a@);
    let ghost start = texts(out@);
    proof { lemma_items_index(a@); }
    let mut i: usize = 0;
    while i < a.len()
        invariant
            *v == JsonValue::Array(*a),
            s == items_view(a@),
            s.len() == a@.len(),
            forall|j: int| 0 <= j < a@.len() ==> #[trigger] s[j] == json_view(a@[j]),
            i <= a@.len(),
            texts(out@) + import_item_refs(s, i as int) == start + import_item_refs(s, 0),
        decreases a.len() - i,
    {
        let ghost before = texts(out@);
        proof {
            assert(decreases_to!(*v => (*v)->Array_0));
            assert(decreases_to!(*a => a@));
            assert(decreases_to!(a@ => a@[i as int]));
        }
        collect_import_refs(&a[i], out);
        assert(before + (import_refs(s[i as int]) + import_item_refs(s, i + 1))
            =~= (before + import_refs(s[i as int])) + import_item_refs(s, i + 1));
        i += 1;
    }
    assert(import_item_refs(s, i as int) =~= Seq::<Seq<char>>::empty());
    assert(texts(out@) =~= start + import_item_refs(s, 0));
}

/// The blob ids of `value` that an import resolves, in the order in which it
/// asks for them.
pub fn import_references(value: &JsonValue) -> (r: Vec<String>)
    ensures
        texts(r@) == import_refs(value@),
{
    let mut out: Vec<String> = Vec::new();
    collect_import_refs(value, &mut out);
    assert(texts(Seq::<String>::empty()) =~= Seq::<Seq<char>>::empty());
    assert(Seq::<Seq<char>>::empty() + import_refs(value@) =~= import_refs(value@));
    out
}

/// Once the walk has stopped, the members are kept as they are, but for the
/// one taken out.
proof fn lemma_import_members_kept(e: Seq<(Seq<char>, JsonV)>, j: int, out: int, n: i64, l: Seq<i64>)
    requires
        -1 <= out < e.len(),
        0 <= j <= left(e.len() as int, out),
    ensures
        import_members(e, j, out, -1, n, l, true)
            == (taken_out(e, out).subrange(j, left(e.len() as int, out)), l, true),
    decreases e.len() - j,
{
    lemma_taken_out(e, out);
    let len = left(e.len() as int, out);
    if j < len {
        lemma_import_members_kept(e, j + 1, out, n, l);
        let k = slot(e.len() as int, out, j);
        assert(seq![(e[k].0, e[k].1)] + taken_out(e, out).subrange(j + 1, len) =~= taken_out(e, out).subrange(j, len));
    } else {
        assert(taken_out(e, out).subrange(j, len) =~= Seq::<(Seq<char>, JsonV)>::empty());
    }
}

/// An import of `v` from answer `pos` on.
fn import_value(v: &JsonValue, locals: &[i64], pos: usize) -> (r: (JsonValue, usize, bool))
    requires
        pos <= locals@.len(),
    ensures
        pos <= r.1 <= locals@.len(),
        import_walk(v@, locals@.skip(pos as int)) == (r.0@, locals@.skip(r.1 as int), r.2),
    decreases v, 2int,
{
    match v {
        JsonValue::Object(o) => import_object_value(v, o, locals, pos),
        JsonValue::Array(a) => {
            let r = import_item_values(v, a, locals, pos);
            (JsonValue::Array(r.0), r.1, r.2)
        },
        JsonValue::Null => (JsonValue::Null, pos, false),
        JsonValue::Bool(b) => (JsonValue::Bool(*b), pos, false),
        JsonValue::Number(x) => (JsonValue::Number(*x), pos, false),
        JsonValue::OtherNumber(t) => (JsonValue::OtherNumber(t.clone()), pos, false),
        JsonValue::Str(t) => (JsonValue::Str(t.clone()), pos, false),
    }
}

/// An import of object `o` (which is `v`) from answer `pos` on.
fn import_object_value(v: &JsonValue, o: &Vec<(String, JsonValue)>, locals: &[i64], pos: usize) -> (r: (JsonValue, usize, bool))
    requires
        *v == JsonValue::Object(*o),
        pos <= locals@.len(),
    ensures
        pos <= r.1 <= locals@.len(),
        import_walk(v@, locals@.skip(pos as int)) == (r.0@, locals@.skip(r.1 as int), r.2),
    decreases v, 1int,
{
    let ghost e = entries_view(o@);
    let ghost l = locals@.skip(pos as int);
    assert(v@ == JsonV::Object(e));
    proof {
        lemma_entries_len(o@);
        lemma_key_index(e, "blobId"@);
    }
    let drop = find_member(o, "blobId");
    proof { lemma_key_index_found(e, "blobId"@, drop); }
    match drop {
        Some(b) => {
            let is_text = match &o[b].1 {
                JsonValue::Str(_) => true,
                _ => false,
            };
            if is_text {
                assert(e[b as int].1 is Str);
                if pos == locals.len() {
                    proof {
                        lemma_taken_out(e, b as int);
                        lemma_import_members_kept(e, 0, b as int, 0, l);
                        assert(taken_out(e, b as int).subrange(0, left(e.len() as int, b as int)) =~= taken_out(e, b as int));
                    }
                    let r = import_member_values(v, o, drop, None, 0, locals, pos, true);
                    (JsonValue::Object(r.0), r.1, r.2)
                } else {
                    let n = locals[pos];
                    let num = find_member_left(o, drop, "@blob");
                    assert(locals@.skip(pos + 1) =~= l.drop_first());
                    let r = import_member_values(v, o, drop, num, n, locals, pos + 1, false);
                    let mut members = r.0;
                    if num.is_none() {
                        crate::json::push_member(&mut members, "@blob", JsonValue::Number(n));
                    }
                    (JsonValue::Object(members), r.1, r.2)
                }
            } else {
                let r = import_member_values(v, o, drop, None, 0, locals, pos, false);
                (JsonValue::Object(r.0), r.1, r.2)
            }
        },
        None => {
            let r = import_member_values(v, o, drop, None, 0, locals, pos, false);
            (JsonValue::Object(r.0), r.1, r.2)
        },
    }
}

/// The members of object `o` (which is `v`) after an import from answer
/// `pos` on, once member `drop` is taken out.
fn import_member_values(
    v: &JsonValue,
    o: &Vec<(String, JsonValue)>,
    drop: Option<usize>,
    num: Option<usize>,
    n: i64,
    locals: &[i64],
    pos: usize,
    stopped: bool,
) -> (r: (Vec<(String, JsonValue)>, usize, bool))
    requires
        *v == JsonValue::Object(*o),
        -1 <= opt_index(drop) < o@.len(),
        pos <= locals@.len(),
    ensures
        pos <= r.1 <= locals@.len(),
        import_members(entries_view(o@), 0, opt_index(drop), opt_index(num), n, locals@.skip(pos as int), stopped)
            == (entries_view(r.0@), locals@.skip(r.1 as int), r.2),
    decreases v, 0int,
{
    let ghost e = entries_view(o@);
    let ghost d = opt_index(drop);
    let ghost u = opt_index(num);
    let ghost goal = import_members(e, 0, d, u, n, locals@.skip(pos as int), stopped);
    proof {
        lemma_entries_len(o@);
        lemma_taken_out(e, d);
    }
    let mut p = pos;
    let mut stopped = stopped;
    let len = match drop {
        Some(_) => o.len() - 1,
        None => o.len(),
    };
    let mut out: Vec<(String, JsonValue)> = Vec::new();
    let mut i: usize = 0;
    assert(entries_view(out@) + goal.0 =~= goal.0);
    while i < len
        invariant
            *v == JsonValue::Object(*o),
            e == entries_view(o@),
            e.len() == o@.len(),
            forall|j: int| 0 <= j < o@.len() ==> #[trigger] e[j] == (o@[j].0@, json_view(o@[j].1)),
            d == opt_index(drop),
            u == opt_index(num),
            -1 <= d < e.len(),
            len == left(e.len() as int, d),
            forall|j: int| 0 <= j < len ==> 0 <= #[trigger] slot(e.len() as int, d, j) < e.len(),
            i <= len,
            pos <= p <= locals@.len(),
            entries_view(out@) + import_members(e, i as int, d, u, n, locals@.skip(p as int), stopped).0 == goal.0,
            import_members(e, i as int, d, u, n, locals@.skip(p as int), stopped).1 == goal.1,
            import_members(e, i as int, d, u, n, locals@.skip(p as int), stopped).2 == goal.2,
        decreases len - i,
    {
        let ghost before = entries_view(out@);
        let ghost cur = import_members(e, i as int, d, u, n, locals@.skip(p as int), stopped);
        let at = if Some(i) == drop { o.len() - 1 } else { i };
        assert(at == slot(e.len() as int, d, i as int));
        let k = o[at].0.clone();
        let x: JsonValue;
        if Some(i) == num {
            x = JsonValue::Number(n);
        } else if stopped {
            x = json_copy(&o[at].1);
        } else {
            proof {
                assert(decreases_to!(*v => (*v)->Object_0));
                assert(decreases_to!(*o => o@));
                assert(decreases_to!(o@ => o@[at as int]));
                assert(decreases_to!(o@[at as int] => o@[at as int].1));
            }
            let r = import_value(&o[at].1, locals, p);
            x = r.0;
            p = r.1;
            stopped = r.2;
        }
        let ghost next = import_members(e, i + 1, d, u, n, locals@.skip(p as int), stopped);
        assert(cur.0 == seq![(k@, x@)] + next.0);
        proof { lemma_entries_push(out@, (k, x)); }
        out.push((k, x));
        assert(before.push((k@, x@)) + next.0 =~= before + (seq![(k@, x@)] + next.0));
        i += 1;
    }
    assert(entries_view(out@) =~= goal.0);
    (out, p, stopped)
}

/// The items of array `a` (which is `v`) after an import from answer `pos`
/// on.
fn import_item_values(v: &JsonValue, a: &Vec<JsonValue>, locals: &[i64], pos: usize) -> (r: (Vec<JsonValue>, usize, bool))
    requires
        *v == JsonValue::Array(*a),
        pos <= locals@.len(),
    ensures
        pos <= r.1 <= locals@.len(),
        import_items(items_view(a@), 0, locals@.skip(pos as int), false) == (items_view(r.0@), locals@.skip(r.1 as int), r.2),
    decreases v, 0int,
{
    let ghost s = items_view(a@);
    proof { lemma_items_index(a@); }
    let mut p: usize = pos;
    let mut stopped = false;
    let ghost goal = import_items(s, 0, locals@.skip(pos as int), false);
    let mut out: Vec<JsonValue> = Vec::new();
    let mut i: usize = 0;
    assert(items_view(out@) + goal.0 =~= goal.0);
    while i < a.len()
        invariant
            *v == JsonValue::Array(*a),
            s == items_view(a@),
            s.len() == a@.len(),
            forall|j: int| 0 <= j < a@.len() ==> #[trigger] s[j] == json_view(a@[j]),
            i <= a@.len(),
            pos <= p <= locals@.len(),
            items_view(out@) + import_items(s, i as int, locals@.skip(p as int), stopped).0 == goal.0,
            import_items(s, i as int, locals@.skip(p as int), stopped).1 == goal.1,
            import_items(s, i as int, locals@.skip(p as int), stopped).2 == goal.2,
        decreases a.len() - i,
    {
        let ghost before = items_view(out@);
        let ghost cur = import_items(s, i as int, locals@.skip(p as int), stopped);
        let x: JsonValue;
        if stopped {
            x = json_copy(&a[i]);
        } else {
            proof {
                assert(decreases_to!(*v => (*v)->Array_0));
                assert(decreases_to!(*a => a@));
                assert(decreases_to!(a@ => a@[i as int]));
            }
            let r = import_value(&a[i], locals, p);
            x = r.0;
            p = r.1;
            stopped = r.2;
        }
        let ghost next = import_items(s, i + 1, locals@.skip(p as int), stopped);
        assert(cur.0 == seq![x@] + next.0);
        proof { lemma_items_push(out@, x); }
        out.push(x);
        assert(before.push(x@) + next.0 =~= before + (seq![x@] + next.0));
        i += 1;
    }
    assert(items_view(out@) =~= goal.0);
    (out, p, stopped)
}

/// Rewrites `value` as an import, with `locals` as the resolver's answers for
/// the blob ids of `import_references`, in order. Returns whether every blob
/// id had an answer; where one had none, the walk stopped there with its
/// `blobId` member taken out.
pub fn apply_import(value: &mut JsonValue, locals: &[i64]) -> (complete: bool)
    ensures
        final(value)@ == import_walk(old(value)@, locals@).0,
        complete == !import_walk(old(value)@, locals@).2,
{
    let r = import_value(&*value, locals, 0);
    assert(locals@.skip(0) =~= locals@);
    *value = r.0;
    !r.2
}


// ---------------------------------------------------------------------------
// Export: local ids become server blob ids

/// What a `@blob` member holds: its local id, or `None` where it is not an
/// integer.
pub open spec fn sentinel_id(x: JsonV) -> Option<int> {
    match x {
        JsonV::Number(n) => Some(n),
        _ => None,
    }
}

/// The local ids that an export meets, in order: in an object, its own
/// `@blob` member first, then those in its other members in the order they
/// have once `@blob` is taken out (a `blobId` member that the answer
/// replaces is not searched). The walk stops at the first `None`, so what
/// follows it is never resolved.
pub open spec fn export_refs(v: JsonV) -> Seq<Option<int>>
    decreases v, 0int,
{
    match v {
        JsonV::Object(e) => {
            let s = key_index(e, "@blob"@);
            if 0 <= s {
                if e[s].1 is Number {
                    seq![sentinel_id(e[s].1)] + export_member_refs(e, 0, s, key_index(taken_out(e, s), "blobId"@))
                } else {
                    seq![sentinel_id(e[s].1)] + export_member_refs(e, 0, s, -1)
                }
            } else {
                export_member_refs(e, 0, -1, -1)
            }
        },
        JsonV::Array(a) => export_item_refs(a, 0),
        _ => Seq::empty(),
    }
}

/// The local ids met in positions `j..` of an object once member `out` is
/// taken out, leaving out position `num`.
pub open spec fn export_member_refs(e: Seq<(Seq<char>, JsonV)>, j: int, out: int, num: int) -> Seq<Option<int>>
    decreases e, e.len() - j,
{
    if j < 0 || j >= left(e.len() as int, out) {
        Seq::empty()
    } else if j == num {
        export_member_refs(e, j + 1, out, num)
    } else {
        let k = slot(e.len() as int, out, j);
        proof {
            assert(0 <= k < e.len());
        }
        export_refs(e[k].1) + export_member_refs(e, j + 1, out, num)
    }
}

/// The local ids met in items `j..` of an array.
pub open spec fn export_item_refs(a: Seq<JsonV>, j: int) -> Seq<Option<int>>
    decreases a, a.len() - j,
{
    if j < 0 || j >= a.len() {
        Seq::empty()
    } else {
        export_refs(a[j]) + export_item_refs(a, j + 1)
    }
}

/// An export of `v` given the resolver's answers `ids` for its local ids, in
/// order: the value it leaves, the answers not used, and whether it stopped.
///
/// In an object, the `@blob` member is taken out. Where it holds an integer
/// and an answer is left, the answer goes into a `blobId` member (in place of
/// one already there, else at the end), and the other members are rewritten
/// in turn; else the walk stops there with the member taken out.
pub open spec fn export_walk(v: JsonV, ids: Seq<Seq<char>>) -> (JsonV, Seq<Seq<char>>, bool)
    decreases v, 0int,
{
    match v {
        JsonV::Object(e) => {
            let s = key_index(e, "@blob"@);
            if 0 <= s {
                if e[s].1 is Number && ids.len() > 0 {
                    let b = key_index(taken_out(e, s), "blobId"@);
                    let m = export_members(e, 0, s, b, ids[0], ids.drop_first(), false);
                    let members = if b >= 0 { m.0 } else { m.0.push(("blobId"@, JsonV::Str(ids[0]))) };
                    (JsonV::Object(members), m.1, m.2)
                } else {
                    (JsonV::Object(taken_out(e, s)), ids, true)
                }
            } else {
                let m = export_members(e, 0, -1, -1, Seq::empty(), ids, false);
                (JsonV::Object(m.0), m.1, m.2)
            }
        },
        JsonV::Array(a) => {
            let m = export_items(a, 0, ids, false);
            (JsonV::Array(m.0), m.1, m.2)
        },
        _ => (v, ids, false),
    }
}

/// Positions `j..` of an object, once member `out` is taken out, after an
/// export: position `num` holding the blob id `id`, the others rewritten in
/// turn until the walk has stopped, and kept as they are after that.
pub open spec fn export_members(
    e: Seq<(Seq<char>, JsonV)>,
    j: int,
    out: int,
    num: int,
    id: Seq<char>,
    ids: Seq<Seq<char>>,
    stopped: bool,
) -> (Seq<(Seq<char>, JsonV)>, Seq<Seq<char>>, bool)
    decreases e, e.len() - j,
{
    if j < 0 || j >= left(e.len() as int, out) {
        (Seq::empty(), ids, stopped)
    } else {
        let k = slot(e.len() as int, out, j);
        proof {
            assert(0 <= k < e.len());
        }
        let w = if j == num {
            (JsonV::Str(id), ids, stopped)
        } else if stopped {
            (e[k].1, ids, stopped)
        } else {
            export_walk(e[k].1, ids)
        };
        let rest = export_members(e, j + 1, out, num, id, w.1, w.2);
        (seq![(e[k].0, w.0)] + rest.0, rest.1, rest.2)
    }
}

/// Items `j..` of an array after an export.
pub open spec fn export_items(a: Seq<JsonV>, j: int, ids: Seq<Seq<char>>, stopped: bool) -> (Seq<JsonV>, Seq<Seq<char>>, bool)
    decreases a, a.len() - j,
{
    if j < 0 || j >= a.len() {
        (Seq::empty(), ids, stopped)
    } else {
        let w = if stopped { (a[j], ids, stopped) } else { export_walk(a[j], ids) };
        let rest = export_items(a, j + 1, w.1, w.2);
        (seq![w.0] + rest.0, rest.1, rest.2)
    }
}

/// The local ids of a list, as integers.
pub open spec fn local_ids(v: Seq<Option<i64>>) -> Seq<Option<int>> {
    v.map_values(|o: Option<i64>| match o {
        Some(n) => Some(n as int),
        None => None,
    })
}

proof fn lemma_local_ids_push(v: Seq<Option<i64>>, x: Option<i64>)
    ensures
        local_ids(v.push(x)) == local_ids(v).push(match x {
            Some(n) => Some(n as int),
            None => None,
        }),
{
    assert(local_ids(v.push(x)) =~= local_ids(v).push(match x {
        Some(n) => Some(n as int),
        None => None,
    }));
}

/// Appends the local ids that an export of `v` meets.
fn collect_export_refs(v: &JsonValue, out: &mut Vec<Option<i64>>)
    ensures
        local_ids(final(out)@) == local_ids(old(out)@) + export_refs(v@),
    decreases v, 2int,
{
    match v {
        JsonValue::Object(o) => {
            collect_export_object_refs(v, o, out);
        },
        JsonValue::Array(a) => {
            collect_export_item_refs(v, a, out);
        },
        _ => {
            assert(local_ids(out@) =~= local_ids(out@) + export_refs(v@));
        },
    }
}

/// Appends the local ids that an export of object `o` (which is `v`)
/// meets.
fn collect_export_object_refs(v: &JsonValue, o: &Vec<(String, JsonValue)>, out: &mut Vec<Option<i64>>)
    requires
        *v == JsonValue::Object(*o),
    ensures
        local_ids(final(out)@) == local_ids(old(out)@) + export_refs(v@),
    decreases v, 1int,
{
    let ghost start = local_ids(out@);
    let ghost e = entries_view(o@);
    assert(v@ == JsonV::Object(e));
    proof {
        lemma_entries_len(o@);
        lemma_key_index(e, "@blob"@);
    }
    let drop = find_member(o, "@blob");
    proof { lemma_key_index_found(e, "@blob"@, drop); }
    match drop {
        Some(b) => {
            match &o[b].1 {
                JsonValue::Number(n) => {
                    proof { lemma_local_ids_push(out@, Some(*n)); }
                    out.push(Some(*n));
                    let num = find_member_left(o, drop, "blobId");
                    collect_export_member_refs(v, o, drop, num, out);
                    let ghost rest = export_member_refs(e, 0, b as int, opt_index(num));
                    assert(export_refs(v@) == seq![Some(*n as int)] + rest);
                    assert(start.push(Some(*n as int)) + rest =~= start + (seq![Some(*n as int)] + rest));
                },
                _ => {
                    proof { lemma_local_ids_push(out@, None); }
                    out.push(None);
                    collect_export_member_refs(v, o, drop, None, out);
                    let ghost rest = export_member_refs(e, 0, b as int, -1);
                    assert(export_refs(v@) == seq![None::<int>] + rest);
                    assert(start.push(None) + rest =~= start + (seq![None::<int>] + rest));
                },
            }
        },
        None => {
            collect_export_member_refs(v, o, drop, None, out);
            assert(export_refs(v@) == export_member_refs(e, 0, -1, -1));
        },
    }
}

/// Appends the local ids met in the members of object `o` (which is `v`)
/// once member `drop` is taken out, leaving out position `num`.
fn collect_export_member_refs(
    v: &JsonValue,
    o: &Vec<(String, JsonValue)>,
    drop: Option<usize>,
    num: Option<usize>,
    out: &mut Vec<Option<i64>>,
)
    requires
        *v == JsonValue::Object(*o),
        -1 <= opt_index(drop) < o@.len(),
    ensures
        local_ids(final(out)@) == local_ids(old(out)@) + export_member_refs(entries_view(o@), 0, opt_index(drop), opt_index(num)),
    decreases v, 0int,
{
    let ghost e = entries_view(o@);
    let ghost d = opt_index(drop);
    let ghost u = opt_index(num);
    let ghost goal = local_ids(out@) + export_member_refs(e, 0, d, u);
    proof {
        lemma_entries_len(o@);
        lemma_taken_out(e, d);
    }
    let n = match drop {
        Some(_) => o.len() - 1,
        None => o.len(),
    };
    let mut i: usize = 0;
    while i < n
        invariant
            *v == JsonValue::Object(*o),
            e == entries_view(o@),
            e.len() == o@.len(),
            forall|j: int| 0 <= j < o@.len() ==> #[trigger] e[j] == (o@[j].0@, json_view(o@[j].1)),
            d == opt_index(drop),
            u == opt_index(num),
            -1 <= d < e.len(),
            n == left(e.len() as int, d),
            forall|j: int| 0 <= j < n ==> 0 <= #[trigger] slot(e.len() as int, d, j) < e.len(),
            i <= n,
            local_ids(out@) + export_member_refs(e, i as int, d, u) == goal,
        decreases n - i,
    {
        let ghost before = local_ids(out@);
        if Some(i) != num {
            let at = if Some(i) == drop { o.len() - 1 } else { i };
            assert(at == slot(e.len() as int, d, i as int));
            proof {
                assert(decreases_to!(*v => (*v)->Object_0));
                assert(decreases_to!(*o => o@));
                assert(decreases_to!(o@ => o@[at as int]));
                assert(decreases_to!(o@[at as int] => o@[at as int].1));
            }
            collect_export_refs(&o[at].1, out);
            assert(before + (export_refs(e[at as int].1) + export_member_refs(e, i + 1, d, u))
                =~= (before + export_refs(e[at as int].1)) + export_member_refs(e, i + 1, d, u));
        }
        i += 1;
    }
    assert(export_member_refs(e, i as int, d, u) =~= Seq::<Option<int>>::empty());
    assert(local_ids(out@) =~= goal);
}

/// Appends the local ids met in the items of array `a` (which is `v`).
fn collect_export_item_refs(v: &JsonValue, a: &Vec<JsonValue>, out: &mut Vec<Option<i64>>)
    requires
        *v == JsonValue::Array(*a),
    ensures
        local_ids(final(out)@) == local_ids(old(out)@) + export_item_refs(items_view(a@), 0),
    decreases v, 0int,
{
    let ghost s = items_view(a@);
    let ghost start = local_ids(out@);
    proof { lemma_items_index(a@); }
    let mut i: usize = 0;
    while i < a.len()
        invariant
            *v == JsonValue::Array(*a),
            s == items_view(a@),
            s.len() == a@.len(),
            forall|j: int| 0 <= j < a@.len() ==> #[trigger] s[j] == json_view(a@[j]),
            i <= a@.len(),
            local_ids(out@) + export_item_refs(s, i as int) == start + export_item_refs(s, 0),
        decreases a.len() - i,
    {
        let ghost before = local_ids(out@);
        proof {
            assert(decreases_to!(*v => (*v)->Array_0));
            assert(decreases_to!(*a => a@));
            assert(decreases_to!(a@ => a@[i as int]));
        }
        collect_export_refs(&a[i], out);
        assert(before + (export_refs(s[i as int]) + export_item_refs(s, i + 1))
            =~= (before + export_refs(s[i as int])) + export_item_refs(s, i + 1));
        i += 1;
    }
    assert(export_item_refs(s, i as int) =~= Seq::<Option<int>>::empty());
    assert(local_ids(out@) =~= start + export_item_refs(s, 0));
}

/// The local ids of `value` that an export meets, in order; `None` stands for
/// a `@blob` member that does not hold an integer, where the export stops.
pub fn export_references(value: &JsonValue) -> (r: Vec<Option<i64>>)
    ensures
        local_ids(r@) == export_refs(value@),
{
    let mut out: Vec<Option<i64>> = Vec::new();
    collect_export_refs(value, &mut out);
    assert(local_ids(Seq::<Option<i64>>::empty()) =~= Seq::<Option<int>>::empty());
    assert(Seq::<Option<int>>::empty() + export_refs(value@) =~= export_refs(value@));
    out
}

/// Once the export has stopped, the members are kept as they are, but for
/// the one taken out.
proof fn lemma_export_members_kept(e: Seq<(Seq<char>, JsonV)>, j: int, out: int, n: Seq<char>, l: Seq<Seq<char>>)
    requires
        -1 <= out < e.len(),
        0 <= j <= left(e.len() as int, out),
    ensures
        export_members(e, j, out, -1, n, l, true)
            == (taken_out(e, out).subrange(j, left(e.len() as int, out)), l, true),
    decreases e.len() - j,
{
    lemma_taken_out(e, out);
    let len = left(e.len() as int, out);
    if j < len {
        lemma_export_members_kept(e, j + 1, out, n, l);
        let k = slot(e.len() as int, out, j);
        assert(seq![(e[k].0, e[k].1)] + taken_out(e, out).subrange(j + 1, len) =~= taken_out(e, out).subrange(j, len));
    } else {
        assert(taken_out(e, out).subrange(j, len) =~= Seq::<(Seq<char>, JsonV)>::empty());
    }
}

/// An export of `v` from answer `pos` on.
fn export_value(v: &JsonValue, ids: &[String], pos: usize) -> (r: (JsonValue, usize, bool))
    requires
        pos <= ids@.len(),
    ensures
        pos <= r.1 <= ids@.len(),
        export_walk(v@, texts(ids@).skip(pos as int)) == (r.0@, texts(ids@).skip(r.1 as int), r.2),
    decreases v, 2int,
{
    match v {
        JsonValue::Object(o) => export_object_value(v, o, ids, pos),
        JsonValue::Array(a) => {
            let r = export_item_values(v, a, ids, pos);
            (JsonValue::Array(r.0), r.1, r.2)
        },
        JsonValue::Null => (JsonValue::Null, pos, false),
        JsonValue::Bool(b) => (JsonValue::Bool(*b), pos, false),
        JsonValue::Number(x) => (JsonValue::Number(*x), pos, false),
        JsonValue::OtherNumber(t) => (JsonValue::OtherNumber(t.clone()), pos, false),
        JsonValue::Str(t) => (JsonValue::Str(t.clone()), pos, false),
    }
}

/// An export of object `o` (which is `v`) from answer `pos` on.
fn export_object_value(v: &JsonValue, o: &Vec<(String, JsonValue)>, ids: &[String], pos: usize) -> (r: (JsonValue, usize, bool))
    requires
        *v == JsonValue::Object(*o),
        pos <= ids@.len(),
    ensures
        pos <= r.1 <= ids@.len(),
        export_walk(v@, texts(ids@).skip(pos as int)) == (r.0@, texts(ids@).skip(r.1 as int), r.2),
    decreases v, 1int,
{
    let ghost e = entries_view(o@);
    let ghost l = texts(ids@).skip(pos as int);
    assert(v@ == JsonV::Object(e));
    proof {
        lemma_entries_len(o@);
        lemma_key_index(e, "@blob"@);
    }
    let drop = find_member(o, "@blob");
    proof { lemma_key_index_found(e, "@blob"@, drop); }
    match drop {
        Some(b) => {
            let is_number = match &o[b].1 {
                JsonValue::Number(_) => true,
                _ => false,
            };
            if is_number && pos < ids.len() {
                assert(e[b as int].1 is Number);
                let n = ids[pos].clone();
                let num = find_member_left(o, drop, "blobId");
                assert(texts(ids@).skip(pos + 1) =~= l.drop_first());
                let r = export_member_values(v, o, drop, num, &n, ids, pos + 1, false);
                let mut members = r.0;
                if num.is_none() {
                    crate::json::push_member(&mut members, "blobId", JsonValue::Str(n));
                }
                (JsonValue::Object(members), r.1, r.2)
            } else {
                proof {
                    lemma_taken_out(e, b as int);
                    lemma_export_members_kept(e, 0, b as int, Seq::empty(), l);
                    assert(taken_out(e, b as int).subrange(0, left(e.len() as int, b as int)) =~= taken_out(e, b as int));
                }
                let empty = String::new();
                let r = export_member_values(v, o, drop, None, &empty, ids, pos, true);
                (JsonValue::Object(r.0), r.1, r.2)
            }
        },
        None => {
            let empty = String::new();
            let r = export_member_values(v, o, drop, None, &empty, ids, pos, false);
            (JsonValue::Object(r.0), r.1, r.2)
        },
    }
}

/// The members of object `o` (which is `v`) after an export from answer
/// `pos` on, once member `drop` is taken out.
fn export_member_values(
    v: &JsonValue,
    o: &Vec<(String, JsonValue)>,
    drop: Option<usize>,
    num: Option<usize>,
    n: &String,
    ids: &[String],
    pos: usize,
    stopped: bool,
) -> (r: (Vec<(String, JsonValue)>, usize, bool))
    requires
        *v == JsonValue::Object(*o),
        -1 <= opt_index(drop) < o@.len(),
        pos <= ids@.len(),
    ensures
        pos <= r.1 <= ids@.len(),
        export_members(entries_view(o@), 0, opt_index(drop), opt_index(num), n@, texts(ids@).skip(pos as int), stopped)
            == (entries_view(r.0@), texts(ids@).skip(r.1 as int), r.2),
    decreases v, 0int,
{
    let ghost e = entries_view(o@);
    let ghost d = opt_index(drop);
    let ghost u = opt_index(num);
    let ghost goal = export_members(e, 0, d, u, n@, texts(ids@).skip(pos as int), stopped);
    proof {
        lemma_entries_len(o@);
        lemma_taken_out(e, d);
    }
    let mut p = pos;
    let mut stopped = stopped;
    let len = match drop {
        Some(_) => o.len() - 1,
        None => o.len(),
    };
    let mut out: Vec<(String, JsonValue)> = Vec::new();
    let mut i: usize = 0;
    assert(entries_view(out@) + goal.0 =~= goal.0);
    while i < len
        invariant
            *v == JsonValue::Object(*o),
            e == entries_view(o@),
            e.len() == o@.len(),
            forall|j: int| 0 <= j < o@.len() ==> #[trigger] e[j] == (o@[j].0@, json_view(o@[j].1)),
            d == opt_index(drop),
            u == opt_index(num),
            -1 <= d < e.len(),
            len == left(e.len() as int, d),
            forall|j: int| 0 <= j < len ==> 0 <= #[trigger] slot(e.len() as int, d, j) < e.len(),
            i <= len,
            pos <= p <= ids@.len(),
            entries_view(out@) + export_members(e, i as int, d, u, n@, texts(ids@).skip(p as int), stopped).0 == goal.0,
            export_members(e, i as int, d, u, n@, texts(ids@).skip(p as int), stopped).1 == goal.1,
            export_members(e, i as int, d, u, n@, texts(ids@).skip(p as int), stopped).2 == goal.2,
        decreases len - i,
    {
        let ghost before = entries_view(out@);
        let ghost cur = export_members(e, i as int, d, u, n@, texts(ids@).skip(p as int), stopped);
        let at = if Some(i) == drop { o.len() - 1 } else { i };
        assert(at == slot(e.len() as int, d, i as int));
        let k = o[at].0.clone();
        let x: JsonValue;
        if Some(i) == num {
            x = JsonValue::Str(n.clone());
        } else if stopped {
            x = json_copy(&o[at].1);
        } else {
            proof {
                assert(decreases_to!(*v => (*v)->Object_0));
                assert(decreases_to!(*o => o@));
                assert(decreases_to!(o@ => o@[at as int]));
                assert(decreases_to!(o@[at as int] => o@[at as int].1));
            }
            let r = export_value(&o[at].1, ids, p);
            x = r.0;
            p = r.1;
            stopped = r.2;
        }
        let ghost next = export_members(e, i + 1, d, u, n@, texts(ids@).skip(p as int), stopped);
        assert(cur.0 == seq![(k@, x@)] + next.0);
        proof { lemma_entries_push(out@, (k, x)); }
        out.push((k, x));
        assert(before.push((k@, x@)) + next.0 =~= before + (seq![(k@, x@)] + next.0));
        i += 1;
    }
    assert(entries_view(out@) =~= goal.0);
    (out, p, stopped)
}

/// The items of array `a` (which is `v`) after an export from answer `pos`
/// on.
fn export_item_values(v: &JsonValue, a: &Vec<JsonValue>, ids: &[String], pos: usize) -> (r: (Vec<JsonValue>, usize, bool))
    requires
        *v == JsonValue::Array(*a),
        pos <= ids@.len(),
    ensures
        pos <= r.1 <= ids@.len(),
        export_items(items_view(a@), 0, texts(ids@).skip(pos as int), false) == (items_view(r.0@), texts(ids@).skip(r.1 as int), r.2),
    decreases v, 0int,
{
    let ghost s = items_view(a@);
    proof { lemma_items_index(a@); }
    let mut p: usize = pos;
    let mut stopped = false;
    let ghost goal = export_items(s, 0, texts(ids@).skip(pos as int), false);
    let mut out: Vec<JsonValue> = Vec::new();
    let mut i: usize = 0;
    assert(items_view(out@) + goal.0 =~= goal.0);
    while i < a.len()
        invariant
            *v == JsonValue::Array(*a),
            s == items_view(a@),
            s.len() == a@.len(),
            forall|j: int| 0 <= j < a@.len() ==> #[trigger] s[j] == json_view(a@[j]),
            i <= a@.len(),
            pos <= p <= ids@.len(),
            items_view(out@) + export_items(s, i as int, texts(ids@).skip(p as int), stopped).0 == goal.0,
            export_items(s, i as int, texts(ids@).skip(p as int), stopped).1 == goal.1,
            export_items(s, i as int, texts(ids@).skip(p as int), stopped).2 == goal.2,
        decreases a.len() - i,
    {
        let ghost before = items_view(out@);
        let ghost cur = export_items(s, i as int, texts(ids@).skip(p as int), stopped);
        let x: JsonValue;
        if stopped {
            x = json_copy(&a[i]);
        } else {
            proof {
                assert(decreases_to!(*v => (*v)->Array_0));
                assert(decreases_to!(*a => a@));
                assert(decreases_to!(a@ => a@[i as int]));
            }
            let r = export_value(&a[i], ids, p);
            x = r.0;
            p = r.1;
            stopped = r.2;
        }
        let ghost next = export_items(s, i + 1, texts(ids@).skip(p as int), stopped);
        assert(cur.0 == seq![x@] + next.0);
        proof { lemma_items_push(out@, x); }
        out.push(x);
        assert(before.push(x@) + next.0 =~= before + (seq![x@] + next.0));
        i += 1;
    }
    assert(items_view(out@) =~= goal.0);
    (out, p, stopped)
}

/// Rewrites `value` as an export, with `ids` as the resolver's answers for
/// the local ids of `export_references`, in order. Returns whether the walk
/// went through; where it stopped (at a `@blob` member that is not an
/// integer, or for which no answer was left), that member is taken out and
/// nothing after it has changed.
pub fn apply_export(value: &mut JsonValue, ids: &[String]) -> (complete: bool)
    ensures
        final(value)@ == export_walk(old(value)@, texts(ids@)).0,
        complete == !export_walk(old(value)@, texts(ids@)).2,
{
    let r = export_value(&*value, ids, 0);
    assert(texts(ids@).skip(0) =~= texts(ids@));
    *value = r.0;
    !r.2
}


// ---------------------------------------------------------------------------
// Laws

/// The smaller of two lengths.
pub open spec fn min_len(a: nat, b: nat) -> int {
    if a <= b { a as int } else { b as int }
}

proof fn lemma_import_counts(v: JsonV, l: Seq<i64>)
    ensures
        import_walk(v, l).2 <==> l.len() < import_refs(v).len(),
        import_walk(v, l).1 == l.skip(min_len(import_refs(v).len(), l.len())),
    decreases v, 0int,
{
    match v {
        JsonV::Object(e) => {
            let b = key_index(e, "blobId"@);
            lemma_key_index(e, "blobId"@);
            if 0 <= b && e[b].1 is Str {
                if l.len() == 0 {
                    assert(l.skip(0) =~= l);
                } else {
                    let s = key_index(taken_out(e, b), "@blob"@);
                    lemma_import_member_counts(e, 0, b, s, l[0], l.drop_first(), false);
                    let r = import_member_refs(e, 0, b, s);
                    assert(l.drop_first().skip(min_len(r.len(), l.drop_first().len()))
                        =~= l.skip(min_len(import_refs(v).len(), l.len())));
                }
            } else {
                lemma_import_member_counts(e, 0, b, -1, 0, l, false);
            }
        },
        JsonV::Array(a) => {
            lemma_import_item_counts(a, 0, l, false);
        },
        _ => {
            assert(l.skip(0) =~= l);
        },
    }
}

proof fn lemma_import_member_counts(
    e: Seq<(Seq<char>, JsonV)>,
    j: int,
    out: int,
    num: int,
    n: i64,
    l: Seq<i64>,
    stopped: bool,
)
    ensures
        stopped ==> import_members(e, j, out, num, n, l, stopped).1 == l && import_members(e, j, out, num, n, l, stopped).2,
        !stopped ==> (import_members(e, j, out, num, n, l, stopped).2 <==> l.len() < import_member_refs(e, j, out, num).len()),
        !stopped ==> import_members(e, j, out, num, n, l, stopped).1 == l.skip(min_len(import_member_refs(e, j, out, num).len(), l.len())),
    decreases e, e.len() - j,
{
    if j < 0 || j >= left(e.len() as int, out) {
        assert(l.skip(0) =~= l);
    } else if j == num || stopped {
        lemma_import_member_counts(e, j + 1, out, num, n, l, stopped);
    } else {
        let k = slot(e.len() as int, out, j);
        assert(0 <= k < e.len());
        lemma_import_counts(e[k].1, l);
        let w = import_walk(e[k].1, l);
        lemma_import_member_counts(e, j + 1, out, num, n, w.1, w.2);
        let rj = import_refs(e[k].1);
        let rest = import_member_refs(e, j + 1, out, num);
        assert(import_member_refs(e, j, out, num) == rj + rest);
        if !w.2 {
            assert(w.1.skip(min_len(rest.len(), w.1.len())) =~= l.skip(min_len((rj + rest).len(), l.len())));
        }
    }
}

proof fn lemma_import_item_counts(a: Seq<JsonV>, j: int, l: Seq<i64>, stopped: bool)
    ensures
        stopped ==> import_items(a, j, l, stopped).1 == l && import_items(a, j, l, stopped).2,
        !stopped ==> (import_items(a, j, l, stopped).2 <==> l.len() < import_item_refs(a, j).len()),
        !stopped ==> import_items(a, j, l, stopped).1 == l.skip(min_len(import_item_refs(a, j).len(), l.len())),
    decreases a, a.len() - j,
{
    if j < 0 || j >= a.len() {
        assert(l.skip(0) =~= l);
    } else if stopped {
        lemma_import_item_counts(a, j + 1, l, stopped);
    } else {
        lemma_import_counts(a[j], l);
        let w = import_walk(a[j], l);
        lemma_import_item_counts(a, j + 1, w.1, w.2);
        let rj = import_refs(a[j]);
        let rest = import_item_refs(a, j + 1);
        if !w.2 {
            assert(w.1.skip(min_len(rest.len(), w.1.len())) =~= l.skip(min_len((rj + rest).len(), l.len())));
        }
    }
}

/// An import takes one answer for each blob id of `import_references`, in
/// order: it goes through exactly when there are answers for all of them,
/// and leaves the answers after those it took.
pub proof fn law_import_one_answer_per_blob_id(v: JsonV, locals: Seq<i64>)
    ensures
        import_walk(v, locals).2 <==> locals.len() < import_refs(v).len(),
        import_walk(v, locals).1 == locals.skip(min_len(import_refs(v).len(), locals.len())),
{
    lemma_import_counts(v, locals);
}

/// How many entries of a list come before its first `None`.
pub open spec fn leading_ids(r: Seq<Option<int>>) -> nat
    decreases r.len(),
{
    if r.len() == 0 || r[0] is None {
        0
    } else {
        1 + leading_ids(r.drop_first())
    }
}

proof fn lemma_leading_concat(a: Seq<Option<int>>, b: Seq<Option<int>>)
    ensures
        leading_ids(a) <= a.len(),
        leading_ids(a + b) == if leading_ids(a) < a.len() { leading_ids(a) } else { a.len() + leading_ids(b) },
    decreases a.len(),
{
    if a.len() == 0 {
        assert(a + b =~= b);
    } else {
        assert((a + b)[0] == a[0]);
        if a[0] is Some {
            lemma_leading_concat(a.drop_first(), b);
            assert((a + b).drop_first() =~= a.drop_first() + b);
        }
    }
}

proof fn lemma_export_counts(v: JsonV, ids: Seq<Seq<char>>)
    ensures
        export_walk(v, ids).2 <==> (ids.len() < leading_ids(export_refs(v)) || leading_ids(export_refs(v)) < export_refs(v).len()),
        export_walk(v, ids).1 == ids.skip(min_len(leading_ids(export_refs(v)), ids.len())),
    decreases v, 0int,
{
    match v {
        JsonV::Object(e) => {
            let s = key_index(e, "@blob"@);
            lemma_key_index(e, "@blob"@);
            if 0 <= s {
                let first = seq![sentinel_id(e[s].1)];
                if e[s].1 is Number && ids.len() > 0 {
                    let b = key_index(taken_out(e, s), "blobId"@);
                    lemma_export_member_counts(e, 0, s, b, ids[0], ids.drop_first(), false);
                    let r = export_member_refs(e, 0, s, b);
                    lemma_leading_concat(first, r);
                    reveal_with_fuel(leading_ids, 2);
                    assert(first.drop_first() =~= Seq::<Option<int>>::empty());
                    assert(ids.drop_first().skip(min_len(leading_ids(r), ids.drop_first().len()))
                        =~= ids.skip(min_len(leading_ids(export_refs(v)), ids.len())));
                } else if e[s].1 is Number {
                    lemma_leading_concat(first, export_member_refs(e, 0, s, key_index(taken_out(e, s), "blobId"@)));
                    reveal_with_fuel(leading_ids, 2);
                    assert(ids.skip(0) =~= ids);
                } else {
                    lemma_leading_concat(first, export_member_refs(e, 0, s, -1));
                    assert(ids.skip(0) =~= ids);
                }
            } else {
                lemma_export_member_counts(e, 0, -1, -1, Seq::empty(), ids, false);
            }
        },
        JsonV::Array(a) => {
            lemma_export_item_counts(a, 0, ids, false);
        },
        _ => {
            assert(ids.skip(0) =~= ids);
        },
    }
}

proof fn lemma_export_member_counts(
    e: Seq<(Seq<char>, JsonV)>,
    j: int,
    out: int,
    num: int,
    id: Seq<char>,
    ids: Seq<Seq<char>>,
    stopped: bool,
)
    ensures
        stopped ==> export_members(e, j, out, num, id, ids, stopped).1 == ids && export_members(e, j, out, num, id, ids, stopped).2,
        !stopped ==> (export_members(e, j, out, num, id, ids, stopped).2 <==> (ids.len() < leading_ids(export_member_refs(e, j, out, num))
            || leading_ids(export_member_refs(e, j, out, num)) < export_member_refs(e, j, out, num).len())),
        !stopped ==> export_members(e, j, out, num, id, ids, stopped).1 == ids.skip(min_len(leading_ids(export_member_refs(e, j, out, num)), ids.len())),
    decreases e, e.len() - j,
{
    if j < 0 || j >= left(e.len() as int, out) {
        assert(ids.skip(0) =~= ids);
    } else if j == num || stopped {
        lemma_export_member_counts(e, j + 1, out, num, id, ids, stopped);
    } else {
        let k = slot(e.len() as int, out, j);
        assert(0 <= k < e.len());
        lemma_export_counts(e[k].1, ids);
        let w = export_walk(e[k].1, ids);
        lemma_export_member_counts(e, j + 1, out, num, id, w.1, w.2);
        let rj = export_refs(e[k].1);
        let rest = export_member_refs(e, j + 1, out, num);
        assert(export_member_refs(e, j, out, num) == rj + rest);
        lemma_leading_concat(rj, rest);
        if !w.2 {
            assert(w.1.skip(min_len(leading_ids(rest), w.1.len())) =~= ids.skip(min_len(leading_ids(rj + rest), ids.len())));
        }
    }
}

proof fn lemma_export_item_counts(a: Seq<JsonV>, j: int, ids: Seq<Seq<char>>, stopped: bool)
    ensures
        stopped ==> export_items(a, j, ids, stopped).1 == ids && export_items(a, j, ids, stopped).2,
        !stopped ==> (export_items(a, j, ids, stopped).2 <==> (ids.len() < leading_ids(export_item_refs(a, j))
            || leading_ids(export_item_refs(a, j)) < export_item_refs(a, j).len())),
        !stopped ==> export_items(a, j, ids, stopped).1 == ids.skip(min_len(leading_ids(export_item_refs(a, j)), ids.len())),
    decreases a, a.len() - j,
{
    if j < 0 || j >= a.len() {
        assert(ids.skip(0) =~= ids);
    } else if stopped {
        lemma_export_item_counts(a, j + 1, ids, stopped);
    } else {
        lemma_export_counts(a[j], ids);
        let w = export_walk(a[j], ids);
        lemma_export_item_counts(a, j + 1, w.1, w.2);
        let rj = export_refs(a[j]);
        let rest = export_item_refs(a, j + 1);
        lemma_leading_concat(rj, rest);
        if !w.2 {
            assert(w.1.skip(min_len(leading_ids(rest), w.1.len())) =~= ids.skip(min_len(leading_ids(rj + rest), ids.len())));
        }
    }
}

/// An export takes one answer for each local id of `export_references`
/// before the first that is not an integer, in order: it goes through
/// exactly when every local id is an integer and has an answer, and leaves
/// the answers after those it took.
pub proof fn law_export_one_answer_per_local_id(v: JsonV, ids: Seq<Seq<char>>)
    ensures
        export_walk(v, ids).2 <==> (ids.len() < leading_ids(export_refs(v)) || leading_ids(export_refs(v)) < export_refs(v).len()),
        export_walk(v, ids).1 == ids.skip(min_len(leading_ids(export_refs(v)), ids.len())),
{
    lemma_export_counts(v, ids);
}


/// Every object in `v` has distinct member names, none of them `@blob`.
pub open spec fn import_ready(v: JsonV) -> bool
    decreases v, 0int,
{
    match v {
        JsonV::Object(e) => crate::json::distinct_keys(e) && key_index(e, "@blob"@) < 0 && members_ready(e, 0),
        JsonV::Array(a) => items_ready(a, 0),
        _ => true,
    }
}

pub open spec fn members_ready(e: Seq<(Seq<char>, JsonV)>, j: int) -> bool
    decreases e, e.len() - j,
{
    if j < 0 || j >= e.len() {
        true
    } else {
        import_ready(e[j].1) && members_ready(e, j + 1)
    }
}

pub open spec fn items_ready(a: Seq<JsonV>, j: int) -> bool
    decreases a, a.len() - j,
{
    if j < 0 || j >= a.len() {
        true
    } else {
        import_ready(a[j]) && items_ready(a, j + 1)
    }
}

proof fn lemma_members_ready(e: Seq<(Seq<char>, JsonV)>, j: int)
    requires
        0 <= j,
        members_ready(e, j),
    ensures
        forall|k: int| j <= k < e.len() ==> import_ready(#[trigger] e[k].1),
    decreases e.len() - j,
{
    if j < e.len() {
        lemma_members_ready(e, j + 1);
    }
}

proof fn lemma_items_ready(a: Seq<JsonV>, j: int)
    requires
        0 <= j,
        items_ready(a, j),
    ensures
        forall|k: int| j <= k < a.len() ==> import_ready(#[trigger] a[k]),
    decreases a.len() - j,
{
    if j < a.len() {
        lemma_items_ready(a, j + 1);
    }
}

/// Local ids, each present.
pub open spec fn present(l: Seq<i64>) -> Seq<Option<int>> {
    l.map_values(|n: i64| Some(n as int))
}

proof fn lemma_member_refs_shift(p: Seq<(Seq<char>, JsonV)>, r: Seq<(Seq<char>, JsonV)>, j: int)
    requires
        0 <= j <= r.len(),
    ensures
        export_member_refs(p + r, p.len() + j, -1, -1) == export_member_refs(r, j, -1, -1),
    decreases r.len() - j,
{
    if j < r.len() {
        lemma_member_refs_shift(p, r, j + 1);
        assert((p + r)[p.len() + j] == r[j]);
    }
}

proof fn lemma_item_refs_shift(p: Seq<JsonV>, r: Seq<JsonV>, j: int)
    requires
        0 <= j <= r.len(),
    ensures
        export_item_refs(p + r, p.len() + j) == export_item_refs(r, j),
    decreases r.len() - j,
{
    if j < r.len() {
        lemma_item_refs_shift(p, r, j + 1);
        assert((p + r)[p.len() + j] == r[j]);
    }
}

proof fn lemma_member_refs_without_last(p: Seq<(Seq<char>, JsonV)>, x: (Seq<char>, JsonV), j: int)
    requires
        0 <= j <= p.len(),
    ensures
        export_member_refs(p.push(x), j, p.len() as int, -1) == export_member_refs(p, j, -1, -1),
    decreases p.len() - j,
{
    if j < p.len() {
        lemma_member_refs_without_last(p, x, j + 1);
        assert(p.push(x)[j] == p[j]);
    }
}

proof fn lemma_round(v: JsonV, l: Seq<i64>)
    requires
        import_ready(v),
        l.len() >= import_refs(v).len(),
    ensures
        export_refs(import_walk(v, l).0) == present(l.take(import_refs(v).len() as int)),
    decreases v, 0int,
{
    match v {
        JsonV::Object(e) => {
            let b = key_index(e, "blobId"@);
            lemma_key_index(e, "blobId"@);
            lemma_key_index(e, "@blob"@);
            lemma_taken_out(e, b);
            lemma_members_ready(e, 0);
            assert forall|k: int| 0 <= k < e.len() && k != b implies e[k].0 != "@blob"@ && e[k].0 != "blobId"@ by {
                if e[k].0 == "blobId"@ {
                    if k < b {
                    } else {
                        assert(e[b].0 == e[k].0);
                    }
                }
            }
            if 0 <= b && e[b].1 is Str {
                let t = taken_out(e, b);
                assert forall|i: int| 0 <= i < t.len() implies #[trigger] t[i].0 != "@blob"@ by {
                    assert(t[i] == e[slot(e.len() as int, b, i)]);
                }
                lemma_key_index(t, "@blob"@);
                assert(key_index(t, "@blob"@) == -1);
                let n = l[0];
                let l1 = l.drop_first();
                let m = import_members(e, 0, b, -1, n, l1, false);
                lemma_round_members(e, 0, b, n, l1);
                let p = m.0;
                let x = ("@blob"@, JsonV::Number(n as int));
                let ne = p.push(x);
                lemma_key_index(ne, "@blob"@);
                assert(ne[p.len() as int].0 == "@blob"@);
                assert(key_index(ne, "@blob"@) == p.len()) by {
                    let ki = key_index(ne, "@blob"@);
                    if 0 <= ki < p.len() {
                        assert(ne[ki] == p[ki]);
                    }
                }
                assert(taken_out(ne, p.len() as int) =~= p);
                lemma_key_index(p, "blobId"@);
                assert(key_index(p, "blobId"@) == -1);
                lemma_member_refs_without_last(p, x, 0);
                assert(import_walk(v, l).0 == JsonV::Object(ne));
                let r1 = import_member_refs(e, 0, b, -1);
                assert(import_refs(v) == seq![e[b].1->Str_0] + r1);
                assert(seq![Some(n as int)] + present(l1.take(r1.len() as int)) =~= present(l.take(import_refs(v).len() as int)));
            } else {
                let m = import_members(e, 0, b, -1, 0, l, false);
                lemma_round_members(e, 0, b, 0, l);
                lemma_key_index(m.0, "@blob"@);
                assert(key_index(m.0, "@blob"@) == -1);
            }
        },
        JsonV::Array(a) => {
            lemma_items_ready(a, 0);
            lemma_round_items(a, 0, l);
        },
        _ => {
            assert(l.take(0) =~= Seq::<i64>::empty());
            assert(present(l.take(0)) =~= Seq::<Option<int>>::empty());
        },
    }
}

proof fn lemma_round_members(e: Seq<(Seq<char>, JsonV)>, j: int, out: int, n: i64, l: Seq<i64>)
    requires
        -1 <= out < e.len(),
        0 <= j <= left(e.len() as int, out),
        forall|k: int| 0 <= k < e.len() ==> import_ready(#[trigger] e[k].1),
        forall|k: int| 0 <= k < e.len() && k != out ==> e[k].0 != "@blob"@ && e[k].0 != "blobId"@,
        l.len() >= import_member_refs(e, j, out, -1).len(),
    ensures
        export_member_refs(import_members(e, j, out, -1, n, l, false).0, 0, -1, -1)
            == present(l.take(import_member_refs(e, j, out, -1).len() as int)),
        forall|i: int| 0 <= i < import_members(e, j, out, -1, n, l, false).0.len() ==>
            #[trigger] import_members(e, j, out, -1, n, l, false).0[i].0 != "@blob"@
            && import_members(e, j, out, -1, n, l, false).0[i].0 != "blobId"@,
    decreases e, e.len() - j,
{
    lemma_taken_out(e, out);
    if j >= left(e.len() as int, out) {
        assert(present(l.take(0)) =~= Seq::<Option<int>>::empty());
    } else {
        let k = slot(e.len() as int, out, j);
        assert(0 <= k < e.len() && k != out);
        let rj = import_refs(e[k].1);
        let rest = import_member_refs(e, j + 1, out, -1);
        assert(import_member_refs(e, j, out, -1) == rj + rest);
        lemma_import_counts(e[k].1, l);
        lemma_round(e[k].1, l);
        let w = import_walk(e[k].1, l);
        assert(w.1 == l.skip(rj.len() as int));
        assert(!w.2);
        lemma_round_members(e, j + 1, out, n, w.1);
        let r = import_members(e, j + 1, out, -1, n, w.1, false);
        let m = import_members(e, j, out, -1, n, l, false);
        assert(m.0 == seq![(e[k].0, w.0)] + r.0);
        lemma_member_refs_shift(seq![(e[k].0, w.0)], r.0, 0);
        assert(export_member_refs(m.0, 0, -1, -1) == export_refs(w.0) + export_member_refs(m.0, 1, -1, -1));
        assert(present(l.take(rj.len() as int)) + present(w.1.take(rest.len() as int))
            =~= present(l.take((rj + rest).len() as int)));
        assert forall|i: int| 0 <= i < m.0.len() implies #[trigger] m.0[i].0 != "@blob"@ && m.0[i].0 != "blobId"@ by {
            if i > 0 {
                assert(m.0[i] == r.0[i - 1]);
            }
        }
    }
}

proof fn lemma_round_items(a: Seq<JsonV>, j: int, l: Seq<i64>)
    requires
        0 <= j <= a.len(),
        forall|k: int| 0 <= k < a.len() ==> import_ready(#[trigger] a[k]),
        l.len() >= import_item_refs(a, j).len(),
    ensures
        export_item_refs(import_items(a, j, l, false).0, 0) == present(l.take(import_item_refs(a, j).len() as int)),
    decreases a, a.len() - j,
{
    if j >= a.len() {
        assert(present(l.take(0)) =~= Seq::<Option<int>>::empty());
    } else {
        let rj = import_refs(a[j]);
        let rest = import_item_refs(a, j + 1);
        lemma_import_counts(a[j], l);
        lemma_round(a[j], l);
        let w = import_walk(a[j], l);
        lemma_round_items(a, j + 1, w.1);
        let r = import_items(a, j + 1, w.1, false);
        let m = import_items(a, j, l, false);
        assert(m.0 == seq![w.0] + r.0);
        lemma_item_refs_shift(seq![w.0], r.0, 0);
        assert(present(l.take(rj.len() as int)) + present(w.1.take(rest.len() as int))
            =~= present(l.take((rj + rest).len() as int)));
    }
}

/// What an import puts in is what an export then meets: after an import of
/// a value whose objects have distinct member names and no `@blob` member,
/// the local ids of `export_references` are the answers the import took, in
/// order.
pub proof fn law_export_meets_what_import_put(v: JsonV, locals: Seq<i64>)
    requires
        import_ready(v),
        locals.len() >= import_refs(v).len(),
    ensures
        export_refs(import_walk(v, locals).0) == present(locals.take(import_refs(v).len() as int)),
{
    lemma_round(v, locals);
}

} // verus!
