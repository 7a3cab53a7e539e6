//! JSON values and their canonical form: every object's keys in ascending
//! order (as Rust orders strings: by code point), each key once with the
//! value it was given last, recursively. Canonical forms make serialised
//! states byte-for-byte reproducible, which provenance hashes rely on.
use vstd::prelude::*;

use crate::text::to_chars;

verus! {

/// A JSON value. Numbers keep the text they are written with.
#[derive(Debug)]
pub enum JsonValue {
    /// `null`.
    Null,
    /// `true` or `false`.
    Bool(bool),
    /// A number, as written.
    Number(String),
    /// A string.
    Text(String),
    /// An array.
    Array(Vec<JsonValue>),
    /// An object: its entries in the order given (keys may repeat).
    Object(Vec<(String, JsonValue)>),
}

// ---------------------------------------------------------------------------
// Key order
// ---------------------------------------------------------------------------

/// `a` sorts strictly before `b`: lexicographic order by code point (the
/// order of `String`'s `Ord`, since UTF-8 preserves code-point order).
pub open spec fn key_lt(a: Seq<char>, b: Seq<char>) -> bool
    decreases a.len(),
{
    if b.len() == 0 {
        false
    } else if a.len() == 0 {
        true
    } else if a[0] != b[0] {
        (a[0] as int) < (b[0] as int)
    } else {
        key_lt(a.drop_first(), b.drop_first())
    }
}

/// Exactly one of `a < b`, `a == b`, `b < a` holds.
pub proof fn lemma_key_trichotomy(a: Seq<char>, b: Seq<char>)
    ensures
        key_lt(a, b) || a == b || key_lt(b, a),
        !(key_lt(a, b) && key_lt(b, a)),
        !(key_lt(a, b) && a == b),
    decreases a.len(),
{
    if a.len() > 0 && b.len() > 0 && a[0] == b[0] {
        lemma_key_trichotomy(a.drop_first(), b.drop_first());
        if a.drop_first() == b.drop_first() {
            assert(a =~= seq![a[0]] + a.drop_first());
            assert(b =~= seq![b[0]] + b.drop_first());
        }
    } else if a.len() == 0 && b.len() == 0 {
        assert(a =~= b);
    } else if a.len() > 0 && b.len() > 0 {
        assert((a[0] as int) != (b[0] as int));
    }
}

/// The key order is transitive.
pub proof fn lemma_key_transitive(a: Seq<char>, b: Seq<char>, c: Seq<char>)
    requires
        key_lt(a, b),
        key_lt(b, c),
    ensures
        key_lt(a, c),
    decreases a.len(),
{
    if a.len() > 0 && b.len() > 0 && c.len() > 0 && a[0] == b[0] && b[0] == c[0] {
        lemma_key_transitive(a.drop_first(), b.drop_first(), c.drop_first());
    }
}

/// Whether `a` sorts strictly before `b`.
pub fn key_less(a: &str, b: &str) -> (r: bool)
    ensures
        r == key_lt(a@, b@),
{
    let ca = to_chars(a);
    let cb = to_chars(b);
    let mut i: usize = 0;
    assert(a@.skip(0) =~= a@ && b@.skip(0) =~= b@);
    while i < ca.len() && i < cb.len() && ca[i] == cb[i]
        invariant
            ca@ == a@,
            cb@ == b@,
            i <= ca@.len(),
            i <= cb@.len(),
            forall|t: int| 0 <= t < i ==> ca@[t] == cb@[t],
            key_lt(a@, b@) == key_lt(a@.skip(i as int), b@.skip(i as int)),
        decreases ca@.len() - i,
    {
        assert(a@.skip(i as int).drop_first() =~= a@.skip(i + 1));
        assert(b@.skip(i as int).drop_first() =~= b@.skip(i + 1));
        i = i + 1;
    }
    if i == cb.len() {
        assert(b@.skip(i as int).len() == 0);
        false
    } else if i == ca.len() {
        assert(a@.skip(i as int).len() == 0);
        assert(b@.skip(i as int).len() > 0);
        true
    } else {
        assert(a@.skip(i as int)[0] == ca@[i as int]);
        assert(b@.skip(i as int)[0] == cb@[i as int]);
        ca[i] < cb[i]
    }
}

// ---------------------------------------------------------------------------
// Canonical form
// ---------------------------------------------------------------------------

/// Some entry of `es` has key `k`.
pub open spec fn has_key(es: Seq<(String, JsonValue)>, k: Seq<char>) -> bool {
    exists|i: int| 0 <= i < es.len() && #[trigger] es[i].0@ == k
}

/// The keys of `os` are in strictly ascending order (so none repeats).
pub open spec fn keys_sorted(os: Seq<(String, JsonValue)>) -> bool {
    forall|i: int, j: int| 0 <= i < j < os.len() ==> key_lt(#[trigger] os[i].0@, #[trigger] os[j].0@)
}

/// Entry `i` is the last one of `es` with its key.
pub open spec fn is_last(es: Seq<(String, JsonValue)>, i: int) -> bool {
    forall|t: int| i < t < es.len() ==> #[trigger] es[t].0@ != es[i].0@
}

/// `out` is the canonical form of `v`: scalars unchanged; arrays element by
/// element; objects with their keys sorted, each key once, mapped to the
/// canonical form of the value its last entry gives.
pub open spec fn canonical(v: JsonValue, out: JsonValue) -> bool
    decreases v,
{
    match v {
        JsonValue::Null => out is Null,
        JsonValue::Bool(b) => out == JsonValue::Bool(b),
        JsonValue::Number(s) => out matches JsonValue::Number(t) && t@ == s@,
        JsonValue::Text(s) => out matches JsonValue::Text(t) && t@ == s@,
        JsonValue::Array(xs) => match out {
            JsonValue::Array(ys) => ys@.len() == xs@.len()
                && forall|i: int| 0 <= i < xs@.len() ==> canonical(xs@[i], #[trigger] ys@[i]),
            _ => false,
        },
        JsonValue::Object(es) => match out {
            JsonValue::Object(os) => {
                &&& keys_sorted(os@)
                &&& forall|k: Seq<char>| has_key(es@, k) <==> has_key(os@, k)
                &&& forall|i: int| 0 <= i < es@.len() && is_last(es@, i) ==> exists|j: int|
                    0 <= j < os@.len() && #[trigger] os@[j].0@ == es@[i].0@ && canonical(es@[i].1, os@[j].1)
            },
            _ => false,
        },
    }
}

/// `entry` has the key of the last entry with that key among `es`, and
/// holds its value in canonical form.
pub open spec fn justified_by(es: Seq<(String, JsonValue)>, entry: (String, JsonValue)) -> bool {
    exists|t: int| 0 <= t < es.len() && #[trigger] es[t].0@ == entry.0@ && is_last(es, t) && canonical(es[t].1, entry.1)
}

/// Each entry of `os` is justified by `es` (see [`justified_by`]).
pub open spec fn entries_justified(es: Seq<(String, JsonValue)>, os: Seq<(String, JsonValue)>) -> bool {
    forall|j: int| 0 <= j < os.len() ==> #[trigger] justified_by(es, os[j])
}

/// `after` is `before` with the entry of key `k` set to value `c`: sorted,
/// holding `k`, and otherwise the same entries.
pub open spec fn entry_updated(before: Seq<(String, JsonValue)>, after: Seq<(String, JsonValue)>, k: Seq<char>, c: JsonValue) -> bool {
    &&& keys_sorted(after)
    &&& exists|j: int| 0 <= j < after.len() && #[trigger] after[j].0@ == k
    &&& forall|j: int| 0 <= j < after.len() && after[j].0@ == k ==> #[trigger] after[j].1 == c
    &&& forall|j: int| 0 <= j < after.len() && after[j].0@ != k ==> exists|t: int|
            0 <= t < before.len() && #[trigger] before[t] == #[trigger] after[j]
    &&& forall|t: int| 0 <= t < before.len() && before[t].0@ != k ==> exists|j: int|
            0 <= j < after.len() && #[trigger] after[j] == #[trigger] before[t]
}

proof fn lemma_replace_entry(before: Seq<(String, JsonValue)>, p: int, e: (String, JsonValue))
    requires
        keys_sorted(before),
        0 <= p < before.len(),
        before[p].0@ == e.0@,
    ensures
        entry_updated(before, before.update(p, e), e.0@, e.1),
{
    let after = before.update(p, e);
    let k = e.0@;
    assert forall|i: int, j: int| 0 <= i < j < after.len() implies key_lt(#[trigger] after[i].0@, #[trigger] after[j].0@) by {
        assert(after[i].0@ == before[i].0@ && after[j].0@ == before[j].0@);
    }
    assert(after[p].0@ == k);
    assert forall|j: int| 0 <= j < after.len() && after[j].0@ != k implies exists|t: int|
        0 <= t < before.len() && #[trigger] before[t] == #[trigger] after[j] by {
        assert(before[j] == after[j]);
    }
    assert forall|t: int| 0 <= t < before.len() && before[t].0@ != k implies exists|j: int|
        0 <= j < after.len() && #[trigger] after[j] == #[trigger] before[t] by {
        assert(after[t] == before[t]);
    }
    assert forall|j: int| 0 <= j < after.len() && after[j].0@ == k implies #[trigger] after[j].1 == e.1 by {
        if j != p {
            lemma_key_trichotomy(k, k);
            if j < p {
                assert(key_lt(before[j].0@, before[p].0@));
            } else {
                assert(key_lt(before[p].0@, before[j].0@));
            }
        }
    }
}

#[verifier::spinoff_prover]
#[verifier::rlimit(40)]
proof fn lemma_insert_entry(before: Seq<(String, JsonValue)>, p: int, e: (String, JsonValue))
    requires
        keys_sorted(before),
        0 <= p <= before.len(),
        forall|t: int| 0 <= t < p ==> key_lt(#[trigger] before[t].0@, e.0@),
        p < before.len() ==> key_lt(e.0@, before[p].0@),
    ensures
        entry_updated(before, before.insert(p, e), e.0@, e.1),
{
    let after = before.insert(p, e);
    let k = e.0@;
    assert forall|i: int, j: int| 0 <= i < j < after.len() implies key_lt(#[trigger] after[i].0@, #[trigger] after[j].0@) by {
        if j < p {
            assert(after[i] == before[i] && after[j] == before[j]);
        } else if j == p {
            assert(after[i] == before[i]);
        } else if i < p {
            assert(after[i] == before[i] && after[j] == before[j - 1]);
            lemma_key_transitive(before[i].0@, k, before[p].0@);
            if j - 1 > p {
                lemma_key_transitive(before[i].0@, before[p].0@, before[j - 1].0@);
            }
        } else if i == p {
            assert(after[j] == before[j - 1]);
            if j - 1 > p {
                lemma_key_transitive(k, before[p].0@, before[j - 1].0@);
            }
        } else {
            assert(after[i] == before[i - 1] && after[j] == before[j - 1]);
        }
    }
    assert(after[p].0@ == k);
    assert forall|j: int| 0 <= j < after.len() && after[j].0@ != k implies exists|t: int|
        0 <= t < before.len() && #[trigger] before[t] == #[trigger] after[j] by {
        if j < p {
            assert(before[j] == after[j]);
        } else {
            assert(before[j - 1] == after[j]);
        }
    }
    assert forall|t: int| 0 <= t < before.len() && before[t].0@ != k implies exists|j: int|
        0 <= j < after.len() && #[trigger] after[j] == #[trigger] before[t] by {
        if t < p {
            assert(after[t] == before[t]);
        } else {
            assert(after[t + 1] == before[t]);
        }
    }
    assert forall|j: int| 0 <= j < after.len() && after[j].0@ == k implies #[trigger] after[j].1 == e.1 by {
        lemma_key_trichotomy(k, k);
        if j < p {
            assert(key_lt(before[j].0@, k));
        } else if j > p {
            assert(after[j] == before[j - 1]);
            if j - 1 > p {
                lemma_key_transitive(k, before[p].0@, before[j - 1].0@);
            }
        }
    }
}

/// Insert `(k, c)` into the key-sorted entries `os`, replacing the entry
/// with key `k` if there is one. Returns where the entry went and whether it
/// replaced one.
fn insert_entry(os: &mut Vec<(String, JsonValue)>, k: &String, c: JsonValue) -> (r: (usize, bool))
    requires
        keys_sorted(old(os)@),
    ensures
        keys_sorted(final(os)@),
        r.0 <= old(os)@.len(),
        forall|t: int| 0 <= t < r.0 ==> key_lt(#[trigger] old(os)@[t].0@, k@),
        r.1 ==> r.0 < old(os)@.len() && old(os)@[r.0 as int].0@ == k@
            && final(os)@ == old(os)@.update(r.0 as int, final(os)@[r.0 as int]),
        !r.1 ==> (r.0 < old(os)@.len() ==> key_lt(k@, old(os)@[r.0 as int].0@))
            && final(os)@ == old(os)@.insert(r.0 as int, final(os)@[r.0 as int]),
        final(os)@[r.0 as int].0@ == k@,
        final(os)@[r.0 as int].1 == c,
{
    let ghost before = os@;
    let mut p: usize = 0;
    while p < os.len() && key_less(os[p].0.as_str(), k.as_str())
        invariant
            p <= os@.len(),
            os@ == before,
            forall|t: int| 0 <= t < p ==> key_lt(#[trigger] os@[t].0@, k@),
        decreases os@.len() - p,
    {
        p = p + 1;
    }
    let entry = (k.clone(), c);
    let ghost e = entry;
    if p < os.len() && crate::text::str_eq(os[p].0.as_str(), k.as_str()) {
        os.set(p, entry);
        proof { lemma_replace_entry(before, p as int, e); }
        (p, true)
    } else {
        proof {
            if p < before.len() {
                lemma_key_trichotomy(before[p as int].0@, k@);
            }
        }
        os.insert(p, entry);
        proof { lemma_insert_entry(before, p as int, e); }
        (p, false)
    }
}

proof fn lemma_step_keys(
    prefix: Seq<(String, JsonValue)>,
    e: (String, JsonValue),
    old_os: Seq<(String, JsonValue)>,
    new_os: Seq<(String, JsonValue)>,
    p: int,
    replaced: bool,
)
    requires
        forall|x: Seq<char>| has_key(prefix, x) <==> has_key(old_os, x),
        0 <= p <= old_os.len(),
        replaced ==> p < old_os.len() && old_os[p].0@ == e.0@ && new_os == old_os.update(p, new_os[p]),
        !replaced ==> new_os == old_os.insert(p, new_os[p]),
        new_os[p].0@ == e.0@,
    ensures
        forall|x: Seq<char>| has_key(prefix.push(e), x) <==> has_key(new_os, x),
{
    let p2 = prefix.push(e);
    let k = e.0@;
    assert forall|x: Seq<char>| has_key(p2, x) <==> has_key(new_os, x) by {
        if x == k {
            assert(p2[prefix.len() as int].0@ == k);
            assert(new_os[p].0@ == k);
        } else {
            if has_key(p2, x) {
                let i = choose|i: int| 0 <= i < p2.len() && #[trigger] p2[i].0@ == x;
                assert(prefix[i] == p2[i]);
                assert(has_key(old_os, x));
                let t = choose|t: int| 0 <= t < old_os.len() && #[trigger] old_os[t].0@ == x;
                if replaced {
                    assert(new_os[t] == old_os[t]);
                } else if t < p {
                    assert(new_os[t] == old_os[t]);
                } else {
                    assert(new_os[t + 1] == old_os[t]);
                }
            }
            if has_key(new_os, x) {
                let j = choose|j: int| 0 <= j < new_os.len() && #[trigger] new_os[j].0@ == x;
                if replaced {
                    assert(old_os[j] == new_os[j]);
                } else if j < p {
                    assert(old_os[j] == new_os[j]);
                } else {
                    assert(old_os[j - 1] == new_os[j]);
                }
                assert(has_key(old_os, x));
                assert(has_key(prefix, x));
                let i = choose|i: int| 0 <= i < prefix.len() && #[trigger] prefix[i].0@ == x;
                assert(p2[i] == prefix[i]);
            }
        }
    }
}

/// The last entry of `es.push(e)` with a key other than `e`'s is its last
/// entry in `es`.
proof fn lemma_last_kept(es: Seq<(String, JsonValue)>, e: (String, JsonValue), t: int)
    requires
        0 <= t < es.len(),
        is_last(es, t),
        es[t].0@ != e.0@,
    ensures
        is_last(es.push(e), t),
        es.push(e)[t] == es[t],
{
    let p2 = es.push(e);
    assert forall|u: int| t < u < p2.len() implies #[trigger] p2[u].0@ != p2[t].0@ by {
        if u < es.len() {
            assert(p2[u] == es[u]);
        } else {
            assert(p2[u] == e);
        }
    }
}

/// A key that sorts after everything before position `p` and before the
/// entry at `p` occurs nowhere in the sorted entries.
proof fn lemma_absent_key(os: Seq<(String, JsonValue)>, p: int, k: Seq<char>)
    requires
        keys_sorted(os),
        0 <= p <= os.len(),
        forall|t: int| 0 <= t < p ==> key_lt(#[trigger] os[t].0@, k),
        p < os.len() ==> key_lt(k, os[p].0@),
    ensures
        forall|t: int| 0 <= t < os.len() ==> #[trigger] os[t].0@ != k,
{
    assert forall|t: int| 0 <= t < os.len() implies #[trigger] os[t].0@ != k by {
        lemma_key_trichotomy(os[t].0@, k);
        if t > p {
            lemma_key_transitive(k, os[p].0@, os[t].0@);
        }
    }
}

proof fn lemma_step_justified(
    prefix: Seq<(String, JsonValue)>,
    e: (String, JsonValue),
    old_os: Seq<(String, JsonValue)>,
    new_os: Seq<(String, JsonValue)>,
    p: int,
    replaced: bool,
)
    requires
        entries_justified(prefix, old_os),
        keys_sorted(old_os),
        0 <= p <= old_os.len(),
        replaced ==> p < old_os.len() && old_os[p].0@ == e.0@ && new_os == old_os.update(p, new_os[p]),
        !replaced ==> new_os == old_os.insert(p, new_os[p]),
        !replaced ==> forall|t: int| 0 <= t < old_os.len() ==> #[trigger] old_os[t].0@ != e.0@,
        new_os[p].0@ == e.0@,
        canonical(e.1, new_os[p].1),
    ensures
        entries_justified(prefix.push(e), new_os),
{
    let p2 = prefix.push(e);
    let k = e.0@;
    assert forall|j: int| 0 <= j < new_os.len() implies #[trigger] justified_by(p2, new_os[j]) by {
        if j == p {
            let t = prefix.len() as int;
            assert(p2[t] == e);
            assert(is_last(p2, t));
            assert(p2[t].0@ == new_os[j].0@ && canonical(p2[t].1, new_os[j].1));
        } else {
            let j0 = if replaced || j < p { j } else { j - 1 };
            assert(new_os[j] == old_os[j0]);
            if replaced {
                // Only one entry carries key k in a sorted list.
                lemma_key_trichotomy(k, k);
                if j0 < p {
                    assert(key_lt(old_os[j0].0@, old_os[p].0@));
                } else {
                    assert(key_lt(old_os[p].0@, old_os[j0].0@));
                }
            }
            assert(old_os[j0].0@ != k);
            assert(justified_by(prefix, old_os[j0]));
            let t = choose|t: int| 0 <= t < prefix.len() && #[trigger] prefix[t].0@ == old_os[j0].0@
                && is_last(prefix, t) && canonical(prefix[t].1, #[trigger] old_os[j0].1);
            lemma_last_kept(prefix, e, t);
            assert(p2[t].0@ == new_os[j].0@ && is_last(p2, t) && canonical(p2[t].1, new_os[j].1));
        }
    }
    assert(entries_justified(p2, new_os));
}

proof fn lemma_justified_to_canonical(es: Seq<(String, JsonValue)>, os: Seq<(String, JsonValue)>)
    requires
        forall|x: Seq<char>| has_key(es, x) <==> has_key(os, x),
        entries_justified(es, os),
    ensures
        forall|i: int| 0 <= i < es.len() && is_last(es, i) ==> exists|j: int|
            0 <= j < os.len() && #[trigger] os[j].0@ == es[i].0@ && canonical(es[i].1, os[j].1),
{
    assert forall|i: int| 0 <= i < es.len() && is_last(es, i) implies exists|j: int|
        0 <= j < os.len() && #[trigger] os[j].0@ == es[i].0@ && canonical(es[i].1, os[j].1) by {
        let x = es[i].0@;
        assert(has_key(es, x));
        let j = choose|j: int| 0 <= j < os.len() && #[trigger] os[j].0@ == x;
        assert(justified_by(es, os[j]));
        let t = choose|t: int| 0 <= t < es.len() && #[trigger] es[t].0@ == os[j].0@
            && is_last(es, t) && canonical(es[t].1, #[trigger] os[j].1);
        if t < i {
            assert(es[i].0@ != es[t].0@);
        } else if t > i {
            assert(es[t].0@ != es[i].0@);
        }
    }
}

proof fn lemma_object_canonical(es: Vec<(String, JsonValue)>, os: Vec<(String, JsonValue)>)
    requires
        keys_sorted(os@),
        forall|x: Seq<char>| has_key(es@, x) <==> has_key(os@, x),
        entries_justified(es@, os@),
    ensures
        canonical(JsonValue::Object(es), JsonValue::Object(os)),
{
    lemma_justified_to_canonical(es@, os@);
}

/// The canonical form of a JSON value (see [`canonical`]): arrays keep
/// their order, objects are sorted by key and keep each key's last value.
#[verifier::spinoff_prover]
pub fn canonicalize_value(v: &JsonValue) -> (out: JsonValue)
    ensures
        canonical(*v, out),
    decreases v,
{
    match v {
        JsonValue::Null => JsonValue::Null,
        JsonValue::Bool(b) => JsonValue::Bool(*b),
        JsonValue::Number(s) => JsonValue::Number(s.clone()),
        JsonValue::Text(s) => JsonValue::Text(s.clone()),
        JsonValue::Array(xs) => {
            let mut ys: Vec<JsonValue> = Vec::new();
            let mut i: usize = 0;
            while i < xs.len()
                invariant
                    *v == JsonValue::Array(*xs),
                    decreases_to!(*v => *xs),
                    i <= xs@.len(),
                    ys@.len() == i,
                    forall|t: int| 0 <= t < i ==> canonical(xs@[t], #[trigger] ys@[t]),
                decreases xs@.len() - i,
            {
                assert(decreases_to!(*v => *xs));
                assert(decreases_to!(*xs => xs@));
                assert(decreases_to!(xs@ => xs@[i as int]));
                assert(decreases_to!(*v => xs@[i as int]));
                let y = canonicalize_value(&xs[i]);
                ys.push(y);
                i = i + 1;
            }
            let out = JsonValue::Array(ys);
            assert(canonical(*v, out));
            out
        }
        JsonValue::Object(es) => {
            let mut os: Vec<(String, JsonValue)> = Vec::new();
            let mut i: usize = 0;
            while i < es.len()
                invariant
                    *v == JsonValue::Object(*es),
                    decreases_to!(*v => *es),
                    i <= es@.len(),
                    keys_sorted(os@),
                    forall|x: Seq<char>| has_key(es@.take(i as int), x) <==> has_key(os@, x),
                    entries_justified(es@.take(i as int), os@),
                decreases es@.len() - i,
            {
                assert(decreases_to!(*v => *es));
                assert(decreases_to!(*es => es@));
                assert(decreases_to!(es@ => es@[i as int]));
                assert(decreases_to!(es@[i as int] => es@[i as int].1));
                assert(decreases_to!(*v => es@[i as int].1));
                let c = canonicalize_value(&es[i].1);
                let ghost old_os = os@;
                let (p, replaced) = insert_entry(&mut os, &es[i].0, c);
                proof {
                    assert(es@.take(i + 1) =~= es@.take(i as int).push(es@[i as int]));
                    if !replaced {
                        lemma_absent_key(old_os, p as int, es@[i as int].0@);
                    }
                    lemma_step_keys(es@.take(i as int), es@[i as int], old_os, os@, p as int, replaced);
                    lemma_step_justified(es@.take(i as int), es@[i as int], old_os, os@, p as int, replaced);
                }
                i = i + 1;
            }
            proof {
                assert(es@.take(es@.len() as int) =~= es@);
                lemma_object_canonical(*es, os);
            }
            let out = JsonValue::Object(os);
            assert(canonical(*v, out));
            out
        }
    }
}


// ---------------------------------------------------------------------------
// Uniqueness of the canonical form
// ---------------------------------------------------------------------------

/// `a` and `b` are the same JSON text: same shape, same scalars, the same
/// keys in the same order, recursively.
pub open spec fn same_json(a: JsonValue, b: JsonValue) -> bool
    decreases a,
{
    match a {
        JsonValue::Null => b is Null,
        JsonValue::Bool(x) => b == JsonValue::Bool(x),
        JsonValue::Number(s) => b matches JsonValue::Number(t) && t@ == s@,
        JsonValue::Text(s) => b matches JsonValue::Text(t) && t@ == s@,
        JsonValue::Array(xs) => match b {
            JsonValue::Array(ys) => ys@.len() == xs@.len()
                && forall|i: int| 0 <= i < xs@.len() ==> same_json(xs@[i], #[trigger] ys@[i]),
            _ => false,
        },
        JsonValue::Object(es) => match b {
            JsonValue::Object(fs) => fs@.len() == es@.len()
                && forall|i: int| 0 <= i < es@.len() ==> (#[trigger] fs@[i]).0@ == es@[i].0@ && same_json(es@[i].1, fs@[i].1),
            _ => false,
        },
    }
}

/// Some entry with key `es[i]`'s key is the last one with that key.
proof fn lemma_last_exists(es: Seq<(String, JsonValue)>, i: int)
    requires
        0 <= i < es.len(),
    ensures
        exists|t: int| 0 <= t < es.len() && #[trigger] es[t].0@ == es[i].0@ && is_last(es, t),
    decreases es.len() - i,
{
    if !is_last(es, i) {
        let u = choose|u: int| i < u < es.len() && #[trigger] es[u].0@ == es[i].0@;
        lemma_last_exists(es, u);
        let t = choose|t: int| 0 <= t < es.len() && #[trigger] es[t].0@ == es[u].0@ && is_last(es, t);
        assert(es[t].0@ == es[i].0@);
    } else {
        assert(es[i].0@ == es[i].0@);
    }
}

/// Two key-sorted entry lists with the same keys have the same key at every
/// position.
proof fn lemma_sorted_same_keys(s: Seq<(String, JsonValue)>, t: Seq<(String, JsonValue)>)
    requires
        keys_sorted(s),
        keys_sorted(t),
        forall|x: Seq<char>| has_key(s, x) <==> has_key(t, x),
    ensures
        s.len() == t.len(),
        forall|j: int| 0 <= j < s.len() ==> #[trigger] s[j].0@ == t[j].0@,
    decreases s.len(),
{
    if s.len() == 0 {
        if t.len() > 0 {
            assert(has_key(t, t[0].0@));
        }
    } else if t.len() == 0 {
        assert(has_key(s, s[0].0@));
    } else {
        let a = s[0].0@;
        let b = t[0].0@;
        assert(has_key(s, a));
        assert(has_key(t, b));
        let jb = choose|j: int| 0 <= j < s.len() && #[trigger] s[j].0@ == b;
        let ja = choose|j: int| 0 <= j < t.len() && #[trigger] t[j].0@ == a;
        lemma_key_trichotomy(a, b);
        if jb > 0 {
            assert(key_lt(s[0].0@, s[jb].0@));
        }
        if ja > 0 {
            assert(key_lt(t[0].0@, t[ja].0@));
        }
        assert(a == b);
        let s1 = s.drop_first();
        let t1 = t.drop_first();
        assert forall|x: Seq<char>| has_key(s1, x) <==> has_key(t1, x) by {
            if has_key(s1, x) {
                let i = choose|i: int| 0 <= i < s1.len() && #[trigger] s1[i].0@ == x;
                assert(s[i + 1].0@ == x);
                assert(key_lt(s[0].0@, s[i + 1].0@));
                lemma_key_trichotomy(a, x);
                assert(has_key(s, x));
                let j = choose|j: int| 0 <= j < t.len() && #[trigger] t[j].0@ == x;
                assert(j != 0);
                assert(t1[j - 1].0@ == x);
            }
            if has_key(t1, x) {
                let i = choose|i: int| 0 <= i < t1.len() && #[trigger] t1[i].0@ == x;
                assert(t[i + 1].0@ == x);
                assert(key_lt(t[0].0@, t[i + 1].0@));
                lemma_key_trichotomy(b, x);
                assert(has_key(t, x));
                let j = choose|j: int| 0 <= j < s.len() && #[trigger] s[j].0@ == x;
                assert(j != 0);
                assert(s1[j - 1].0@ == x);
            }
        }
        assert forall|i: int, j: int| 0 <= i < j < s1.len() implies key_lt(#[trigger] s1[i].0@, #[trigger] s1[j].0@) by {
            assert(s1[i] == s[i + 1] && s1[j] == s[j + 1]);
        }
        assert forall|i: int, j: int| 0 <= i < j < t1.len() implies key_lt(#[trigger] t1[i].0@, #[trigger] t1[j].0@) by {
            assert(t1[i] == t[i + 1] && t1[j] == t[j + 1]);
        }
        lemma_sorted_same_keys(s1, t1);
        assert forall|j: int| 0 <= j < s.len() implies #[trigger] s[j].0@ == t[j].0@ by {
            if j > 0 {
                assert(s[j] == s1[j - 1] && t[j] == t1[j - 1]);
            }
        }
    }
}

/// The canonical form is unique: any two canonical forms of one value are
/// the same JSON text, so hashing the canonical text of a state is
/// reproducible.
pub proof fn lemma_canonical_unique(v: JsonValue, a: JsonValue, b: JsonValue)
    requires
        canonical(v, a),
        canonical(v, b),
    ensures
        same_json(a, b),
    decreases v,
{
    match v {
        JsonValue::Array(xs) => {
            let ys = a->Array_0;
            let zs = b->Array_0;
            assert forall|i: int| 0 <= i < ys@.len() implies same_json(ys@[i], #[trigger] zs@[i]) by {
                assert(canonical(xs@[i], ys@[i]));
                assert(canonical(xs@[i], zs@[i]));
                assert(decreases_to!(v => xs));
                lemma_canonical_unique(xs@[i], ys@[i], zs@[i]);
            }
        },
        JsonValue::Object(es) => {
            let os = a->Object_0;
            let ps = b->Object_0;
            assert forall|x: Seq<char>| has_key(os@, x) <==> has_key(ps@, x) by {
                assert(has_key(es@, x) <==> has_key(os@, x));
                assert(has_key(es@, x) <==> has_key(ps@, x));
            }
            lemma_sorted_same_keys(os@, ps@);
            assert forall|j: int| 0 <= j < os@.len() implies (#[trigger] ps@[j]).0@ == os@[j].0@
                && same_json(os@[j].1, ps@[j].1) by {
                let k = os@[j].0@;
                assert(ps@[j].0@ == k);
                assert(has_key(os@, k));
                assert(has_key(es@, k));
                let i0 = choose|i: int| 0 <= i < es@.len() && #[trigger] es@[i].0@ == k;
                lemma_last_exists(es@, i0);
                let t = choose|t: int| 0 <= t < es@.len() && #[trigger] es@[t].0@ == es@[i0].0@ && is_last(es@, t);
                let ja = choose|jj: int| 0 <= jj < os@.len() && #[trigger] os@[jj].0@ == es@[t].0@ && canonical(es@[t].1, os@[jj].1);
                let jb = choose|jj: int| 0 <= jj < ps@.len() && #[trigger] ps@[jj].0@ == es@[t].0@ && canonical(es@[t].1, ps@[jj].1);
                lemma_key_trichotomy(k, k);
                if ja < j {
                    assert(key_lt(os@[ja].0@, os@[j].0@));
                } else if ja > j {
                    assert(key_lt(os@[j].0@, os@[ja].0@));
                }
                if jb < j {
                    assert(key_lt(ps@[jb].0@, ps@[j].0@));
                } else if jb > j {
                    assert(key_lt(ps@[j].0@, ps@[jb].0@));
                }
                assert(decreases_to!(v => es));
                lemma_canonical_unique(es@[t].1, os@[j].1, ps@[j].1);
            }
        },
        _ => {},
    }
}

} // verus!
