//! Canonical JSON text of an arbitrary JSON value: compact, with the members of every
//! object ordered by key, as a `BTreeMap` keyed by `String` orders them. The audit log signs
//! payloads in this form, so that two nodes that hold the same value produce the same bytes.
use vstd::prelude::*;
use crate::json::{json_string, push_json_string, push_str};
use crate::text::string_push;

verus! {

broadcast use vstd::std_specs::vec::group_vec_axioms, vstd::seq::group_seq_axioms;

/// A JSON value. A number is held as the text that `serde_json` writes for it, so the
/// library carries it through without reading it.
#[derive(Debug)]
pub enum JsonValue {
    Null,
    Bool(bool),
    Number(String),
    Str(String),
    Array(Vec<JsonValue>),
    Object(Vec<(String, JsonValue)>),
}

/// Strict lexicographic order of byte strings: the order of `str` and `String` in std,
/// which compares their UTF-8 bytes.
pub open spec fn bytes_less(a: Seq<u8>, b: Seq<u8>) -> bool
    decreases a.len(),
{
    if b.len() == 0 {
        false
    } else if a.len() == 0 {
        true
    } else if a[0] != b[0] {
        a[0] < b[0]
    } else {
        bytes_less(a.drop_first(), b.drop_first())
    }
}

/// The order of object keys.
pub open spec fn key_less(a: Seq<char>, b: Seq<char>) -> bool {
    bytes_less(vstd::utf8::encode_utf8(a), vstd::utf8::encode_utf8(b))
}

/// The members (key and canonical text of the value) after one more member is put in, as
/// `BTreeMap::insert` does: a member with an equal key takes the new text in its place;
/// otherwise the new member goes before the first member whose key is greater.
pub open spec fn insert_member(s: Seq<(Seq<char>, Seq<char>)>, m: (Seq<char>, Seq<char>)) -> Seq<
    (Seq<char>, Seq<char>),
>
    decreases s.len(),
{
    if s.len() == 0 {
        seq![m]
    } else if s[0].0 == m.0 {
        seq![m] + s.drop_first()
    } else if key_less(m.0, s[0].0) {
        seq![m] + s
    } else {
        seq![s[0]] + insert_member(s.drop_first(), m)
    }
}

/// The members of an object in canonical order: each entry put in, first to last.
pub open spec fn canonical_members(entries: Seq<(String, JsonValue)>) -> Seq<(Seq<char>, Seq<char>)>
    decreases entries,
{
    if entries.len() == 0 {
        seq![]
    } else {
        insert_member(
            canonical_members(entries.drop_last()),
            (entries.last().0@, canonical_text(entries.last().1)),
        )
    }
}

/// `"key":text` for each member, separated by commas.
pub open spec fn members_text(ms: Seq<(Seq<char>, Seq<char>)>) -> Seq<char>
    decreases ms.len(),
{
    if ms.len() == 0 {
        seq![]
    } else if ms.len() == 1 {
        json_string(ms[0].0) + seq![':'] + ms[0].1
    } else {
        members_text(ms.drop_last()) + seq![','] + json_string(ms.last().0) + seq![':']
            + ms.last().1
    }
}

/// The canonical texts of array items, separated by commas.
pub open spec fn items_text(items: Seq<JsonValue>) -> Seq<char>
    decreases items,
{
    if items.len() == 0 {
        seq![]
    } else if items.len() == 1 {
        canonical_text(items[0])
    } else {
        items_text(items.drop_last()) + seq![','] + canonical_text(items.last())
    }
}

/// The canonical JSON text of a value.
pub open spec fn canonical_text(v: JsonValue) -> Seq<char>
    decreases v,
{
    match v {
        JsonValue::Null => "null"@,
        JsonValue::Bool(b) => if b {
            "true"@
        } else {
            "false"@
        },
        JsonValue::Number(n) => n@,
        JsonValue::Str(s) => json_string(s@),
        JsonValue::Array(items) => seq!['['] + items_text(items@) + seq![']'],
        JsonValue::Object(entries) => seq!['{'] + members_text(canonical_members(entries@)) + seq![
            '}',
        ],
    }
}

/// The key and text of each member.
pub open spec fn members_view(v: Seq<(String, String)>) -> Seq<(Seq<char>, Seq<char>)> {
    v.map_values(|m: (String, String)| (m.0@, m.1@))
}

/// Compares two byte strings in the order of `bytes_less`.
fn bytes_less_exec(a: &[u8], b: &[u8]) -> (r: bool)
    ensures
        r == bytes_less(a@, b@),
{
    let mut i: usize = 0;
    assert(a@.skip(0) =~= a@);
    assert(b@.skip(0) =~= b@);
    while i < a.len() && i < b.len()
        invariant
            i <= a@.len(),
            i <= b@.len(),
            bytes_less(a@, b@) == bytes_less(a@.skip(i as int), b@.skip(i as int)),
        decreases a@.len() - i,
    {
        if a[i] != b[i] {
            return a[i] < b[i];
        }
        assert(a@.skip(i as int).drop_first() =~= a@.skip(i + 1));
        assert(b@.skip(i as int).drop_first() =~= b@.skip(i + 1));
        i = i + 1;
    }
    i < b.len()
}

/// Whether key `a` orders before key `b`.
fn key_less_exec(a: &String, b: &String) -> (r: bool)
    ensures
        r == key_less(a@, b@),
{
    bytes_less_exec(a.as_str().as_bytes(), b.as_str().as_bytes())
}

proof fn lemma_insert_member_skip(s: Seq<(Seq<char>, Seq<char>)>, m: (Seq<char>, Seq<char>), j: int)
    requires
        0 <= j <= s.len(),
        forall|k: int| 0 <= k < j ==> s[k].0 != m.0 && !key_less(m.0, #[trigger] s[k].0),
    ensures
        insert_member(s, m) == s.take(j) + insert_member(s.skip(j), m),
    decreases j,
{
    if j == 0 {
        assert(s.skip(0) =~= s);
        assert(s.take(0) + insert_member(s, m) =~= insert_member(s, m));
    } else {
        assert forall|k: int| 0 <= k < j - 1 implies s.drop_first()[k].0 != m.0 && !key_less(
            m.0,
            #[trigger] s.drop_first()[k].0,
        ) by {
            assert(s.drop_first()[k] == s[k + 1]);
        }
        lemma_insert_member_skip(s.drop_first(), m, j - 1);
        assert(s.drop_first().skip(j - 1) =~= s.skip(j));
        assert(seq![s[0]] + s.drop_first().take(j - 1) =~= s.take(j));
    }
}

/// Puts one member into a list of members, as `insert_member` describes.
fn insert_member_exec(members: &mut Vec<(String, String)>, key: String, text: String)
    ensures
        members_view(final(members)@) == insert_member(members_view(old(members)@), (key@, text@)),
{
    let ghost m = (key@, text@);
    let ghost s = members_view(members@);
    let mut j: usize = 0;
    while j < members.len()
        invariant
            j <= members@.len(),
            members@ == old(members)@,
            s == members_view(members@),
            m == (key@, text@),
            forall|k: int| 0 <= k < j ==> s[k].0 != m.0 && !key_less(m.0, #[trigger] s[k].0),
        decreases members@.len() - j,
    {
        if crate::text::str_equal(members[j].0.as_str(), key.as_str()) {
            proof {
                lemma_insert_member_skip(s, m, j as int);
            }
            members.set(j, (key, text));
            proof {
                assert(insert_member(s.skip(j as int), m) =~= seq![m] + s.skip(j as int).drop_first());
                assert(members_view(members@) =~= s.take(j as int) + (seq![m] + s.skip(j as int).drop_first()));
            }
            return;
        }
        if key_less_exec(&key, &members[j].0) {
            proof {
                lemma_insert_member_skip(s, m, j as int);
            }
            members.insert(j, (key, text));
            proof {
                assert(insert_member(s.skip(j as int), m) =~= seq![m] + s.skip(j as int));
                assert(members_view(members@) =~= s.take(j as int) + (seq![m] + s.skip(j as int)));
            }
            return;
        }
        j = j + 1;
    }
    proof {
        lemma_insert_member_skip(s, m, j as int);
    }
    members.push((key, text));
    proof {
        assert(s.skip(j as int).len() == 0);
        assert(members_view(members@) =~= s.take(j as int) + seq![m]);
    }
}

/// Appends `"key":text` for each member, separated by commas.
fn push_members(out: &mut String, members: &Vec<(String, String)>)
    ensures
        final(out)@ == old(out)@ + members_text(members_view(members@)),
{
    let ghost ms = members_view(members@);
    let mut i: usize = 0;
    while i < members.len()
        invariant
            i <= members@.len(),
            ms == members_view(members@),
            out@ == old(out)@ + members_text(ms.take(i as int)),
        decreases members@.len() - i,
    {
        let ghost before = out@;
        if i > 0 {
            string_push(out, ',');
        }
        push_json_string(out, members[i].0.as_str());
        string_push(out, ':');
        push_str(out, members[i].1.as_str());
        proof {
            let t = ms.take(i + 1);
            assert(t.drop_last() =~= ms.take(i as int));
            assert(t.last() == ms[i as int]);
            assert(out@ =~= old(out)@ + members_text(t));
        }
        i = i + 1;
    }
    assert(ms.take(ms.len() as int) =~= ms);
}

/// Appends the canonical JSON text of `v`.
fn push_canonical(out: &mut String, v: &JsonValue)
    ensures
        final(out)@ == old(out)@ + canonical_text(*v),
    decreases v,
{
    match v {
        JsonValue::Null => push_str(out, "null"),
        JsonValue::Bool(b) => {
            if *b {
                push_str(out, "true")
            } else {
                push_str(out, "false")
            }
        },
        JsonValue::Number(n) => push_str(out, n.as_str()),
        JsonValue::Str(s) => push_json_string(out, s.as_str()),
        JsonValue::Array(items) => {
            string_push(out, '[');
            let ghost base = out@;
            let mut i: usize = 0;
            while i < items.len()
                invariant
                    i <= items@.len(),
                    *v == JsonValue::Array(*items),
                    out@ == base + items_text(items@.take(i as int)),
                decreases items@.len() - i,
            {
                if i > 0 {
                    string_push(out, ',');
                }
                proof {
                    assert(decreases_to!(*v => (*v)->Array_0));
                    assert(decreases_to!(*items => items@));
                    assert(decreases_to!(items@ => items@[i as int]));
                    assert(decreases_to!(*v => items@[i as int]));
                }
                push_canonical(out, &items[i]);
                proof {
                    let t = items@.take(i + 1);
                    assert(t.drop_last() =~= items@.take(i as int));
                    assert(t.last() == items@[i as int]);
                    assert(out@ =~= base + items_text(t));
                }
                i = i + 1;
            }
            assert(items@.take(items@.len() as int) =~= items@);
            string_push(out, ']');
            assert(out@ =~= old(out)@ + canonical_text(*v));
        },
        JsonValue::Object(entries) => {
            let mut members: Vec<(String, String)> = Vec::new();
            let mut i: usize = 0;
            while i < entries.len()
                invariant
                    i <= entries@.len(),
                    *v == JsonValue::Object(*entries),
                    members_view(members@) == canonical_members(entries@.take(i as int)),
                decreases entries@.len() - i,
            {
                let mut text = String::new();
                proof {
                    assert(decreases_to!(*v => (*v)->Object_0));
                    assert(decreases_to!(*entries => entries@));
                    assert(decreases_to!(entries@ => entries@[i as int]));
                    assert(decreases_to!(entries@[i as int] => entries@[i as int].1));
                    assert(decreases_to!(*v => entries@[i as int].1));
                }
                push_canonical(&mut text, &entries[i].1);
                insert_member_exec(&mut members, entries[i].0.clone(), text);
                proof {
                    let t = entries@.take(i + 1);
                    assert(t.drop_last() =~= entries@.take(i as int));
                    assert(t.last() == entries@[i as int]);
                }
                i = i + 1;
            }
            assert(entries@.take(entries@.len() as int) =~= entries@);
            string_push(out, '{');
            push_members(out, &members);
            string_push(out, '}');
            assert(out@ =~= old(out)@ + canonical_text(*v));
        },
    }
}

/// The canonical JSON text of a value: compact, with every object's members in key order.
pub fn canonical_json_string(value: &JsonValue) -> (r: String)
    ensures
        r@ == canonical_text(*value),
{
    let mut out = String::new();
    push_canonical(&mut out, value);
    out
}

proof fn lemma_bytes_less_irreflexive(a: Seq<u8>)
    ensures
        !bytes_less(a, a),
    decreases a.len(),
{
    if a.len() > 0 {
        lemma_bytes_less_irreflexive(a.drop_first());
    }
}

proof fn lemma_bytes_less_transitive(a: Seq<u8>, b: Seq<u8>, c: Seq<u8>)
    requires
        bytes_less(a, b),
        bytes_less(b, c),
    ensures
        bytes_less(a, c),
    decreases a.len(),
{
    if a.len() > 0 && b.len() > 0 && c.len() > 0 && a[0] == b[0] && b[0] == c[0] {
        lemma_bytes_less_transitive(a.drop_first(), b.drop_first(), c.drop_first());
    }
}

proof fn lemma_bytes_less_total(a: Seq<u8>, b: Seq<u8>)
    requires
        a != b,
    ensures
        bytes_less(a, b) || bytes_less(b, a),
    decreases a.len(),
{
    if a.len() > 0 && b.len() > 0 && a[0] == b[0] {
        if a.drop_first() == b.drop_first() {
            assert(a =~= seq![a[0]] + a.drop_first());
            assert(b =~= seq![b[0]] + b.drop_first());
        }
        lemma_bytes_less_total(a.drop_first(), b.drop_first());
    } else if a.len() == 0 && b.len() == 0 {
        assert(a =~= b);
    }
}

/// `key_less` is a strict total order on keys.
proof fn lemma_key_order(a: Seq<char>, b: Seq<char>, c: Seq<char>)
    ensures
        !key_less(a, a),
        key_less(a, b) && key_less(b, c) ==> key_less(a, c),
        a != b ==> key_less(a, b) || key_less(b, a),
{
    let ea = vstd::utf8::encode_utf8(a);
    let eb = vstd::utf8::encode_utf8(b);
    let ec = vstd::utf8::encode_utf8(c);
    lemma_bytes_less_irreflexive(ea);
    if key_less(a, b) && key_less(b, c) {
        lemma_bytes_less_transitive(ea, eb, ec);
    }
    if a != b {
        vstd::utf8::encode_utf8_decode_utf8(a);
        vstd::utf8::encode_utf8_decode_utf8(b);
        lemma_bytes_less_total(ea, eb);
    }
}

/// The keys of the members strictly increase.
pub open spec fn keys_ascending(s: Seq<(Seq<char>, Seq<char>)>) -> bool {
    forall|i: int, j: int| 0 <= i < j < s.len() ==> key_less(#[trigger] s[i].0, #[trigger] s[j].0)
}

proof fn lemma_insert_member_ascending(s: Seq<(Seq<char>, Seq<char>)>, m: (Seq<char>, Seq<char>))
    requires
        keys_ascending(s),
    ensures
        keys_ascending(insert_member(s, m)),
        insert_member(s, m).to_set() == s.to_set().filter(|x: (Seq<char>, Seq<char>)| x.0 != m.0).insert(m),
    decreases s.len(),
{
    let r = insert_member(s, m);
    let expected = s.to_set().filter(|x: (Seq<char>, Seq<char>)| x.0 != m.0).insert(m);
    if s.len() == 0 {
        assert(r.to_set() =~= expected) by {
            assert forall|x| r.to_set().contains(x) <==> expected.contains(x) by {
                assert(r[0] == m);
                if s.to_set().contains(x) {
                    let k = choose|k: int| 0 <= k < s.len() && s[k] == x;
                }
            }
        }
    } else {
        let t = s.drop_first();
        assert forall|j: int| 0 <= j < t.len() implies key_less(s[0].0, #[trigger] t[j].0) by {
            assert(t[j] == s[j + 1]);
        }
        assert(keys_ascending(t)) by {
            assert forall|i: int, j: int| 0 <= i < j < t.len() implies key_less(#[trigger] t[i].0, #[trigger] t[j].0) by {
                assert(t[i] == s[i + 1] && t[j] == s[j + 1]);
            }
        }
        assert(s =~= seq![s[0]] + t);
        if s[0].0 == m.0 {
            assert forall|j: int| 0 <= j < t.len() implies t[j].0 != m.0 by {
                lemma_key_order(s[0].0, t[j].0, t[j].0);
            }
            assert(r.to_set() =~= expected) by {
                assert forall|x| r.to_set().contains(x) <==> expected.contains(x) by {
                    assert(r[0] == m);
                    if s.to_set().contains(x) && x.0 != m.0 {
                        let k = choose|k: int| 0 <= k < s.len() && s[k] == x;
                        assert(k != 0);
                        assert(r[k] == x);
                    }
                    if r.to_set().contains(x) && x != m {
                        let k = choose|k: int| 0 <= k < r.len() && r[k] == x;
                        assert(k > 0 && s[k] == x);
                        assert(t[k - 1] == x);
                        assert(x.0 != m.0);
                    }
                }
            }
            assert forall|i: int, j: int| 0 <= i < j < r.len() implies key_less(#[trigger] r[i].0, #[trigger] r[j].0) by {
                if i == 0 {
                    assert(r[j] == s[j]);
                } else {
                    assert(r[i] == s[i] && r[j] == s[j]);
                }
            }
        } else if key_less(m.0, s[0].0) {
            assert forall|j: int| 0 <= j < s.len() implies key_less(m.0, #[trigger] s[j].0) by {
                if j > 0 {
                    lemma_key_order(m.0, s[0].0, s[j].0);
                }
            }
            assert(r.to_set() =~= expected) by {
                assert forall|x| r.to_set().contains(x) <==> expected.contains(x) by {
                    if s.to_set().contains(x) {
                        let k = choose|k: int| 0 <= k < s.len() && s[k] == x;
                        lemma_key_order(m.0, m.0, m.0);
                        assert(r[k + 1] == x);
                    }
                    if r.to_set().contains(x) && x != m {
                        let k = choose|k: int| 0 <= k < r.len() && r[k] == x;
                        assert(k > 0 && s[k - 1] == x);
                        lemma_key_order(m.0, m.0, m.0);
                    }
                }
            }
            assert forall|i: int, j: int| 0 <= i < j < r.len() implies key_less(#[trigger] r[i].0, #[trigger] r[j].0) by {
                if i == 0 {
                    assert(r[j] == s[j - 1]);
                } else {
                    assert(r[i] == s[i - 1] && r[j] == s[j - 1]);
                }
            }
        } else {
            lemma_key_order(s[0].0, m.0, m.0);
            lemma_insert_member_ascending(t, m);
            let rt = insert_member(t, m);
            assert(r =~= seq![s[0]] + rt);
            assert forall|j: int| 0 <= j < rt.len() implies key_less(s[0].0, #[trigger] rt[j].0) by {
                assert(rt.to_set().contains(rt[j]));
                if rt[j] != m {
                    assert(t.to_set().contains(rt[j]));
                    let k = choose|k: int| 0 <= k < t.len() && t[k] == rt[j];
                }
            }
            assert forall|i: int, j: int| 0 <= i < j < r.len() implies key_less(#[trigger] r[i].0, #[trigger] r[j].0) by {
                if i == 0 {
                    assert(r[j] == rt[j - 1]);
                } else {
                    assert(r[i] == rt[i - 1] && r[j] == rt[j - 1]);
                }
            }
            assert(r.to_set() =~= expected) by {
                assert forall|x| r.to_set().contains(x) <==> expected.contains(x) by {
                    if expected.contains(x) {
                        if x == s[0] {
                            assert(r[0] == x);
                        } else if x != m {
                            let k = choose|k: int| 0 <= k < s.len() && s[k] == x;
                            assert(k > 0 && t[k - 1] == x);
                            assert(t.to_set().contains(x));
                            assert(rt.to_set().contains(x));
                            let q = choose|q: int| 0 <= q < rt.len() && rt[q] == x;
                            assert(r[q + 1] == x);
                        } else {
                            assert(rt.to_set().contains(m));
                            let q = choose|q: int| 0 <= q < rt.len() && rt[q] == m;
                            assert(r[q + 1] == x);
                        }
                    }
                    if r.to_set().contains(x) {
                        let k = choose|k: int| 0 <= k < r.len() && r[k] == x;
                        if k > 0 {
                            assert(rt[k - 1] == x);
                            assert(rt.to_set().contains(x));
                            if x != m {
                                assert(t.to_set().contains(x));
                                let q = choose|q: int| 0 <= q < t.len() && t[q] == x;
                                assert(s[q + 1] == x);
                            }
                        }
                    }
                }
            }
        }
    }
}

/// No two entries of the object share a key.
pub open spec fn keys_distinct(entries: Seq<(String, JsonValue)>) -> bool {
    forall|i: int, j: int| 0 <= i < j < entries.len() ==> #[trigger] entries[i].0@ != #[trigger] entries[j].0@
}

/// The members of an object: each entry's key with the canonical text of its value.
pub open spec fn member_set(entries: Seq<(String, JsonValue)>) -> Set<(Seq<char>, Seq<char>)> {
    Set::new(
        |m: (Seq<char>, Seq<char>)|
            exists|i: int| 0 <= i < entries.len() && m == (#[trigger] entries[i].0@, canonical_text(entries[i].1)),
    )
}

/// Every object's members come out in strictly increasing key order, each key once.
pub proof fn lemma_canonical_members_in_key_order(entries: Seq<(String, JsonValue)>)
    ensures
        keys_ascending(canonical_members(entries)),
    decreases entries.len(),
{
    if entries.len() > 0 {
        lemma_canonical_members_in_key_order(entries.drop_last());
        lemma_insert_member_ascending(
            canonical_members(entries.drop_last()),
            (entries.last().0@, canonical_text(entries.last().1)),
        );
    }
}

proof fn lemma_canonical_member_set(entries: Seq<(String, JsonValue)>)
    requires
        keys_distinct(entries),
    ensures
        canonical_members(entries).to_set() == member_set(entries),
    decreases entries.len(),
{
    if entries.len() == 0 {
        assert(canonical_members(entries).to_set() =~= member_set(entries)) by {
            assert forall|x| !member_set(entries).contains(x) by {
                if member_set(entries).contains(x) {
                    let i = choose|i: int| 0 <= i < entries.len() && x == (#[trigger] entries[i].0@, canonical_text(entries[i].1));
                }
            }
        }
    } else {
        let e = entries.drop_last();
        let n = entries.len() - 1;
        let m = (entries.last().0@, canonical_text(entries.last().1));
        assert(keys_distinct(e)) by {
            assert forall|i: int, j: int| 0 <= i < j < e.len() implies #[trigger] e[i].0@ != #[trigger] e[j].0@ by {
                assert(e[i] == entries[i] && e[j] == entries[j]);
            }
        }
        lemma_canonical_member_set(e);
        lemma_canonical_members_in_key_order(e);
        lemma_insert_member_ascending(canonical_members(e), m);
        let before = canonical_members(e).to_set();
        assert(canonical_members(entries).to_set() =~= member_set(entries)) by {
            assert forall|x| before.filter(|y: (Seq<char>, Seq<char>)| y.0 != m.0).insert(m).contains(x)
                <==> member_set(entries).contains(x) by {
                if member_set(entries).contains(x) {
                    let i = choose|i: int| 0 <= i < entries.len() && x == (#[trigger] entries[i].0@, canonical_text(entries[i].1));
                    if i < n {
                        assert(e[i] == entries[i]);
                        assert(member_set(e).contains(x));
                        assert(entries[i].0@ != entries[n].0@);
                    } else {
                        assert(x == m);
                    }
                }
                if before.contains(x) {
                    assert(member_set(e).contains(x));
                    let i = choose|i: int| 0 <= i < e.len() && x == (#[trigger] e[i].0@, canonical_text(e[i].1));
                    assert(e[i] == entries[i]);
                    assert(member_set(entries).contains(x));
                }
                if x == m {
                    assert(entries[n] == entries.last());
                    assert(member_set(entries).contains(x));
                }
            }
        }
    }
}

proof fn lemma_ascending_unique(s1: Seq<(Seq<char>, Seq<char>)>, s2: Seq<(Seq<char>, Seq<char>)>)
    requires
        keys_ascending(s1),
        keys_ascending(s2),
        s1.to_set() == s2.to_set(),
    ensures
        s1 == s2,
    decreases s1.len(),
{
    if s1.len() == 0 {
        if s2.len() > 0 {
            assert(s2.to_set().contains(s2[0]));
            let k = choose|k: int| 0 <= k < s1.len() && s1[k] == s2[0];
        }
        assert(s1 =~= s2);
    } else {
        assert(s1.to_set().contains(s1[0]));
        let j = choose|j: int| 0 <= j < s2.len() && s2[j] == s1[0];
        assert(s2.to_set().contains(s2[0]));
        let k = choose|k: int| 0 <= k < s1.len() && s1[k] == s2[0];
        if j > 0 {
            assert(key_less(s2[0].0, s2[j].0));
            if k > 0 {
                assert(key_less(s1[0].0, s1[k].0));
                lemma_key_order(s1[0].0, s2[0].0, s1[0].0);
            } else {
                lemma_key_order(s1[0].0, s1[0].0, s1[0].0);
            }
        }
        assert(s1[0] == s2[0]);
        let t1 = s1.drop_first();
        let t2 = s2.drop_first();
        assert(keys_ascending(t1)) by {
            assert forall|a: int, b: int| 0 <= a < b < t1.len() implies key_less(#[trigger] t1[a].0, #[trigger] t1[b].0) by {
                assert(t1[a] == s1[a + 1] && t1[b] == s1[b + 1]);
            }
        }
        assert(keys_ascending(t2)) by {
            assert forall|a: int, b: int| 0 <= a < b < t2.len() implies key_less(#[trigger] t2[a].0, #[trigger] t2[b].0) by {
                assert(t2[a] == s2[a + 1] && t2[b] == s2[b + 1]);
            }
        }
        assert(t1.to_set() =~= t2.to_set()) by {
            assert forall|x| t1.to_set().contains(x) implies t2.to_set().contains(x) by {
                let a = choose|a: int| 0 <= a < t1.len() && t1[a] == x;
                assert(s1[a + 1] == x);
                assert(key_less(s1[0].0, s1[a + 1].0));
                lemma_key_order(x.0, x.0, x.0);
                assert(s2.to_set().contains(x));
                let b = choose|b: int| 0 <= b < s2.len() && s2[b] == x;
                assert(b > 0);
                assert(t2[b - 1] == x);
            }
            assert forall|x| t2.to_set().contains(x) implies t1.to_set().contains(x) by {
                let a = choose|a: int| 0 <= a < t2.len() && t2[a] == x;
                assert(s2[a + 1] == x);
                assert(key_less(s2[0].0, s2[a + 1].0));
                lemma_key_order(x.0, x.0, x.0);
                assert(s1.to_set().contains(x));
                let b = choose|b: int| 0 <= b < s1.len() && s1[b] == x;
                assert(b > 0);
                assert(t1[b - 1] == x);
            }
        }
        lemma_ascending_unique(t1, t2);
        assert(s1 =~= seq![s1[0]] + t1);
        assert(s2 =~= seq![s2[0]] + t2);
    }
}

/// The canonical text of an object does not depend on the order of its members: two
/// objects whose keys are distinct and that hold the same members, in whatever order, have
/// the same canonical text.
pub proof fn lemma_canonical_text_ignores_member_order(
    p: Vec<(String, JsonValue)>,
    q: Vec<(String, JsonValue)>,
)
    requires
        keys_distinct(p@),
        keys_distinct(q@),
        p@.to_set() == q@.to_set(),
    ensures
        canonical_text(JsonValue::Object(p)) == canonical_text(JsonValue::Object(q)),
{
    assert(member_set(p@) =~= member_set(q@)) by {
        assert forall|x| member_set(p@).contains(x) implies member_set(q@).contains(x) by {
            let i = choose|i: int| 0 <= i < p@.len() && x == (#[trigger] p@[i].0@, canonical_text(p@[i].1));
            assert(q@.to_set().contains(p@[i]));
            let j = choose|j: int| 0 <= j < q@.len() && q@[j] == p@[i];
            assert(x == (q@[j].0@, canonical_text(q@[j].1)));
        }
        assert forall|x| member_set(q@).contains(x) implies member_set(p@).contains(x) by {
            let i = choose|i: int| 0 <= i < q@.len() && x == (#[trigger] q@[i].0@, canonical_text(q@[i].1));
            assert(p@.to_set().contains(q@[i]));
            let j = choose|j: int| 0 <= j < p@.len() && p@[j] == q@[i];
            assert(x == (p@[j].0@, canonical_text(p@[j].1)));
        }
    }
    lemma_canonical_member_set(p@);
    lemma_canonical_member_set(q@);
    lemma_canonical_members_in_key_order(p@);
    lemma_canonical_members_in_key_order(q@);
    lemma_ascending_unique(canonical_members(p@), canonical_members(q@));
}

} // verus!
