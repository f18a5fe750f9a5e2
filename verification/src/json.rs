//! A JSON value held as plain data, and its abstract view.
use vstd::prelude::*;

use crate::text::{chars_of, seq_eq};

verus! {

/// A JSON value as `serde_json` holds it.
#[verifier::external_type_specification]
#[verifier::external_body]
pub struct ExJsonValue(serde_json::Value);

/// A JSON value. A number is held as text: the text `serde_json` renders
/// for it when it was parsed here (with its default features an integer
/// keeps its digits and any other number is rendered as a float, so `1e3`
/// is held as `1000.0`); objects keep their members in order.
#[derive(Debug, PartialEq)]
pub enum JsonValue {
    /// `null`.
    Null,
    /// `true` / `false`.
    Bool(bool),
    /// A number, as text.
    Number(String),
    /// A string.
    Str(String),
    /// An array.
    Array(Vec<JsonValue>),
    /// An object: its members in order.
    Object(Vec<(String, JsonValue)>),
}

/// A JSON value seen abstractly.
pub enum JsonView {
    /// `null`.
    Null,
    /// `true` / `false`.
    Bool(bool),
    /// A number's text.
    Number(Seq<char>),
    /// A string.
    Str(Seq<char>),
    /// An array.
    Array(Seq<JsonView>),
    /// An object's members in order.
    Object(Seq<(Seq<char>, JsonView)>),
}

/// The view of a JSON value.
pub open spec fn json_view(j: JsonValue) -> JsonView
    decreases j,
{
    match j {
        JsonValue::Null => JsonView::Null,
        JsonValue::Bool(b) => JsonView::Bool(b),
        JsonValue::Number(n) => JsonView::Number(n@),
        JsonValue::Str(s) => JsonView::Str(s@),
        JsonValue::Array(v) => JsonView::Array(Seq::new(v.len() as nat, |i: int| if 0 <= i < v.len() { json_view(v[i]) } else { JsonView::Null })),
        JsonValue::Object(m) => JsonView::Object(Seq::new(m.len() as nat, |i: int| if 0 <= i < m.len() { (m[i].0@, json_view(m[i].1)) } else { (Seq::empty(), JsonView::Null) })),
    }
}

/// The views of an object's members.
pub open spec fn members_view(m: Seq<(String, JsonValue)>) -> Seq<(Seq<char>, JsonView)> {
    Seq::new(m.len(), |i: int| (m[i].0@, json_view(m[i].1)))
}

/// The views of an array's items.
pub open spec fn values_view(a: Seq<JsonValue>) -> Seq<JsonView> {
    Seq::new(a.len(), |i: int| json_view(a[i]))
}

/// An object's view is the view of its members; an array's, of its items.
pub proof fn lemma_json_view(j: JsonValue)
    ensures
        j matches JsonValue::Object(m) ==> json_view(j) == JsonView::Object(members_view(m@)),
        j matches JsonValue::Array(a) ==> json_view(j) == JsonView::Array(values_view(a@)),
{
    match j {
        JsonValue::Object(m) => {
            assert(json_view(j)->Object_0 =~= members_view(m@));
        },
        JsonValue::Array(a) => {
            assert(json_view(j)->Array_0 =~= values_view(a@));
        },
        _ => {},
    }
}

/// A deep copy.
pub fn copy_json(j: &JsonValue) -> (r: JsonValue)
    ensures
        json_view(r) == json_view(*j),
    decreases j,
{
    proof {
        lemma_json_view(*j);
    }
    match j {
        JsonValue::Null => JsonValue::Null,
        JsonValue::Bool(b) => JsonValue::Bool(*b),
        JsonValue::Number(n) => JsonValue::Number(n.clone()),
        JsonValue::Str(s) => JsonValue::Str(s.clone()),
        JsonValue::Array(v) => {
            let mut out: Vec<JsonValue> = Vec::new();
            let n = v.len();
            let mut i: usize = 0;
            while i < n
                invariant
                    n == v@.len(),
                    i <= n,
                    *j is Array,
                    (*j)->Array_0 == *v,
                    out@.len() == i,
                    forall|k: int| 0 <= k < i ==> #[trigger] json_view(out@[k]) == json_view(v@[k]),
                decreases n - i,
            {
                proof {
                    vstd::std_specs::vec::axiom_vec_index_decreases(*v, i as int);
                    assert(decreases_to!(*j => (*j)->Array_0[i as int]));
                }
                let c = copy_json(&v[i]);
                out.push(c);
                i = i + 1;
            }
            let r = JsonValue::Array(out);
            proof {
                lemma_json_view(r);
                assert(values_view(out@) =~= values_view(v@));
            }
            r
        },
        JsonValue::Object(m) => {
            let mut out: Vec<(String, JsonValue)> = Vec::new();
            let n = m.len();
            let mut i: usize = 0;
            while i < n
                invariant
                    n == m@.len(),
                    i <= n,
                    *j is Object,
                    (*j)->Object_0 == *m,
                    out@.len() == i,
                    forall|k: int| 0 <= k < i ==> #[trigger] out@[k].0@ == m@[k].0@ && json_view(out@[k].1) == json_view(m@[k].1),
                decreases n - i,
            {
                proof {
                    vstd::std_specs::vec::axiom_vec_index_decreases(*m, i as int);
                    assert(decreases_to!(*j => (*j)->Object_0[i as int].1));
                }
                let c = copy_json(&m[i].1);
                out.push((m[i].0.clone(), c));
                i = i + 1;
            }
            let r = JsonValue::Object(out);
            proof {
                lemma_json_view(r);
                assert(members_view(out@) =~= members_view(m@));
            }
            r
        },
    }
}

/// A deep copy of an object's members.
pub fn copy_members(m: &Vec<(String, JsonValue)>) -> (r: Vec<(String, JsonValue)>)
    ensures
        members_view(r@) == members_view(m@),
{
    let mut out: Vec<(String, JsonValue)> = Vec::new();
    let n = m.len();
    let mut i: usize = 0;
    while i < n
        invariant
            n == m@.len(),
            i <= n,
            out@.len() == i,
            forall|k: int| 0 <= k < i ==> #[trigger] out@[k].0@ == m@[k].0@ && json_view(out@[k].1) == json_view(m@[k].1),
        decreases n - i,
    {
        let c = copy_json(&m[i].1);
        out.push((m[i].0.clone(), c));
        i = i + 1;
    }
    assert(members_view(out@) =~= members_view(m@));
    out
}

// ---------------------------------------------------------------------------
// Object members as a map: the first member with a name is the one seen
// ---------------------------------------------------------------------------
/// The members of an object, in order.
pub type Members = Seq<(Seq<char>, JsonView)>;

/// Index of the first member named `k`.
pub open spec fn find_member(m: Members, k: Seq<char>) -> Option<int>
    decreases m.len(),
{
    if m.len() == 0 {
        None
    } else {
        match find_member(m.drop_last(), k) {
            Some(i) => Some(i),
            None => if m.last().0 == k {
                Some(m.len() - 1)
            } else {
                None
            },
        }
    }
}

/// The value of the member named `k`.
pub open spec fn member_value(m: Members, k: Seq<char>) -> Option<JsonView> {
    match find_member(m, k) {
        Some(i) => Some(m[i].1),
        None => None,
    }
}

/// Set `k` to `v`: in place when present, appended otherwise.
pub open spec fn set_member(m: Members, k: Seq<char>, v: JsonView) -> Members {
    match find_member(m, k) {
        Some(i) => m.update(i, (k, v)),
        None => m.push((k, v)),
    }
}

/// Remove the member named `k`.
pub open spec fn remove_member(m: Members, k: Seq<char>) -> Members {
    match find_member(m, k) {
        Some(i) => m.remove(i),
        None => m,
    }
}

/// Append `k: v` unless `k` is present.
pub open spec fn add_if_absent(m: Members, k: Seq<char>, v: JsonView) -> Members {
    match find_member(m, k) {
        Some(_) => m,
        None => m.push((k, v)),
    }
}

/// `find_member` finds the first member with the name.
pub proof fn lemma_find_member(m: Members, k: Seq<char>)
    ensures
        match find_member(m, k) {
            Some(i) => 0 <= i < m.len() && m[i].0 == k && forall|j: int| 0 <= j < i ==> #[trigger] m[j].0 != k,
            None => forall|j: int| 0 <= j < m.len() ==> #[trigger] m[j].0 != k,
        },
    decreases m.len(),
{
    if m.len() > 0 {
        let d = m.drop_last();
        lemma_find_member(d, k);
        assert forall|j: int| 0 <= j < d.len() implies #[trigger] d[j] == m[j] by {}
        match find_member(d, k) {
            Some(i) => {
                assert(d[i] == m[i]);
                assert forall|j: int| 0 <= j < i implies #[trigger] m[j].0 != k by {
                    assert(d[j] == m[j]);
                }
            },
            None => {
                assert forall|j: int| 0 <= j < m.len() - 1 implies #[trigger] m[j].0 != k by {
                    assert(d[j] == m[j]);
                }
            },
        }
    }
}

/// Removing a present member shortens the object by one.
pub proof fn lemma_remove_present(m: Members, k: Seq<char>)
    requires
        find_member(m, k) is Some,
    ensures
        remove_member(m, k).len() == m.len() - 1,
{
    lemma_find_member(m, k);
}

// ---------------------------------------------------------------------------
// Member operations on a `Vec`
// ---------------------------------------------------------------------------
/// Whether `k` is the text `lit`.
pub fn key_is(k: &str, lit: &str) -> (b: bool)
    ensures
        b == (k@ == lit@),
{
    let a = chars_of(k);
    let b = chars_of(lit);
    seq_eq(a.as_slice(), b.as_slice())
}

/// Index of the first member named `k`.
pub fn find_member_exec(m: &Vec<(String, JsonValue)>, k: &str) -> (r: Option<usize>)
    ensures
        match r {
            Some(i) => find_member(members_view(m@), k@) == Some(i as int),
            None => find_member(members_view(m@), k@) is None,
        },
{
    let ghost mv = members_view(m@);
    proof {
        lemma_find_member(mv, k@);
    }
    let n = m.len();
    let mut i: usize = 0;
    while i < n
        invariant
            n == m@.len(),
            i <= n,
            mv == members_view(m@),
            forall|t: int| 0 <= t < i ==> #[trigger] mv[t].0 != k@,
            match find_member(mv, k@) {
                Some(x) => 0 <= x < mv.len() && mv[x].0 == k@ && forall|t: int| 0 <= t < x ==> #[trigger] mv[t].0 != k@,
                None => forall|t: int| 0 <= t < mv.len() ==> #[trigger] mv[t].0 != k@,
            },
        decreases n - i,
    {
        assert(mv[i as int].0 == m@[i as int].0@);
        if key_is(m[i].0.as_str(), k) {
            return Some(i);
        }
        i = i + 1;
    }
    None
}

/// Set `k` to `v` (see `set_member`).
pub fn set_member_exec(m: &mut Vec<(String, JsonValue)>, k: String, v: JsonValue)
    ensures
        members_view(final(m)@) == set_member(members_view(old(m)@), k@, json_view(v)),
{
    proof {
        lemma_find_member(members_view(m@), k@);
    }
    match find_member_exec(m, k.as_str()) {
        Some(i) => {
            m.set(i, (k, v));
            assert(members_view(m@) =~= members_view(old(m)@).update(i as int, (k@, json_view(v))));
        },
        None => {
            m.push((k, v));
            assert(members_view(m@) =~= members_view(old(m)@).push((k@, json_view(v))));
        },
    }
}

/// Remove the member named `k`, returning its value.
pub fn remove_member_exec(m: &mut Vec<(String, JsonValue)>, k: &str) -> (r: Option<JsonValue>)
    ensures
        members_view(final(m)@) == remove_member(members_view(old(m)@), k@),
        match r {
            Some(v) => member_value(members_view(old(m)@), k@) == Some(json_view(v)),
            None => member_value(members_view(old(m)@), k@) is None,
        },
{
    proof {
        lemma_find_member(members_view(m@), k@);
    }
    match find_member_exec(m, k) {
        Some(i) => {
            let (_, v) = m.remove(i);
            assert(members_view(m@) =~= members_view(old(m)@).remove(i as int));
            Some(v)
        },
        None => None,
    }
}

/// Append `k: v` unless `k` is present.
pub fn add_if_absent_exec(m: &mut Vec<(String, JsonValue)>, k: String, v: JsonValue)
    ensures
        members_view(final(m)@) == add_if_absent(members_view(old(m)@), k@, json_view(v)),
{
    if find_member_exec(m, k.as_str()).is_none() {
        m.push((k, v));
        assert(members_view(m@) =~= members_view(old(m)@).push((k@, json_view(v))));
    }
}

/// The member named `key` of an object (`None` for any other value).
pub open spec fn object_member(v: JsonView, key: Seq<char>) -> Option<JsonView> {
    match v {
        JsonView::Object(m) => member_value(m, key),
        _ => None,
    }
}

impl JsonValue {
    /// The value stored under `key`, when this is an object holding one.
    pub fn get(&self, key: &str) -> (r: Option<&JsonValue>)
        ensures
            match r {
                Some(x) => object_member(json_view(*self), key@) == Some(json_view(*x)),
                None => object_member(json_view(*self), key@) is None,
            },
    {
        proof {
            lemma_json_view(*self);
        }
        match self {
            JsonValue::Object(m) => {
                proof {
                    lemma_find_member(members_view(m@), key@);
                }
                match find_member_exec(m, key) {
                    Some(i) => Some(&m[i].1),
                    None => None,
                }
            },
            _ => None,
        }
    }
}

/// The text of a string value.
pub open spec fn as_text(o: Option<JsonView>) -> Option<Seq<char>> {
    match o {
        Some(JsonView::Str(s)) => Some(s),
        _ => None,
    }
}

/// The text of a string value (see `as_text`).
pub fn str_of(o: Option<&JsonValue>) -> (r: Option<String>)
    ensures
        match r {
            Some(t) => as_text(match o {
                Some(x) => Some(json_view(*x)),
                None => None,
            }) == Some(t@),
            None => as_text(match o {
                Some(x) => Some(json_view(*x)),
                None => None,
            }) is None,
        },
{
    match o {
        Some(x) => {
            proof {
                lemma_json_view(*x);
            }
            match x {
                JsonValue::Str(s) => Some(s.clone()),
                _ => None,
            }
        },
        None => None,
    }
}

// ---------------------------------------------------------------------------
// Parsing
// ---------------------------------------------------------------------------
/// What `serde_json::from_str::<serde_json::Value>` gives for `text`, seen
/// as a JSON value: the parsed value, or the parse error's message.
pub uninterp spec fn json_parse(text: Seq<char>) -> Result<JsonView, Seq<char>>;

/// `serde_json::from_str::<serde_json::Value>`, the result held as a
/// [`JsonValue`] (a number as `serde_json` renders it): the parsed value, or the
/// parse error's message, as `json_parse` names them.
#[verifier::external_body]
pub fn parse_json(text: &str) -> (r: Result<JsonValue, String>)
    ensures
        match r {
            Ok(v) => json_parse(text@) == Ok::<JsonView, Seq<char>>(json_view(v)),
            Err(e) => json_parse(text@) == Err::<JsonView, Seq<char>>(e@),
        },
{
    match serde_json::from_str::<serde_json::Value>(text) {
        Ok(v) => Ok(held_json(&v)),
        Err(e) => Err(e.to_string()),
    }
}

/// The [`JsonValue`] with the same content as a `serde_json::Value`.
#[verifier::external_body]
fn held_json(v: &serde_json::Value) -> JsonValue {
    match v {
        serde_json::Value::Null => JsonValue::Null,
        serde_json::Value::Bool(b) => JsonValue::Bool(*b),
        serde_json::Value::Number(n) => JsonValue::Number(n.to_string()),
        serde_json::Value::String(s) => JsonValue::Str(s.clone()),
        serde_json::Value::Array(a) => JsonValue::Array(a.iter().map(held_json).collect()),
        serde_json::Value::Object(m) => JsonValue::Object(m.iter().map(|(k, x)| (k.clone(), held_json(x))).collect()),
    }
}

} // verus!
