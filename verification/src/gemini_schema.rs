//! Rewrite a JSON Schema into the OpenAPI subset that Gemini's function
//! declarations accept.
//!
//! - Every `$ref: "#/$defs/Foo"` (or `#/definitions/Foo`) is inlined from
//!   the root's `$defs` / `definitions`, which are then dropped; sibling
//!   keywords of a resolved `$ref` (the dropped ones below excepted) are
//!   added where the target lacks them;
//!   an unresolvable `$ref` is dropped and the rest of the object kept.
//! - Metadata Gemini rejects is dropped: `$schema`, `$id`, `$comment`,
//!   `additionalProperties`, `unevaluatedProperties`, `patternProperties`.
//! - `type: ["X", "null"]` becomes `type: "X"` with `nullable: true` (the
//!   first non-null entry wins).
//! - `const: X` becomes `enum: [X]`; `oneOf` is renamed `anyOf`.
//! - Bare `{"type": "null"}` members of an `anyOf` are lifted to
//!   `nullable: true`; an `anyOf` left with one member is merged into its
//!   parent, one left empty is dropped.
//! - Beyond a nesting depth of 32 a node becomes `null`, so recursive
//!   definitions terminate.
use vstd::prelude::*;

use crate::json::{JsonValue, JsonView, Members, add_if_absent, add_if_absent_exec, copy_json,
    copy_members, find_member, find_member_exec, json_view, key_is, lemma_find_member,
    lemma_json_view, lemma_remove_present, member_value, members_view, remove_member,
    remove_member_exec, set_member, set_member_exec, values_view};
use crate::text::{chars_of, has_prefix, starts_with, string_from_range};

verus! {

// ---------------------------------------------------------------------------
// The rewrite
// ---------------------------------------------------------------------------
/// Nesting depth beyond which a node becomes `null`.
pub const MAX_DEPTH: u32 = 32;

/// Keywords dropped wherever they occur.
pub open spec fn dropped_key(k: Seq<char>) -> bool {
    ||| k == "$schema"@
    ||| k == "$id"@
    ||| k == "$comment"@
    ||| k == "$defs"@
    ||| k == "definitions"@
    ||| k == "additionalProperties"@
    ||| k == "unevaluatedProperties"@
    ||| k == "patternProperties"@
}

/// The definition name a `$ref` points at, when it points into the root.
pub open spec fn ref_target(r: Seq<char>) -> Option<Seq<char>> {
    if has_prefix(r, "#/$defs/"@) {
        Some(r.skip(8))
    } else if has_prefix(r, "#/definitions/"@) {
        Some(r.skip(14))
    } else {
        None
    }
}

/// The string `"null"`.
pub open spec fn null_name() -> JsonView {
    JsonView::Str("null"@)
}

/// The first entry of a type list that is not `"null"`.
pub open spec fn type_choice(arr: Seq<JsonView>) -> Option<JsonView>
    decreases arr.len(),
{
    if arr.len() == 0 {
        None
    } else {
        match type_choice(arr.drop_last()) {
            Some(t) => Some(t),
            None => if arr.last() == null_name() {
                None
            } else {
                Some(arr.last())
            },
        }
    }
}

/// A type list names `"null"`.
pub open spec fn names_null(arr: Seq<JsonView>) -> bool {
    exists|i: int| 0 <= i < arr.len() && arr[i] == null_name()
}

/// Write the `type` keyword: a list becomes its first non-null entry, with
/// `nullable: true` when it names `"null"`.
pub open spec fn rewrite_type(value: JsonView, out: Members) -> Members {
    match value {
        JsonView::Array(arr) => {
            let o1 = match type_choice(arr) {
                Some(t) => set_member(out, "type"@, t),
                None => out,
            };
            if names_null(arr) {
                set_member(o1, "nullable"@, JsonView::Bool(true))
            } else {
                o1
            }
        },
        _ => set_member(out, "type"@, value),
    }
}

/// `{"type": "null"}` and nothing else.
pub open spec fn is_bare_null(item: JsonView) -> bool {
    match item {
        JsonView::Object(m) => member_value(m, "type"@) == Some(null_name()) && forall|i: int|
            0 <= i < m.len() ==> #[trigger] m[i].0 == "type"@,
        _ => false,
    }
}

/// The members of a list that are not bare nulls.
pub open spec fn non_null(arr: Seq<JsonView>) -> Seq<JsonView>
    decreases arr.len(),
{
    if arr.len() == 0 {
        Seq::empty()
    } else if is_bare_null(arr.last()) {
        non_null(arr.drop_last())
    } else {
        non_null(arr.drop_last()).push(arr.last())
    }
}

/// Add every member of `src` whose name `acc` lacks, in order.
pub open spec fn add_all_absent(acc: Members, src: Members) -> Members
    decreases src.len(),
{
    if src.len() == 0 {
        acc
    } else {
        let a = add_all_absent(acc, src.drop_last());
        add_if_absent(a, src.last().0, src.last().1)
    }
}

/// Set every member of `src`, in order.
pub open spec fn set_all(acc: Members, src: Members) -> Members
    decreases src.len(),
{
    if src.len() == 0 {
        acc
    } else {
        let a = set_all(acc, src.drop_last());
        set_member(a, src.last().0, src.last().1)
    }
}

/// Lift bare nulls out of `anyOf` into `nullable: true`; collapse an
/// `anyOf` left with one member into the object, drop one left empty.
pub open spec fn lift_null(out: Members) -> Members {
    match member_value(out, "anyOf"@) {
        Some(JsonView::Array(arr)) => {
            let kept = non_null(arr);
            let o1 = set_member(out, "anyOf"@, JsonView::Array(kept));
            let o2 = if kept.len() != arr.len() {
                add_if_absent(o1, "nullable"@, JsonView::Bool(true))
            } else {
                o1
            };
            if kept.len() == 0 {
                remove_member(o2, "anyOf"@)
            } else if kept.len() == 1 {
                let o3 = remove_member(o2, "anyOf"@);
                match kept[0] {
                    JsonView::Object(sm) => add_all_absent(o3, sm),
                    _ => o3,
                }
            } else {
                o2
            }
        },
        _ => out,
    }
}

/// Rewrite a node at depth `d`.
pub open spec fn walk(v: JsonView, defs: Members, d: int) -> JsonView
    decreases 33 - d, 2int, 0int,
{
    if d > 32 {
        JsonView::Null
    } else {
        match v {
            JsonView::Object(m) => walk_object(m, defs, d),
            JsonView::Array(a) => JsonView::Array(Seq::new(a.len(), |i: int| walk(a[i], defs, d + 1))),
            _ => v,
        }
    }
}

/// Rewrite an object at depth `d`.
pub open spec fn walk_object(m: Members, defs: Members, d: int) -> JsonView
    decreases 33 - d, 1int, m.len(),
{
    if d > 32 {
        JsonView::Null
    } else {
        match member_value(m, "$ref"@) {
            Some(JsonView::Str(r)) => {
                let target = match ref_target(r) {
                    Some(name) => member_value(defs, name),
                    None => None,
                };
                match target {
                    Some(t) => match walk(t, defs, d + 1) {
                        JsonView::Object(rm) => JsonView::Object(merge_siblings(rm, m, defs, d)),
                        other => other,
                    },
                    None => {
                        proof {
                            lemma_remove_present(m, "$ref"@);
                        }
                        walk_object(remove_member(m, "$ref"@), defs, d)
                    },
                }
            },
            _ => JsonView::Object(lift_null(walk_members(m, defs, d))),
        }
    }
}

/// Add the rewritten siblings of a resolved `$ref` that the target lacks.
pub open spec fn merge_siblings(rm: Members, m: Members, defs: Members, d: int) -> Members
    decreases 33 - d, 0int, m.len(),
{
    if m.len() == 0 || d > 32 {
        rm
    } else {
        let acc = merge_siblings(rm, m.drop_last(), defs, d);
        let k = m.last().0;
        if k == "$ref"@ || dropped_key(k) || find_member(acc, k) is Some {
            acc
        } else {
            acc.push((k, walk(m.last().1, defs, d + 1)))
        }
    }
}

/// Rewrite the members of an object, in order.
pub open spec fn walk_members(m: Members, defs: Members, d: int) -> Members
    decreases 33 - d, 0int, m.len(),
{
    if m.len() == 0 || d > 32 {
        Seq::empty()
    } else {
        let acc = walk_members(m.drop_last(), defs, d);
        let k = m.last().0;
        let v = m.last().1;
        if dropped_key(k) {
            acc
        } else if k == "type"@ {
            rewrite_type(v, acc)
        } else if k == "const"@ {
            set_member(acc, "enum"@, JsonView::Array(seq![v]))
        } else if k == "oneOf"@ {
            set_member(acc, "anyOf"@, walk(v, defs, d + 1))
        } else {
            set_member(acc, k, walk(v, defs, d + 1))
        }
    }
}

/// The definitions of a root schema: `$defs`, then the `definitions` it
/// lacks.
pub open spec fn schema_defs(schema: JsonView) -> Members {
    match schema {
        JsonView::Object(m) => {
            let a = match member_value(m, "$defs"@) {
                Some(JsonView::Object(d)) => set_all(Seq::empty(), d),
                _ => Seq::empty(),
            };
            match member_value(m, "definitions"@) {
                Some(JsonView::Object(d2)) => add_all_absent(a, d2),
                _ => a,
            }
        },
        _ => Seq::empty(),
    }
}

/// The rewritten schema.
pub open spec fn sanitized(schema: JsonView) -> JsonView {
    let out = walk(schema, schema_defs(schema), 0);
    match out {
        JsonView::Object(m) => JsonView::Object(
            remove_member(
                remove_member(
                    remove_member(remove_member(remove_member(m, "$schema"@), "$defs"@), "definitions"@),
                    "$id"@,
                ),
                "$comment"@,
            ),
        ),
        _ => out,
    }
}

/// Add every member of `src` that `acc` lacks, in order.
fn add_all_absent_exec(acc: &mut Vec<(String, JsonValue)>, src: &Vec<(String, JsonValue)>)
    ensures
        members_view(final(acc)@) == add_all_absent(members_view(old(acc)@), members_view(src@)),
{
    let ghost sv = members_view(src@);
    let ghost a0 = members_view(acc@);
    let n = src.len();
    let mut i: usize = 0;
    assert(sv.take(0) =~= Seq::<(Seq<char>, JsonView)>::empty());
    while i < n
        invariant
            n == src@.len(),
            i <= n,
            sv == members_view(src@),
            members_view(acc@) == add_all_absent(a0, sv.take(i as int)),
        decreases n - i,
    {
        proof {
            assert(sv.take(i + 1).drop_last() =~= sv.take(i as int));
            assert(sv.take(i + 1).last() == sv[i as int]);
        }
        let v = copy_json(&src[i].1);
        add_if_absent_exec(acc, src[i].0.clone(), v);
        i = i + 1;
    }
    assert(sv.take(n as int) =~= sv);
}

/// Set every member of `src`, in order.
fn set_all_exec(acc: &mut Vec<(String, JsonValue)>, src: &Vec<(String, JsonValue)>)
    ensures
        members_view(final(acc)@) == set_all(members_view(old(acc)@), members_view(src@)),
{
    let ghost sv = members_view(src@);
    let ghost a0 = members_view(acc@);
    let n = src.len();
    let mut i: usize = 0;
    assert(sv.take(0) =~= Seq::<(Seq<char>, JsonView)>::empty());
    while i < n
        invariant
            n == src@.len(),
            i <= n,
            sv == members_view(src@),
            members_view(acc@) == set_all(a0, sv.take(i as int)),
        decreases n - i,
    {
        proof {
            assert(sv.take(i + 1).drop_last() =~= sv.take(i as int));
            assert(sv.take(i + 1).last() == sv[i as int]);
        }
        let v = copy_json(&src[i].1);
        set_member_exec(acc, src[i].0.clone(), v);
        i = i + 1;
    }
    assert(sv.take(n as int) =~= sv);
}

// ---------------------------------------------------------------------------
// The rewrite, executably
// ---------------------------------------------------------------------------
/// Whether a value is the string `"null"`.
fn is_null_name(v: &JsonValue) -> (b: bool)
    ensures
        b == (json_view(*v) == null_name()),
{
    match v {
        JsonValue::Str(s) => key_is(s.as_str(), "null"),
        _ => false,
    }
}

/// Write the `type` keyword (see `rewrite_type`).
fn rewrite_type_exec(value: &JsonValue, out: &mut Vec<(String, JsonValue)>)
    ensures
        members_view(final(out)@) == rewrite_type(json_view(*value), members_view(old(out)@)),
{
    proof {
        lemma_json_view(*value);
    }
    match value {
        JsonValue::Array(arr) => {
            let ghost av = values_view(arr@);
            let mut chosen: Option<usize> = None;
            let mut nullable = false;
            let n = arr.len();
            let mut i: usize = 0;
            while i < n
                invariant
                    n == arr@.len(),
                    i <= n,
                    av == values_view(arr@),
                    match chosen {
                        Some(c) => c < i && type_choice(av.take(i as int)) == Some(av[c as int]),
                        None => type_choice(av.take(i as int)) is None,
                    },
                    nullable == names_null(av.take(i as int)),
                decreases n - i,
            {
                let ghost s0 = av.take(i as int);
                let ghost s1 = av.take(i + 1);
                proof {
                    assert(s1.drop_last() =~= s0);
                    assert(s1.last() == av[i as int]);
                }
                let is_null = is_null_name(&arr[i]);
                if is_null {
                    nullable = true;
                } else if chosen.is_none() {
                    chosen = Some(i);
                }
                proof {
                    if names_null(s0) {
                        let w = choose|w: int| 0 <= w < s0.len() && s0[w] == null_name();
                        assert(s1[w] == s0[w]);
                    }
                    if is_null {
                        assert(s1[i as int] == null_name());
                    }
                    if names_null(s1) && !is_null {
                        let w = choose|w: int| 0 <= w < s1.len() && s1[w] == null_name();
                        assert(w != i);
                        assert(s0[w] == s1[w]);
                    }
                }
                i = i + 1;
            }
            assert(av.take(n as int) =~= av);
            match chosen {
                Some(c) => {
                    let t = copy_json(&arr[c]);
                    set_member_exec(out, String::from_str("type"), t);
                },
                None => {},
            }
            if nullable {
                set_member_exec(out, String::from_str("nullable"), JsonValue::Bool(true));
            }
        },
        _ => {
            let t = copy_json(value);
            set_member_exec(out, String::from_str("type"), t);
        },
    }
}

/// Whether an `anyOf` member is `{"type": "null"}` and nothing else.
fn is_bare_null_exec(item: &JsonValue) -> (b: bool)
    ensures
        b == is_bare_null(json_view(*item)),
{
    proof {
        lemma_json_view(*item);
    }
    match item {
        JsonValue::Object(m) => {
            let ghost mv = members_view(m@);
            proof {
                lemma_find_member(mv, "type"@);
            }
            let t = find_member_exec(m, "type");
            let typed_null = match t {
                Some(i) => {
                    assert(mv[i as int].1 == json_view(m@[i as int].1));
                    is_null_name(&m[i].1)
                },
                None => false,
            };
            if !typed_null {
                return false;
            }
            let n = m.len();
            let mut i: usize = 0;
            while i < n
                invariant
                    n == m@.len(),
                    i <= n,
                    mv == members_view(m@),
                    json_view(*item) == JsonView::Object(mv),
                    member_value(mv, "type"@) == Some(null_name()),
                    forall|t: int| 0 <= t < i ==> #[trigger] mv[t].0 == "type"@,
                decreases n - i,
            {
                assert(mv[i as int].0 == m@[i as int].0@);
                if !key_is(m[i].0.as_str(), "type") {
                    return false;
                }
                i = i + 1;
            }
            true
        },
        _ => false,
    }
}

/// The members of a list that are not bare nulls.
fn keep_non_null(arr: &Vec<JsonValue>) -> (r: Vec<JsonValue>)
    ensures
        values_view(r@) == non_null(values_view(arr@)),
{
    let ghost av = values_view(arr@);
    let mut out: Vec<JsonValue> = Vec::new();
    let n = arr.len();
    let mut i: usize = 0;
    assert(av.take(0) =~= Seq::<JsonView>::empty());
    assert(values_view(out@) =~= Seq::<JsonView>::empty());
    while i < n
        invariant
            n == arr@.len(),
            i <= n,
            av == values_view(arr@),
            values_view(out@) == non_null(av.take(i as int)),
        decreases n - i,
    {
        proof {
            assert(av.take(i + 1).drop_last() =~= av.take(i as int));
            assert(av.take(i + 1).last() == av[i as int]);
        }
        if !is_bare_null_exec(&arr[i]) {
            let c = copy_json(&arr[i]);
            let ghost prev = out@;
            out.push(c);
            assert(values_view(out@) =~= values_view(prev).push(json_view(c)));
        }
        i = i + 1;
    }
    assert(av.take(n as int) =~= av);
    out
}

/// Lift bare nulls out of `anyOf` (see `lift_null`).
fn lift_null_exec(out: &mut Vec<(String, JsonValue)>)
    ensures
        members_view(final(out)@) == lift_null(members_view(old(out)@)),
{
    let ghost ov = members_view(out@);
    proof {
        lemma_find_member(ov, "anyOf"@);
    }
    let ai = match find_member_exec(out, "anyOf") {
        Some(i) => i,
        None => {
            return;
        },
    };
    proof {
        lemma_json_view(out@[ai as int].1);
    }
    let (kept, before) = match &out[ai].1 {
        JsonValue::Array(arr) => {
            let k = keep_non_null(arr);
            (k, arr.len())
        },
        _ => {
            return;
        },
    };
    let ghost arr_v = ov[ai as int].1->Array_0;
    let ghost kept_v = values_view(kept@);
    assert(kept_v == non_null(arr_v));
    let kept_len = kept.len();
    let kept_json = JsonValue::Array(kept);
    proof {
        lemma_json_view(kept_json);
    }
    set_member_exec(out, String::from_str("anyOf"), kept_json);
    let ghost o1 = members_view(out@);
    assert(o1 == ov.update(ai as int, ("anyOf"@, JsonView::Array(kept_v))));
    proof {
        lemma_find_member(o1, "anyOf"@);
        assert(o1[ai as int].0 == "anyOf"@);
        assert forall|t: int| 0 <= t < ai implies #[trigger] o1[t].0 != "anyOf"@ by {
            assert(o1[t] == ov[t]);
        }
    }
    if kept_len != before {
        add_if_absent_exec(out, String::from_str("nullable"), json_true());
    }
    let ghost o2 = members_view(out@);
    proof {
        lemma_find_member(o2, "anyOf"@);
        if kept_len != before {
            if find_member(o1, "nullable"@) is None {
                assert(o2 == o1.push(("nullable"@, JsonView::Bool(true))));
                assert(o2[ai as int] == o1[ai as int]);
                assert forall|t: int| 0 <= t < ai implies #[trigger] o2[t].0 != "anyOf"@ by {
                    assert(o2[t] == o1[t]);
                }
            }
        }
        assert(find_member(o2, "anyOf"@) == Some(ai as int));
        assert(o2[ai as int].1 == JsonView::Array(kept_v));
    }
    if kept_len == 0 {
        let _ = remove_member_exec(out, "anyOf");
    } else if kept_len == 1 {
        let single = remove_member_exec(out, "anyOf");
        match single {
            Some(JsonValue::Array(items)) => {
                proof {
                    lemma_json_view(JsonValue::Array(items));
                    assert(values_view(items@) == kept_v);
                    assert(items@.len() == 1);
                    lemma_json_view(items@[0]);
                }
                match &items[0] {
                    JsonValue::Object(sm) => {
                        add_all_absent_exec(out, sm);
                    },
                    _ => {},
                }
            },
            _ => {},
        }
    }
}

/// `true`.
fn json_true() -> (v: JsonValue)
    ensures
        json_view(v) == JsonView::Bool(true),
{
    JsonValue::Bool(true)
}

/// The definition name a `$ref` points at (see `ref_target`).
fn ref_target_exec(r: &str) -> (t: Option<String>)
    ensures
        match t {
            Some(name) => ref_target(r@) == Some(name@),
            None => ref_target(r@) is None,
        },
{
    proof {
        reveal_strlit("#/$defs/");
        reveal_strlit("#/definitions/");
    }
    let cs = chars_of(r);
    let defs_prefix = chars_of("#/$defs/");
    let definitions_prefix = chars_of("#/definitions/");
    let n = cs.len();
    if starts_with(cs.as_slice(), defs_prefix.as_slice()) {
        let name = string_from_range(cs.as_slice(), 8, n);
        assert(name@ =~= r@.skip(8));
        Some(name)
    } else if starts_with(cs.as_slice(), definitions_prefix.as_slice()) {
        let name = string_from_range(cs.as_slice(), 14, n);
        assert(name@ =~= r@.skip(14));
        Some(name)
    } else {
        None
    }
}

/// Whether a keyword is dropped wherever it occurs.
fn is_dropped(k: &str) -> (b: bool)
    ensures
        b == dropped_key(k@),
{
    key_is(k, "$schema") || key_is(k, "$id") || key_is(k, "$comment") || key_is(k, "$defs") || key_is(
        k,
        "definitions",
    ) || key_is(k, "additionalProperties") || key_is(k, "unevaluatedProperties") || key_is(
        k,
        "patternProperties",
    )
}

/// Rewrite a node at `depth` (see `walk`).
fn walk_exec(value: &JsonValue, defs: &Vec<(String, JsonValue)>, depth: u32) -> (r: JsonValue)
    ensures
        json_view(r) == walk(json_view(*value), members_view(defs@), depth as int),
    decreases 33 - depth, 2int, 0int,
{
    if depth > MAX_DEPTH {
        return JsonValue::Null;
    }
    proof {
        lemma_json_view(*value);
    }
    match value {
        JsonValue::Object(map) => {
            assert(json_view(*value) == JsonView::Object(members_view(map@)));
            walk_object_exec(map, defs, depth)
        },
        JsonValue::Array(arr) => {
            let ghost dv = members_view(defs@);
            let ghost av = values_view(arr@);
            let mut out: Vec<JsonValue> = Vec::new();
            let n = arr.len();
            let mut i: usize = 0;
            while i < n
                invariant
                    n == arr@.len(),
                    i <= n,
                    depth <= 32,
                    av == values_view(arr@),
                    dv == members_view(defs@),
                    out@.len() == i,
                    forall|k: int| 0 <= k < i ==> #[trigger] json_view(out@[k]) == walk(av[k], dv, depth + 1),
                decreases n - i,
            {
                let w = walk_exec(&arr[i], defs, depth + 1);
                out.push(w);
                i = i + 1;
            }
            let r = JsonValue::Array(out);
            proof {
                lemma_json_view(r);
                let w = walk(json_view(*value), dv, depth as int);
                assert(json_view(*value) == JsonView::Array(av));
                assert(w->Array_0 =~= values_view(out@));
            }
            r
        },
        _ => copy_json(value),
    }
}

/// Rewrite an object at `depth` (see `walk_object`).
fn walk_object_exec(map: &Vec<(String, JsonValue)>, defs: &Vec<(String, JsonValue)>, depth: u32) -> (r: JsonValue)
    requires
        depth <= 32,
    ensures
        json_view(r) == walk_object(members_view(map@), members_view(defs@), depth as int),
    decreases 33 - depth, 1int, map@.len(),
{
    let ghost mv = members_view(map@);
    let ghost dv = members_view(defs@);
    proof {
        lemma_find_member(mv, "$ref"@);
    }
    let ri = find_member_exec(map, "$ref");
    let reference: Option<String> = match ri {
        Some(i) => {
            proof {
                lemma_json_view(map@[i as int].1);
            }
            match &map[i].1 {
                JsonValue::Str(s) => Some(s.clone()),
                _ => None,
            }
        },
        None => None,
    };
    assert(match reference {
        Some(rs) => member_value(mv, "$ref"@) == Some(JsonView::Str(rs@)),
        None => !(member_value(mv, "$ref"@) matches Some(JsonView::Str(_))),
    });
    match reference {
        Some(rs) => {
            let ti = match ref_target_exec(rs.as_str()) {
                Some(name) => {
                    proof {
                        lemma_find_member(dv, name@);
                    }
                    find_member_exec(defs, name.as_str())
                },
                None => None,
            };
            match ti {
                Some(t) => {
                    assert(dv[t as int].1 == json_view(defs@[t as int].1));
                    let resolved = walk_exec(&defs[t].1, defs, depth + 1);
                    proof {
                        lemma_json_view(resolved);
                    }
                    match resolved {
                        JsonValue::Object(rm) => {
                            let mut rm = rm;
                            merge_siblings_exec(&mut rm, map, defs, depth);
                            let out = JsonValue::Object(rm);
                            proof {
                                lemma_json_view(out);
                            }
                            out
                        },
                        other => other,
                    }
                },
                None => {
                    let mut without = copy_members(map);
                    let _ = remove_member_exec(&mut without, "$ref");
                    proof {
                        lemma_remove_present(mv, "$ref"@);
                        assert(without@.len() == members_view(without@).len());
                    }
                    walk_object_exec(&without, defs, depth)
                },
            }
        },
        None => {
            let mut out = walk_members_exec(map, defs, depth);
            lift_null_exec(&mut out);
            let r = JsonValue::Object(out);
            proof {
                lemma_json_view(r);
            }
            r
        },
    }
}

/// Add the rewritten siblings of a resolved `$ref` (see `merge_siblings`).
fn merge_siblings_exec(
    rm: &mut Vec<(String, JsonValue)>,
    map: &Vec<(String, JsonValue)>,
    defs: &Vec<(String, JsonValue)>,
    depth: u32,
)
    requires
        depth <= 32,
    ensures
        members_view(final(rm)@) == merge_siblings(
            members_view(old(rm)@),
            members_view(map@),
            members_view(defs@),
            depth as int,
        ),
    decreases 33 - depth, 0int, map@.len(),
{
    let ghost mv = members_view(map@);
    let ghost dv = members_view(defs@);
    let ghost r0 = members_view(rm@);
    let n = map.len();
    let mut i: usize = 0;
    assert(mv.take(0) =~= Seq::<(Seq<char>, JsonView)>::empty());
    while i < n
        invariant
            n == map@.len(),
            i <= n,
            depth <= 32,
            mv == members_view(map@),
            dv == members_view(defs@),
            members_view(rm@) == merge_siblings(r0, mv.take(i as int), dv, depth as int),
        decreases n - i,
    {
        proof {
            assert(mv.take(i + 1).drop_last() =~= mv.take(i as int));
            assert(mv.take(i + 1).last() == mv[i as int]);
            assert(mv[i as int] == (map@[i as int].0@, json_view(map@[i as int].1)));
        }
        let k = map[i].0.as_str();
        if !key_is(k, "$ref") && !is_dropped(k) && find_member_exec(rm, k).is_none() {
            let w = walk_exec(&map[i].1, defs, depth + 1);
            let ghost prev = rm@;
            rm.push((map[i].0.clone(), w));
            assert(members_view(rm@) =~= members_view(prev).push((map@[i as int].0@, json_view(w))));
        }
        i = i + 1;
    }
    assert(mv.take(n as int) =~= mv);
}

/// Rewrite the members of an object (see `walk_members`).
fn walk_members_exec(map: &Vec<(String, JsonValue)>, defs: &Vec<(String, JsonValue)>, depth: u32) -> (r: Vec<
    (String, JsonValue),
>)
    requires
        depth <= 32,
    ensures
        members_view(r@) == walk_members(members_view(map@), members_view(defs@), depth as int),
    decreases 33 - depth, 0int, map@.len(),
{
    let ghost mv = members_view(map@);
    let ghost dv = members_view(defs@);
    let mut out: Vec<(String, JsonValue)> = Vec::new();
    let n = map.len();
    let mut i: usize = 0;
    assert(mv.take(0) =~= Seq::<(Seq<char>, JsonView)>::empty());
    assert(members_view(out@) =~= Seq::<(Seq<char>, JsonView)>::empty());
    while i < n
        invariant
            n == map@.len(),
            i <= n,
            depth <= 32,
            mv == members_view(map@),
            dv == members_view(defs@),
            members_view(out@) == walk_members(mv.take(i as int), dv, depth as int),
        decreases n - i,
    {
        proof {
            assert(mv.take(i + 1).drop_last() =~= mv.take(i as int));
            assert(mv.take(i + 1).last() == mv[i as int]);
            assert(mv[i as int] == (map@[i as int].0@, json_view(map@[i as int].1)));
        }
        let k = map[i].0.as_str();
        let v = &map[i].1;
        if is_dropped(k) {
        } else if key_is(k, "type") {
            rewrite_type_exec(v, &mut out);
        } else if key_is(k, "const") {
            let mut single: Vec<JsonValue> = Vec::new();
            single.push(copy_json(v));
            let e = JsonValue::Array(single);
            proof {
                lemma_json_view(e);
                assert(values_view(single@) =~= seq![json_view(*v)]);
            }
            set_member_exec(&mut out, String::from_str("enum"), e);
        } else if key_is(k, "oneOf") {
            let w = walk_exec(v, defs, depth + 1);
            set_member_exec(&mut out, String::from_str("anyOf"), w);
        } else {
            let w = walk_exec(v, defs, depth + 1);
            set_member_exec(&mut out, map[i].0.clone(), w);
        }
        i = i + 1;
    }
    assert(mv.take(n as int) =~= mv);
    out
}

/// The definitions of a root schema (see `schema_defs`).
fn extract_defs(schema: &JsonValue) -> (r: Vec<(String, JsonValue)>)
    ensures
        members_view(r@) == schema_defs(json_view(*schema)),
{
    proof {
        lemma_json_view(*schema);
    }
    let mut defs: Vec<(String, JsonValue)> = Vec::new();
    assert(members_view(defs@) =~= Seq::<(Seq<char>, JsonView)>::empty());
    match schema {
        JsonValue::Object(m) => {
            let ghost mv = members_view(m@);
            proof {
                lemma_find_member(mv, "$defs"@);
                lemma_find_member(mv, "definitions"@);
            }
            match find_member_exec(m, "$defs") {
                Some(i) => {
                    proof {
                        lemma_json_view(m@[i as int].1);
                    }
                    match &m[i].1 {
                        JsonValue::Object(d) => set_all_exec(&mut defs, d),
                        _ => {},
                    }
                },
                None => {},
            }
            match find_member_exec(m, "definitions") {
                Some(i) => {
                    proof {
                        lemma_json_view(m@[i as int].1);
                    }
                    match &m[i].1 {
                        JsonValue::Object(d2) => add_all_absent_exec(&mut defs, d2),
                        _ => {},
                    }
                },
                None => {},
            }
        },
        _ => {},
    }
    defs
}

/// Rewrite a tool's input schema into the subset Gemini accepts (see the
/// module documentation and `sanitized`).
pub fn sanitize(schema: &JsonValue) -> (r: JsonValue)
    ensures
        json_view(r) == sanitized(json_view(*schema)),
{
    let defs = extract_defs(schema);
    let out = walk_exec(schema, &defs, 0);
    proof {
        lemma_json_view(out);
    }
    match out {
        JsonValue::Object(m) => {
            let mut m = m;
            let _ = remove_member_exec(&mut m, "$schema");
            let _ = remove_member_exec(&mut m, "$defs");
            let _ = remove_member_exec(&mut m, "definitions");
            let _ = remove_member_exec(&mut m, "$id");
            let _ = remove_member_exec(&mut m, "$comment");
            let r = JsonValue::Object(m);
            proof {
                lemma_json_view(r);
            }
            r
        },
        other => other,
    }
}

// ---------------------------------------------------------------------------
// What the rewrite guarantees
// ---------------------------------------------------------------------------
/// Keywords that must not appear anywhere in a rewritten schema.
pub open spec fn rejected_key(k: Seq<char>) -> bool {
    dropped_key(k) || k == "$ref"@ || k == "const"@ || k == "oneOf"@
}

/// A member Gemini accepts as far as keywords go.
pub open spec fn clean_member(k: Seq<char>, v: JsonView) -> bool {
    !rejected_key(k) && !(k == "type"@ && v is Array)
}

/// No rejected keyword and no list-valued `type`, at any depth.
pub open spec fn gemini_clean(v: JsonView) -> bool
    decreases v, 1int,
{
    match v {
        JsonView::Object(m) => clean_members(m),
        JsonView::Array(a) => forall|i: int| #![trigger a[i]] 0 <= i < a.len() ==> gemini_clean(a[i]),
        _ => true,
    }
}

/// Every member is clean, and so is its value.
pub open spec fn clean_members(m: Members) -> bool
    decreases m, 0int,
{
    forall|i: int| #![trigger m[i]] 0 <= i < m.len() ==> clean_member(m[i].0, m[i].1) && gemini_clean(m[i].1)
}

/// A scalar: neither array nor object.
pub open spec fn is_scalar(v: JsonView) -> bool {
    !(v is Array) && !(v is Object)
}

/// A `type` given as a name or a list of names.
pub open spec fn type_value_ok(v: JsonView) -> bool {
    match v {
        JsonView::Str(_) => true,
        JsonView::Array(a) => forall|i: int| 0 <= i < a.len() ==> #[trigger] a[i] is Str,
        _ => false,
    }
}

/// The shape the rewrite is meant for: `type` is a name or a list of
/// names, `const` is a scalar, `$ref` is a string, and a sibling of a
/// `$ref` is neither `const` nor `oneOf` (they would be added unrenamed)
/// and a sibling `type` is a scalar (a list would be added as it is) — at
/// any depth. Siblings that are dropped keywords are allowed: they are
/// dropped there too.
pub open spec fn plain(v: JsonView) -> bool
    decreases v, 1int,
{
    match v {
        JsonView::Object(m) => plain_members(m) && ref_siblings_ok(m),
        JsonView::Array(a) => forall|i: int| #![trigger a[i]] 0 <= i < a.len() ==> plain(a[i]),
        _ => true,
    }
}

/// Every member has the intended shape, and so has its value.
pub open spec fn plain_members(m: Members) -> bool
    decreases m, 0int,
{
    forall|i: int| #![trigger m[i]] 0 <= i < m.len() ==> plain_member(m[i].0, m[i].1) && plain(m[i].1)
}

/// A member's own shape.
pub open spec fn plain_member(k: Seq<char>, v: JsonView) -> bool {
    &&& (k == "const"@ ==> is_scalar(v))
    &&& (k == "type"@ ==> type_value_ok(v))
    &&& (k == "$ref"@ ==> v is Str)
}

/// The siblings of a `$ref` (if any) are dropped keywords or keywords
/// that are not rejected, and a sibling `type` is a scalar.
pub open spec fn ref_siblings_ok(m: Members) -> bool {
    member_value(m, "$ref"@) is Some ==> forall|i: int|
        0 <= i < m.len() && #[trigger] m[i].0 != "$ref"@ ==> sibling_ok(m[i].0, m[i].1)
}

/// A sibling of a `$ref`: a dropped keyword, or one that is not rejected
/// (a `type` being a scalar).
pub open spec fn sibling_ok(k: Seq<char>, v: JsonView) -> bool {
    (dropped_key(k) || !rejected_key(k)) && (k == "type"@ ==> is_scalar(v))
}

/// Every definition has the intended shape.
pub open spec fn all_plain(defs: Members) -> bool {
    forall|i: int| 0 <= i < defs.len() ==> #[trigger] plain(defs[i].1)
}

/// The keywords the rewrite writes are not rejected ones.
proof fn lemma_written_keys()
    ensures
        !rejected_key("type"@),
        !rejected_key("enum"@),
        !rejected_key("anyOf"@),
        !rejected_key("nullable"@),
        "enum"@ != "type"@,
        "anyOf"@ != "type"@,
        "nullable"@ != "type"@,
{
    reveal_strlit("type");
    reveal_strlit("enum");
    reveal_strlit("anyOf");
    reveal_strlit("nullable");
    reveal_strlit("$schema");
    reveal_strlit("$id");
    reveal_strlit("$comment");
    reveal_strlit("$defs");
    reveal_strlit("definitions");
    reveal_strlit("additionalProperties");
    reveal_strlit("unevaluatedProperties");
    reveal_strlit("patternProperties");
    reveal_strlit("$ref");
    reveal_strlit("const");
    reveal_strlit("oneOf");
    assert("type"@.len() == 4 && "type"@[0] == 't');
    assert("enum"@.len() == 4 && "enum"@[0] == 'e');
    assert("anyOf"@.len() == 5 && "anyOf"@[0] == 'a');
    assert("nullable"@.len() == 8 && "nullable"@[0] == 'n');
    assert("$schema"@.len() == 7);
    assert("$id"@.len() == 3);
    assert("$comment"@.len() == 8 && "$comment"@[0] == '$');
    assert("$defs"@.len() == 5 && "$defs"@[0] == '$');
    assert("definitions"@.len() == 11);
    assert("additionalProperties"@.len() == 20);
    assert("unevaluatedProperties"@.len() == 21);
    assert("patternProperties"@.len() == 17);
    assert("$ref"@.len() == 4 && "$ref"@[0] == '$');
    assert("const"@.len() == 5 && "const"@[0] == 'c');
    assert("oneOf"@.len() == 5 && "oneOf"@[0] == 'o');
}

proof fn lemma_set_member_clean(m: Members, k: Seq<char>, v: JsonView)
    requires
        clean_members(m),
        clean_member(k, v),
        gemini_clean(v),
    ensures
        clean_members(set_member(m, k, v)),
{
    lemma_find_member(m, k);
    let r = set_member(m, k, v);
    assert forall|j: int| 0 <= j < r.len() implies clean_member(r[j].0, r[j].1) && #[trigger] gemini_clean(r[j].1) by {
        if j < m.len() && r[j] == m[j] {
            assert(gemini_clean(m[j].1));
        }
    }
}

proof fn lemma_add_if_absent_clean(m: Members, k: Seq<char>, v: JsonView)
    requires
        clean_members(m),
        clean_member(k, v),
        gemini_clean(v),
    ensures
        clean_members(add_if_absent(m, k, v)),
{
    let r = add_if_absent(m, k, v);
    assert forall|j: int| 0 <= j < r.len() implies clean_member(r[j].0, r[j].1) && #[trigger] gemini_clean(r[j].1) by {
        if j < m.len() {
            assert(r[j] == m[j]);
            assert(gemini_clean(m[j].1));
        }
    }
}

proof fn lemma_remove_member_clean(m: Members, k: Seq<char>)
    requires
        clean_members(m),
    ensures
        clean_members(remove_member(m, k)),
{
    lemma_find_member(m, k);
    let r = remove_member(m, k);
    match find_member(m, k) {
        Some(i) => {
            assert forall|j: int| 0 <= j < r.len() implies clean_member(r[j].0, r[j].1) && #[trigger] gemini_clean(r[j].1) by {
                if j < i {
                    assert(r[j] == m[j]);
                    assert(gemini_clean(m[j].1));
                } else {
                    assert(r[j] == m[j + 1]);
                    assert(gemini_clean(m[j + 1].1));
                }
            }
        },
        None => {},
    }
}

proof fn lemma_add_all_absent_clean(acc: Members, src: Members)
    requires
        clean_members(acc),
        clean_members(src),
    ensures
        clean_members(add_all_absent(acc, src)),
    decreases src.len(),
{
    if src.len() > 0 {
        let d = src.drop_last();
        assert forall|j: int| 0 <= j < d.len() implies clean_member(d[j].0, d[j].1) && #[trigger] gemini_clean(d[j].1) by {
            assert(d[j] == src[j]);
            assert(gemini_clean(src[j].1));
        }
        lemma_add_all_absent_clean(acc, d);
        assert(gemini_clean(src[src.len() - 1].1));
        lemma_add_if_absent_clean(add_all_absent(acc, d), src.last().0, src.last().1);
    }
}

/// `type_choice` picks an entry of the list.
proof fn lemma_type_choice(arr: Seq<JsonView>)
    ensures
        type_choice(arr) matches Some(t) ==> exists|i: int| 0 <= i < arr.len() && arr[i] == t,
    decreases arr.len(),
{
    if arr.len() > 0 {
        let d = arr.drop_last();
        lemma_type_choice(d);
        if type_choice(d) is Some {
            let i = choose|i: int| 0 <= i < d.len() && d[i] == type_choice(d)->0;
            assert(arr[i] == d[i]);
        } else {
            assert(arr[arr.len() - 1] == arr.last());
        }
    }
}

proof fn lemma_rewrite_type_clean(value: JsonView, out: Members)
    requires
        clean_members(out),
        type_value_ok(value),
    ensures
        clean_members(rewrite_type(value, out)),
{
    lemma_written_keys();
    match value {
        JsonView::Array(arr) => {
            lemma_type_choice(arr);
            let o1 = match type_choice(arr) {
                Some(t) => {
                    let i = choose|i: int| 0 <= i < arr.len() && arr[i] == t;
                    assert(arr[i] is Str);
                    lemma_set_member_clean(out, "type"@, t);
                    set_member(out, "type"@, t)
                },
                None => out,
            };
            if names_null(arr) {
                lemma_set_member_clean(o1, "nullable"@, JsonView::Bool(true));
            }
        },
        _ => {
            lemma_set_member_clean(out, "type"@, value);
        },
    }
}

/// Every entry left by `non_null` is an entry of the list.
proof fn lemma_non_null_clean(arr: Seq<JsonView>)
    requires
        forall|i: int| 0 <= i < arr.len() ==> #[trigger] gemini_clean(arr[i]),
    ensures
        forall|i: int| 0 <= i < non_null(arr).len() ==> #[trigger] gemini_clean(non_null(arr)[i]),
    decreases arr.len(),
{
    if arr.len() > 0 {
        let d = arr.drop_last();
        assert forall|i: int| 0 <= i < d.len() implies #[trigger] gemini_clean(d[i]) by {
            assert(d[i] == arr[i]);
        }
        lemma_non_null_clean(d);
        assert(gemini_clean(arr[arr.len() - 1]));
        let nd = non_null(d);
        if !is_bare_null(arr.last()) {
            let r = nd.push(arr.last());
            assert forall|i: int| 0 <= i < r.len() implies #[trigger] gemini_clean(r[i]) by {
                if i < nd.len() {
                    assert(r[i] == nd[i]);
                }
            }
            assert(non_null(arr) == r);
        } else {
            assert(non_null(arr) == nd);
        }
    }
}

proof fn lemma_lift_null_clean(out: Members)
    requires
        clean_members(out),
    ensures
        clean_members(lift_null(out)),
{
    lemma_written_keys();
    lemma_find_member(out, "anyOf"@);
    match member_value(out, "anyOf"@) {
        Some(JsonView::Array(arr)) => {
            let i = find_member(out, "anyOf"@)->0;
            assert(gemini_clean(out[i].1));
            lemma_non_null_clean(arr);
            let kept = non_null(arr);
            assert forall|j: int| 0 <= j < kept.len() implies gemini_clean(#[trigger] kept[j]) by {}
            assert(gemini_clean(JsonView::Array(kept)));
            lemma_set_member_clean(out, "anyOf"@, JsonView::Array(kept));
            let o1 = set_member(out, "anyOf"@, JsonView::Array(kept));
            let o2 = if kept.len() != arr.len() {
                lemma_add_if_absent_clean(o1, "nullable"@, JsonView::Bool(true));
                add_if_absent(o1, "nullable"@, JsonView::Bool(true))
            } else {
                o1
            };
            lemma_remove_member_clean(o2, "anyOf"@);
            if kept.len() == 1 {
                let o3 = remove_member(o2, "anyOf"@);
                assert(gemini_clean(kept[0]));
                match kept[0] {
                    JsonView::Object(sm) => {
                        lemma_add_all_absent_clean(o3, sm);
                    },
                    _ => {},
                }
            }
        },
        _ => {},
    }
}

/// A prefix of plain members is plain.
proof fn lemma_plain_members_prefix(m: Members)
    requires
        plain_members(m),
        m.len() > 0,
    ensures
        plain_members(m.drop_last()),
        plain_member(m.last().0, m.last().1),
        plain(m.last().1),
{
    let d = m.drop_last();
    assert forall|j: int| 0 <= j < d.len() implies plain_member(d[j].0, d[j].1) && #[trigger] plain(d[j].1) by {
        assert(d[j] == m[j]);
        assert(plain(m[j].1));
    }
    assert(plain(m[m.len() - 1].1));
}

/// Every rewritten node is clean.
pub proof fn lemma_walk_clean(v: JsonView, defs: Members, d: int)
    requires
        plain(v),
        all_plain(defs),
    ensures
        gemini_clean(walk(v, defs, d)),
    decreases 33 - d, 2int, 0int,
{
    if d <= 32 {
        match v {
            JsonView::Object(m) => lemma_walk_object_clean(m, defs, d),
            JsonView::Array(a) => {
                let w = walk(v, defs, d);
                assert forall|i: int| 0 <= i < w->Array_0.len() implies gemini_clean(#[trigger] w->Array_0[i]) by {
                    assert(plain(a[i]));
                    lemma_walk_clean(a[i], defs, d + 1);
                }
                assert(gemini_clean(w));
            },
            _ => {},
        }
    }
}

/// Every rewritten object is clean.
pub proof fn lemma_walk_object_clean(m: Members, defs: Members, d: int)
    requires
        plain_members(m),
        ref_siblings_ok(m),
        all_plain(defs),
    ensures
        gemini_clean(walk_object(m, defs, d)),
    decreases 33 - d, 1int, m.len(),
{
    if d <= 32 {
        lemma_find_member(m, "$ref"@);
        match member_value(m, "$ref"@) {
            Some(JsonView::Str(r)) => {
                let target = match ref_target(r) {
                    Some(name) => member_value(defs, name),
                    None => None,
                };
                match target {
                    Some(t) => {
                        let name = ref_target(r)->0;
                        lemma_find_member(defs, name);
                        let ti = find_member(defs, name)->0;
                        assert(plain(defs[ti].1));
                        lemma_walk_clean(t, defs, d + 1);
                        match walk(t, defs, d + 1) {
                            JsonView::Object(rm) => {
                                assert forall|j: int|
                                    0 <= j < m.len() && #[trigger] m[j].0 != "$ref"@ implies sibling_ok(m[j].0, m[j].1) && plain(m[j].1) by {
                                    assert(plain(m[j].1));
                                }
                                lemma_merge_siblings_clean(rm, m, defs, d);
                            },
                            _ => {},
                        }
                    },
                    None => {
                        let m2 = remove_member(m, "$ref"@);
                        lemma_remove_present(m, "$ref"@);
                        let i = find_member(m, "$ref"@)->0;
                        assert forall|j: int| 0 <= j < m2.len() implies plain_member(m2[j].0, m2[j].1) && #[trigger] plain(m2[j].1) by {
                            if j < i {
                                assert(m2[j] == m[j]);
                                assert(plain(m[j].1));
                            } else {
                                assert(m2[j] == m[j + 1]);
                                assert(plain(m[j + 1].1));
                            }
                        }
                        if member_value(m2, "$ref"@) is Some {
                            assert forall|j: int| 0 <= j < m2.len() && #[trigger] m2[j].0 != "$ref"@ implies sibling_ok(m2[j].0, m2[j].1) by {
                                if j < i {
                                    assert(m2[j] == m[j]);
                                } else {
                                    assert(m2[j] == m[j + 1]);
                                }
                            }
                        }
                        lemma_walk_object_clean(m2, defs, d);
                    },
                }
            },
            Some(_) => {
                let i = find_member(m, "$ref"@)->0;
                assert(plain(m[i].1));
            },
            None => {
                lemma_walk_members_clean(m, defs, d);
                lemma_lift_null_clean(walk_members(m, defs, d));
            },
        }
    }
}

/// The rewritten members of an object without `$ref` are clean.
proof fn lemma_walk_members_clean(m: Members, defs: Members, d: int)
    requires
        plain_members(m),
        forall|i: int| 0 <= i < m.len() ==> #[trigger] m[i].0 != "$ref"@,
        all_plain(defs),
    ensures
        clean_members(walk_members(m, defs, d)),
    decreases 33 - d, 0int, m.len(),
{
    lemma_written_keys();
    if m.len() > 0 && d <= 32 {
        let dl = m.drop_last();
        lemma_plain_members_prefix(m);
        assert forall|i: int| 0 <= i < dl.len() implies #[trigger] dl[i].0 != "$ref"@ by {
            assert(dl[i] == m[i]);
        }
        lemma_walk_members_clean(dl, defs, d);
        let acc = walk_members(dl, defs, d);
        let k = m.last().0;
        let v = m.last().1;
        assert(m[m.len() - 1].0 != "$ref"@);
        if dropped_key(k) {
        } else if k == "type"@ {
            lemma_rewrite_type_clean(v, acc);
        } else if k == "const"@ {
            let e = JsonView::Array(seq![v]);
            assert(gemini_clean(seq![v][0]));
            lemma_set_member_clean(acc, "enum"@, e);
        } else if k == "oneOf"@ {
            lemma_walk_clean(v, defs, d + 1);
            lemma_set_member_clean(acc, "anyOf"@, walk(v, defs, d + 1));
        } else {
            lemma_walk_clean(v, defs, d + 1);
            lemma_set_member_clean(acc, k, walk(v, defs, d + 1));
        }
    }
}

/// Adding the rewritten siblings of a `$ref` keeps the members clean.
proof fn lemma_merge_siblings_clean(rm: Members, m: Members, defs: Members, d: int)
    requires
        clean_members(rm),
        forall|j: int| 0 <= j < m.len() && #[trigger] m[j].0 != "$ref"@ ==> sibling_ok(m[j].0, m[j].1) && plain(m[j].1),
        all_plain(defs),
    ensures
        clean_members(merge_siblings(rm, m, defs, d)),
    decreases 33 - d, 0int, m.len(),
{
    if m.len() > 0 && d <= 32 {
        let dl = m.drop_last();
        assert forall|j: int| 0 <= j < dl.len() && #[trigger] dl[j].0 != "$ref"@ implies sibling_ok(dl[j].0, dl[j].1) && plain(dl[j].1) by {
            assert(dl[j] == m[j]);
        }
        lemma_merge_siblings_clean(rm, dl, defs, d);
        let acc = merge_siblings(rm, dl, defs, d);
        let k = m.last().0;
        if !(k == "$ref"@ || dropped_key(k) || find_member(acc, k) is Some) {
            assert(m[m.len() - 1].0 != "$ref"@);
            let v = m.last().1;
            lemma_walk_clean(v, defs, d + 1);
            let r = acc.push((k, walk(v, defs, d + 1)));
            assert forall|j: int| 0 <= j < r.len() implies clean_member(r[j].0, r[j].1) && #[trigger] gemini_clean(r[j].1) by {
                if j < acc.len() {
                    assert(r[j] == acc[j]);
                    assert(gemini_clean(acc[j].1));
                }
            }
        }
    }
}

/// Definitions gathered from a plain schema are plain.
proof fn lemma_schema_defs_plain(schema: JsonView)
    requires
        plain(schema),
    ensures
        all_plain(schema_defs(schema)),
{
    reveal_with_fuel(plain, 3);
    match schema {
        JsonView::Object(m) => {
            lemma_find_member(m, "$defs"@);
            lemma_find_member(m, "definitions"@);
            let a = match member_value(m, "$defs"@) {
                Some(JsonView::Object(dm)) => {
                    let i = find_member(m, "$defs"@)->0;
                    assert(plain(m[i].1));
                    lemma_set_all_plain(Seq::empty(), dm);
                    set_all(Seq::empty(), dm)
                },
                _ => Seq::empty(),
            };
            match member_value(m, "definitions"@) {
                Some(JsonView::Object(d2)) => {
                    let i = find_member(m, "definitions"@)->0;
                    assert(plain(m[i].1));
                    lemma_add_all_absent_plain(a, d2);
                },
                _ => {},
            }
        },
        _ => {},
    }
}

proof fn lemma_set_all_plain(acc: Members, src: Members)
    requires
        all_plain(acc),
        plain_members(src),
    ensures
        all_plain(set_all(acc, src)),
    decreases src.len(),
{
    if src.len() > 0 {
        lemma_plain_members_prefix(src);
        lemma_set_all_plain(acc, src.drop_last());
        let a = set_all(acc, src.drop_last());
        lemma_find_member(a, src.last().0);
        let r = set_all(acc, src);
        assert forall|j: int| 0 <= j < r.len() implies #[trigger] plain(r[j].1) by {
            if j < a.len() && r[j] == a[j] {
                assert(plain(a[j].1));
            }
        }
    }
}

proof fn lemma_add_all_absent_plain(acc: Members, src: Members)
    requires
        all_plain(acc),
        plain_members(src),
    ensures
        all_plain(add_all_absent(acc, src)),
    decreases src.len(),
{
    if src.len() > 0 {
        lemma_plain_members_prefix(src);
        lemma_add_all_absent_plain(acc, src.drop_last());
        let a = add_all_absent(acc, src.drop_last());
        let r = add_all_absent(acc, src);
        assert forall|j: int| 0 <= j < r.len() implies #[trigger] plain(r[j].1) by {
            if j < a.len() {
                assert(r[j] == a[j]);
                assert(plain(a[j].1));
            }
        }
    }
}

/// No keyword Gemini rejects survives the rewrite, at any depth, and no
/// `type` is left a list — for every schema of the intended shape (see
/// `plain`).
pub proof fn law_sanitized_schema_has_no_rejected_keywords(schema: JsonView)
    requires
        plain(schema),
    ensures
        gemini_clean(sanitized(schema)),
{
    lemma_schema_defs_plain(schema);
    lemma_walk_clean(schema, schema_defs(schema), 0);
    let out = walk(schema, schema_defs(schema), 0);
    match out {
        JsonView::Object(m) => {
            lemma_remove_member_clean(m, "$schema"@);
            let m1 = remove_member(m, "$schema"@);
            lemma_remove_member_clean(m1, "$defs"@);
            let m2 = remove_member(m1, "$defs"@);
            lemma_remove_member_clean(m2, "definitions"@);
            let m3 = remove_member(m2, "definitions"@);
            lemma_remove_member_clean(m3, "$id"@);
            let m4 = remove_member(m3, "$id"@);
            lemma_remove_member_clean(m4, "$comment"@);
        },
        _ => {},
    }
}

} // verus!
