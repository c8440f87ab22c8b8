//! JSON values as the library holds them.
use vstd::prelude::*;

verus! {

/// A JSON value. A number is held as its JSON text.
pub enum JsonValue {
    Null,
    Bool(bool),
    Number(String),
    Str(String),
    Array(Vec<JsonValue>),
    Object(Vec<JsonMember>),
}

/// One member of a JSON object.
pub struct JsonMember {
    pub key: String,
    pub value: JsonValue,
}

pub enum JsonView {
    Null,
    Bool(bool),
    Number(Seq<char>),
    Str(Seq<char>),
    Array(Seq<JsonView>),
    Object(Seq<(Seq<char>, JsonView)>),
}

pub open spec fn json_view(v: JsonValue) -> JsonView
    decreases v, 0nat,
{
    match v {
        JsonValue::Null => JsonView::Null,
        JsonValue::Bool(b) => JsonView::Bool(b),
        JsonValue::Number(n) => JsonView::Number(n@),
        JsonValue::Str(s) => JsonView::Str(s@),
        JsonValue::Array(items) => JsonView::Array(items_view(items@, items@.len())),
        JsonValue::Object(members) => JsonView::Object(members_view(members@, members@.len())),
    }
}

pub open spec fn items_view(items: Seq<JsonValue>, n: nat) -> Seq<JsonView>
    decreases items, n,
{
    if n == 0 || n > items.len() {
        Seq::empty()
    } else {
        items_view(items, (n - 1) as nat).push(json_view(items[n - 1]))
    }
}

pub open spec fn members_view(members: Seq<JsonMember>, n: nat) -> Seq<(Seq<char>, JsonView)>
    decreases members, n,
{
    if n == 0 || n > members.len() {
        Seq::empty()
    } else {
        members_view(members, (n - 1) as nat).push(
            (members[n - 1].key@, json_view(members[n - 1].value)),
        )
    }
}

} // verus!

verus! {

/// The members of a JSON object seen as key/value pairs.
pub open spec fn object_view(members: Seq<JsonMember>) -> Seq<(Seq<char>, JsonView)> {
    members_view(members, members.len())
}

/// The elements of a JSON array seen as views.
pub open spec fn array_view(items: Seq<JsonValue>) -> Seq<JsonView> {
    items_view(items, items.len())
}

pub proof fn lemma_items_view(items: Seq<JsonValue>, n: nat)
    requires
        n <= items.len(),
    ensures
        items_view(items, n).len() == n,
        forall|i: int| 0 <= i < n ==> #[trigger] items_view(items, n)[i] == json_view(items[i]),
    decreases n,
{
    if n > 0 {
        lemma_items_view(items, (n - 1) as nat);
    }
}

pub proof fn lemma_members_view(members: Seq<JsonMember>, n: nat)
    requires
        n <= members.len(),
    ensures
        members_view(members, n).len() == n,
        forall|i: int|
            0 <= i < n ==> #[trigger] members_view(members, n)[i] == (
                members[i].key@,
                json_view(members[i].value),
            ),
    decreases n,
{
    if n > 0 {
        lemma_members_view(members, (n - 1) as nat);
    }
}

pub proof fn lemma_object_view(members: Seq<JsonMember>)
    ensures
        object_view(members).len() == members.len(),
        forall|i: int|
            0 <= i < members.len() ==> #[trigger] object_view(members)[i] == (
                members[i].key@,
                json_view(members[i].value),
            ),
{
    lemma_members_view(members, members.len());
}

pub proof fn lemma_array_view(items: Seq<JsonValue>)
    ensures
        array_view(items).len() == items.len(),
        forall|i: int| 0 <= i < items.len() ==> #[trigger] array_view(items)[i] == json_view(items[i]),
{
    lemma_items_view(items, items.len());
}

/// A copy of a JSON value.
pub fn clone_json(v: &JsonValue) -> (r: JsonValue)
    ensures
        json_view(r) == json_view(*v),
    decreases v,
{
    match v {
        JsonValue::Null => JsonValue::Null,
        JsonValue::Bool(b) => JsonValue::Bool(*b),
        JsonValue::Number(n) => JsonValue::Number(n.clone()),
        JsonValue::Str(s) => JsonValue::Str(s.clone()),
        JsonValue::Array(items) => {
            let mut out: Vec<JsonValue> = Vec::new();
            let mut i: usize = 0;
            while i < items.len()
                invariant
                    *v == JsonValue::Array(*items),
                    i <= items@.len(),
                    out@.len() == i,
                    forall|k: int| 0 <= k < i ==> json_view(#[trigger] out@[k]) == json_view(items@[k]),
                decreases items.len() - i,
            {
                proof {
                    vstd::std_specs::vec::axiom_vec_index_decreases(*items, i as int);
                    assert(decreases_to!(*v => (*v)->Array_0));
                    assert(decreases_to!(*v => items[i as int]));
                }
                let c = clone_json(&items[i]);
                out.push(c);
                i = i + 1;
            }
            proof {
                lemma_array_view(items@);
                lemma_array_view(out@);
                assert(array_view(out@) =~= array_view(items@));
            }
            JsonValue::Array(out)
        },
        JsonValue::Object(members) => {
            let out = clone_members(members);
            JsonValue::Object(out)
        },
    }
}

/// A copy of the members of a JSON object.
pub fn clone_members(members: &Vec<JsonMember>) -> (r: Vec<JsonMember>)
    ensures
        object_view(r@) == object_view(members@),
    decreases members,
{
    let mut out: Vec<JsonMember> = Vec::new();
    let mut i: usize = 0;
    while i < members.len()
        invariant
            i <= members@.len(),
            out@.len() == i,
            forall|k: int|
                0 <= k < i ==> (#[trigger] out@[k]).key@ == members@[k].key@ && json_view(
                    out@[k].value,
                ) == json_view(members@[k].value),
        decreases members.len() - i,
    {
        let m = &members[i];
        let c = JsonMember { key: m.key.clone(), value: clone_json(&m.value) };
        out.push(c);
        i = i + 1;
    }
    proof {
        lemma_object_view(members@);
        lemma_object_view(out@);
        assert(object_view(out@) =~= object_view(members@));
    }
    out
}

/// The members other than those named `key`, in order.
pub open spec fn without_key(ms: Seq<(Seq<char>, JsonView)>, key: Seq<char>) -> Seq<(Seq<char>, JsonView)> {
    ms.filter(|m: (Seq<char>, JsonView)| m.0 != key)
}

/// A value with the members named `key` of an object taken out; any other
/// value as it is.
pub fn without_member(v: &JsonValue, key: &str) -> (r: JsonValue)
    ensures
        json_view(r) == match json_view(*v) {
            JsonView::Object(ms) => JsonView::Object(without_key(ms, key@)),
            other => other,
        },
{
    match v {
        JsonValue::Object(members) => {
            let ghost mv = object_view(members@);
            proof {
                lemma_object_view(members@);
            }
            let mut out: Vec<JsonMember> = Vec::new();
            let mut i: usize = 0;
            assert(mv.take(0).filter(|m: (Seq<char>, JsonView)| m.0 != key@) =~= Seq::<(Seq<char>, JsonView)>::empty());
            proof {
                lemma_object_view(out@);
            }
            while i < members.len()
                invariant
                    mv == object_view(members@),
                    mv.len() == members@.len(),
                    forall|k: int| 0 <= k < members@.len() ==> #[trigger] mv[k] == (members@[k].key@, json_view(members@[k].value)),
                    i <= members@.len(),
                    object_view(out@) == mv.take(i as int).filter(|m: (Seq<char>, JsonView)| m.0 != key@),
                decreases members.len() - i,
            {
                let ghost before = object_view(out@);
                assert(mv.take(i + 1).drop_last() =~= mv.take(i as int));
                proof {
                    mv.take(i as int).lemma_filter_push(mv[i as int], |m: (Seq<char>, JsonView)| m.0 != key@);
                    assert(mv.take(i as int).push(mv[i as int]) =~= mv.take(i + 1));
                }
                if !crate::text::str_eq(members[i].key.as_str(), key) {
                    let m = JsonMember { key: members[i].key.clone(), value: clone_json(&members[i].value) };
                    proof {
                        lemma_object_view(out@);
                        lemma_object_view(out@.push(m));
                        assert(object_view(out@.push(m)) =~= before.push(mv[i as int]));
                    }
                    out.push(m);
                }
                i = i + 1;
            }
            assert(mv.take(i as int) =~= mv);
            JsonValue::Object(out)
        },
        _ => clone_json(v),
    }
}

} // verus!
