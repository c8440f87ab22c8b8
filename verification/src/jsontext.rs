//! JSON values written as compact JSON text, the way `serde_json` writes
//! them: no white space, members and items in their order, and strings
//! quoted by `serde_json` itself.
use vstd::prelude::*;
use vstd::string::*;
use vstd::utf8::encode_utf8;
use crate::json::{JsonMember, JsonValue, JsonView, json_view, lemma_array_view, lemma_object_view};

verus! {

pub open spec fn hex_lower_digit(v: u32) -> char {
    if v < 10 {
        ((v + 48) as u32) as char
    } else {
        ((v + 87) as u32) as char
    }
}

/// How `serde_json` writes one character inside a string: `"` and `\`
/// escaped, the control characters with a short escape where one exists
/// and as `\u00XX` otherwise, everything else as it is.
pub open spec fn escaped_char(c: char) -> Seq<char> {
    if c == '"' {
        seq!['\\', '"']
    } else if c == '\\' {
        seq!['\\', '\\']
    } else if c == '\u{8}' {
        seq!['\\', 'b']
    } else if c == '\u{9}' {
        seq!['\\', 't']
    } else if c == '\u{a}' {
        seq!['\\', 'n']
    } else if c == '\u{c}' {
        seq!['\\', 'f']
    } else if c == '\u{d}' {
        seq!['\\', 'r']
    } else if (c as u32) < 0x20 {
        seq!['\\', 'u', '0', '0', hex_lower_digit((c as u32) / 16), hex_lower_digit((c as u32) % 16)]
    } else {
        seq![c]
    }
}

pub open spec fn escaped(s: Seq<char>) -> Seq<char>
    decreases s.len(),
{
    if s.len() == 0 {
        Seq::empty()
    } else {
        escaped(s.drop_last()) + escaped_char(s.last())
    }
}

/// The JSON text of a string.
pub open spec fn string_text(s: Seq<char>) -> Seq<char> {
    seq!['"'] + escaped(s) + seq!['"']
}

/// Calls `serde_json::to_string` on a string. The claim, from the crate's
/// source: the result is the string quoted, with the escapes of
/// `escaped_char`; writing a string cannot fail.
#[verifier::external_body]
fn quote_string(s: &str) -> (r: String)
    ensures
        r@ == string_text(s@),
{
    match serde_json::to_string(s) {
        Ok(text) => text,
        Err(_) => String::new(),
    }
}

/// The compact JSON text of a value.
pub open spec fn json_text(v: JsonView) -> Seq<char>
    decreases v, 0nat,
{
    match v {
        JsonView::Null => "null"@,
        JsonView::Bool(b) => if b {
            "true"@
        } else {
            "false"@
        },
        JsonView::Number(t) => t,
        JsonView::Str(s) => string_text(s),
        JsonView::Array(items) => "["@ + items_text(items, items.len()) + "]"@,
        JsonView::Object(ms) => "{"@ + members_text(ms, ms.len()) + "}"@,
    }
}

/// The text of the first `n` items, separated by commas.
pub open spec fn items_text(items: Seq<JsonView>, n: nat) -> Seq<char>
    decreases items, n,
{
    if n == 0 || n > items.len() {
        Seq::empty()
    } else if n == 1 {
        json_text(items[0])
    } else {
        items_text(items, (n - 1) as nat) + ","@ + json_text(items[n - 1])
    }
}

/// The text of the first `n` members, separated by commas.
pub open spec fn members_text(ms: Seq<(Seq<char>, JsonView)>, n: nat) -> Seq<char>
    decreases ms, n,
{
    if n == 0 || n > ms.len() {
        Seq::empty()
    } else if n == 1 {
        string_text(ms[0].0) + ":"@ + json_text(ms[0].1)
    } else {
        members_text(ms, (n - 1) as nat) + ","@ + string_text(ms[n - 1].0) + ":"@
            + json_text(ms[n - 1].1)
    }
}

/// Appends the compact JSON text of a value.
pub fn write_json(v: &JsonValue, out: &mut String)
    ensures
        final(out)@ == old(out)@ + json_text(json_view(*v)),
    decreases v,
{
    match v {
        JsonValue::Null => {
            out.append("null");
        },
        JsonValue::Bool(b) => {
            if *b {
                out.append("true");
            } else {
                out.append("false");
            }
        },
        JsonValue::Number(t) => {
            out.append(t.as_str());
        },
        JsonValue::Str(s) => {
            let q = quote_string(s.as_str());
            out.append(q.as_str());
        },
        JsonValue::Array(items) => {
            let ghost start = out@;
            let ghost iv = crate::json::array_view(items@);
            proof {
                lemma_array_view(items@);
            }
            out.append("[");
            let mut i: usize = 0;
            assert(out@ =~= start + "["@ + items_text(iv, 0));
            while i < items.len()
                invariant
                    *v == JsonValue::Array(*items),
                    iv == crate::json::array_view(items@),
                    iv.len() == items@.len(),
                    forall|k: int| 0 <= k < items@.len() ==> #[trigger] iv[k] == json_view(items@[k]),
                    i <= items@.len(),
                    out@ == start + "["@ + items_text(iv, i as nat),
                decreases items.len() - i,
            {
                proof {
                    vstd::std_specs::vec::axiom_vec_index_decreases(*items, i as int);
                    assert(decreases_to!(*v => (*v)->Array_0));
                    assert(decreases_to!(*v => items[i as int]));
                }
                if i > 0 {
                    out.append(",");
                }
                let ghost before = out@;
                write_json(&items[i], out);
                assert(out@ =~= start + "["@ + items_text(iv, (i + 1) as nat));
                i = i + 1;
            }
            out.append("]");
            assert(json_view(*v) == JsonView::Array(iv));
        },
        JsonValue::Object(members) => {
            let ghost start = out@;
            let ghost mv = crate::json::object_view(members@);
            proof {
                lemma_object_view(members@);
            }
            out.append("{");
            let mut i: usize = 0;
            assert(out@ =~= start + "{"@ + members_text(mv, 0));
            while i < members.len()
                invariant
                    *v == JsonValue::Object(*members),
                    mv == crate::json::object_view(members@),
                    mv.len() == members@.len(),
                    forall|k: int| 0 <= k < members@.len() ==> #[trigger] mv[k] == (members@[k].key@, json_view(members@[k].value)),
                    i <= members@.len(),
                    out@ == start + "{"@ + members_text(mv, i as nat),
                decreases members.len() - i,
            {
                proof {
                    vstd::std_specs::vec::axiom_vec_index_decreases(*members, i as int);
                    assert(decreases_to!(*v => (*v)->Object_0));
                    assert(decreases_to!(*v => members[i as int]));
                    assert(decreases_to!(*v => members[i as int].value));
                }
                if i > 0 {
                    out.append(",");
                }
                let q = quote_string(members[i].key.as_str());
                out.append(q.as_str());
                out.append(":");
                write_json(&members[i].value, out);
                assert(out@ =~= start + "{"@ + members_text(mv, (i + 1) as nat));
                i = i + 1;
            }
            out.append("}");
            assert(json_view(*v) == JsonView::Object(mv));
        },
    }
}

/// The compact JSON text of a value.
pub fn to_json_text(v: &JsonValue) -> (r: String)
    ensures
        r@ == json_text(json_view(*v)),
{
    let mut out = String::new();
    write_json(v, &mut out);
    assert(out@ =~= json_text(json_view(*v)));
    out
}

/// The UTF-8 bytes of the compact JSON text of a value, as
/// `serde_json::to_vec` writes them.
pub fn to_json_bytes(v: &JsonValue) -> (r: Vec<u8>)
    ensures
        r@ == encode_utf8(json_text(json_view(*v))),
{
    let text = to_json_text(v);
    text.as_str().as_bytes_vec()
}

} // verus!
