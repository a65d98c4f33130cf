use vstd::prelude::*;
use vstd::string::*;

use crate::json::{Json, JsonValue};

verus! {

/// The lowercase hexadecimal digit of a value below 16.
pub open spec fn hex_digit(n: int) -> char {
    seq!['0', '1', '2', '3', '4', '5', '6', '7', '8', '9', 'a', 'b', 'c', 'd', 'e', 'f'][n]
}

/// How one character is written inside a JSON string: `"` and `\` after a
/// backslash; backspace, tab, line feed, form feed and carriage return as
/// `\b \t \n \f \r`; any other character below U+0020 as `\u00` and two
/// hex digits; every other character as itself.
pub open spec fn escaped_char(c: char) -> Seq<char> {
    if c == '"' {
        seq!['\\', '"']
    } else if c == '\\' {
        seq!['\\', '\\']
    } else if c == '\u{8}' {
        seq!['\\', 'b']
    } else if c == '\t' {
        seq!['\\', 't']
    } else if c == '\n' {
        seq!['\\', 'n']
    } else if c == '\u{c}' {
        seq!['\\', 'f']
    } else if c == '\r' {
        seq!['\\', 'r']
    } else if (c as int) < 0x20 {
        seq!['\\', 'u', '0', '0', hex_digit(c as int / 16), hex_digit(c as int % 16)]
    } else {
        seq![c]
    }
}

/// The characters of a text, each written as inside a JSON string.
pub open spec fn escaped(s: Seq<char>) -> Seq<char>
    decreases s.len(),
{
    if s.len() == 0 {
        seq![]
    } else {
        escaped(s.drop_last()) + escaped_char(s.last())
    }
}

/// The JSON string literal for a text: its escaped characters in quotes.
pub open spec fn json_quoted(s: Seq<char>) -> Seq<char> {
    seq!['"'] + escaped(s) + seq!['"']
}

/// Relies on `serde_json::to_string` applied to a string slice: it writes the
/// JSON string literal for `s` into a `Vec`, which cannot fail.
#[verifier::external_body]
fn quote(s: &str) -> (r: String)
    ensures
        r@ == json_quoted(s@),
{
    serde_json::to_string(s).unwrap_or_default()
}

/// Parts joined by commas.
pub open spec fn comma_join(parts: Seq<Seq<char>>) -> Seq<char>
    decreases parts.len(),
{
    if parts.len() == 0 {
        seq![]
    } else if parts.len() == 1 {
        parts[0]
    } else {
        comma_join(parts.drop_last()) + ","@ + parts.last()
    }
}

/// The compact JSON text of a value.
pub open spec fn json_text(j: Json) -> Seq<char>
    decreases j,
{
    match j {
        Json::Null => "null"@,
        Json::Bool(b) => if b {
            "true"@
        } else {
            "false"@
        },
        Json::Number(n) => n,
        Json::String(s) => json_quoted(s),
        Json::Array(items) => "["@ + comma_join(item_texts(items)) + "]"@,
        Json::Object(names, values) => "{"@ + comma_join(member_texts(names, values)) + "}"@,
    }
}

/// The JSON text of each element of an array.
pub open spec fn item_texts(items: Seq<Json>) -> Seq<Seq<char>>
    decreases items,
{
    Seq::new(items.len(), |i: int| if 0 <= i < items.len() { json_text(items[i]) } else { seq![] })
}

/// The JSON text `"name":value` of each member of an object.
pub open spec fn member_texts(names: Seq<Seq<char>>, values: Seq<Json>) -> Seq<Seq<char>>
    decreases values,
{
    Seq::new(
        names.len(),
        |i: int|
            if 0 <= i < names.len() && 0 <= i < values.len() {
                json_quoted(names[i]) + ":"@ + json_text(values[i])
            } else {
                seq![]
            },
    )
}

proof fn lemma_comma_join_step(parts: Seq<Seq<char>>, i: int)
    requires
        0 <= i < parts.len(),
    ensures
        comma_join(parts.take(i + 1)) == if i == 0 {
            parts[0]
        } else {
            comma_join(parts.take(i)) + ","@ + parts[i]
        },
{
    assert(parts.take(i + 1).drop_last() =~= parts.take(i));
}

/// Writes a value as compact JSON text.
pub fn encode_json(v: &JsonValue) -> (r: String)
    ensures
        r@ == json_text(v@),
    decreases v,
{
    match v {
        JsonValue::Null => "null".to_owned(),
        JsonValue::Bool(b) => if *b {
            "true".to_owned()
        } else {
            "false".to_owned()
        },
        JsonValue::Number(n) => n.text().clone(),
        JsonValue::String(s) => quote(s.as_str()),
        JsonValue::Array(items) => {
            let ghost parts = item_texts(v@->Array_0);
            let mut out = "[".to_owned();
            let mut i: usize = 0;
            proof {
                assert(parts.take(0) =~= seq![]);
            }
            while i < items.len()
                invariant
                    *v == JsonValue::Array(*items),
                    i <= items.len(),
                    parts.len() == items.len(),
                    forall|j: int| 0 <= j < items.len() ==> #[trigger] parts[j] == json_text(items[j]@),
                    out@ == "["@ + comma_join(parts.take(i as int)),
                decreases items.len() - i,
            {
                proof {
                    assert(decreases_to!(*v => v->Array_0));
                    assert(decreases_to!(v->Array_0 => v->Array_0[i as int]));
                    lemma_comma_join_step(parts, i as int);
                }
                let t = encode_json(&items[i]);
                if i > 0 {
                    out.append(",");
                }
                out.append(t.as_str());
                proof {
                    assert(out@ =~= "["@ + comma_join(parts.take(i + 1)));
                }
                i = i + 1;
            }
            out.append("]");
            proof {
                assert(parts.take(i as int) =~= parts);
                assert(out@ =~= "["@ + comma_join(parts) + "]"@);
                assert(out@ == json_text(v@));
            }
            out
        },
        JsonValue::Object(members) => {
            let ghost names = v@->Object_0;
            let ghost values = v@->Object_1;
            let ghost parts = member_texts(names, values);
            let mut out = "{".to_owned();
            let mut i: usize = 0;
            proof {
                assert(parts.take(0) =~= seq![]);
            }
            while i < members.len()
                invariant
                    *v == JsonValue::Object(*members),
                    i <= members.len(),
                    parts.len() == members.len(),
                    forall|j: int| 0 <= j < members.len() ==> #[trigger] parts[j] == json_quoted(members[j].0@) + ":"@ + json_text(members[j].1@),
                    out@ == "{"@ + comma_join(parts.take(i as int)),
                decreases members.len() - i,
            {
                proof {
                    assert(decreases_to!(*v => v->Object_0));
                    assert(decreases_to!(v->Object_0 => v->Object_0[i as int]));
                    assert(decreases_to!(v->Object_0[i as int] => v->Object_0[i as int].1));
                    lemma_comma_join_step(parts, i as int);
                }
                let k = quote(members[i].0.as_str());
                let t = encode_json(&members[i].1);
                if i > 0 {
                    out.append(",");
                }
                out.append(k.as_str());
                out.append(":");
                out.append(t.as_str());
                proof {
                    assert(out@ =~= "{"@ + comma_join(parts.take(i + 1)));
                }
                i = i + 1;
            }
            out.append("}");
            proof {
                assert(parts.take(i as int) =~= parts);
                assert(out@ =~= "{"@ + comma_join(parts) + "}"@);
            }
            out
        },
    }
}

} // verus!
