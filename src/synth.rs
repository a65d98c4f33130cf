use vstd::prelude::*;
use vstd::string::*;

use crate::json::{Json, JsonValue};
use crate::number::JsonNumber;
use crate::model::{entry, find_entry, Example, MediaType, Schema};
use crate::query::QueryParams;
use crate::text::same_text;

verus! {

/// The type a schema declares, `object` when it declares none.
pub open spec fn declared_type(s: Schema) -> Seq<char> {
    match s.ty {
        Some(t) => t@,
        None => "object"@,
    }
}

/// The canonical mock string for a string schema.
pub open spec fn mock_string(format: Option<String>) -> Seq<char> {
    match format {
        Some(f) => if f@ == "date-time"@ {
            "2025-01-01T00:00:00Z"@
        } else if f@ == "date"@ {
            "2025-01-01"@
        } else if f@ == "uuid"@ {
            "00000000-0000-0000-0000-000000000000"@
        } else {
            "string("@ + f@ + ")"@
        },
        None => "string"@,
    }
}

/// The mock value of a schema: its first listed value when it lists any,
/// else a canonical value of its type.
pub open spec fn mock_value(s: Schema) -> Json
    decreases s,
{
    if s.enum_values.len() > 0 {
        s.enum_values[0]@
    } else if declared_type(s) == "string"@ {
        Json::String(mock_string(s.format))
    } else if declared_type(s) == "number"@ {
        Json::Number("123.45"@)
    } else if declared_type(s) == "integer"@ {
        Json::Number("123"@)
    } else if declared_type(s) == "boolean"@ {
        Json::Bool(true)
    } else if declared_type(s) == "array"@ {
        match s.items {
            Some(item) => Json::Array(seq![mock_value(*item)]),
            None => Json::Array(seq![]),
        }
    } else if declared_type(s) == "object"@ {
        Json::Object(
            Seq::new(s.properties.len() as nat, |i: int| s.properties[i].0@),
            Seq::new(
                s.properties.len() as nat,
                |i: int|
                    if 0 <= i < s.properties.len() {
                        mock_value(s.properties[i].1)
                    } else {
                        Json::Null
                    },
            ),
        )
    } else {
        Json::Object(seq![], seq![])
    }
}

fn mock_string_of(format: &Option<String>) -> (r: String)
    ensures
        r@ == mock_string(*format),
{
    match format {
        Some(f) => {
            if same_text(f.as_str(), "date-time") {
                "2025-01-01T00:00:00Z".to_owned()
            } else if same_text(f.as_str(), "date") {
                "2025-01-01".to_owned()
            } else if same_text(f.as_str(), "uuid") {
                "00000000-0000-0000-0000-000000000000".to_owned()
            } else {
                let mut out = "string(".to_owned();
                out.append(f.as_str());
                out.append(")");
                out
            }
        },
        None => "string".to_owned(),
    }
}

/// Makes a mock value from a schema.
pub fn generate_from_schema(schema: &Schema) -> (r: JsonValue)
    ensures
        r@ == mock_value(*schema),
    decreases schema,
{
    if schema.enum_values.len() > 0 {
        return schema.enum_values[0].copy();
    }
    let is_type = |name: &str| -> (b: bool)
        ensures
            b == (declared_type(*schema) == name@),
        {
            match &schema.ty {
                Some(t) => same_text(t.as_str(), name),
                None => same_text("object", name),
            }
        };
    if is_type("string") {
        JsonValue::String(mock_string_of(&schema.format))
    } else if is_type("number") {
        JsonValue::Number(JsonNumber::mock_decimal())
    } else if is_type("integer") {
        JsonValue::Number(JsonNumber::mock_integer())
    } else if is_type("boolean") {
        JsonValue::Bool(true)
    } else if is_type("array") {
        match &schema.items {
            Some(item) => {
                proof {
                    assert(decreases_to!(*schema => schema.items));
                }
                let v = generate_from_schema(item);
                let r = JsonValue::Array(vec![v]);
                proof {
                    assert(r@->Array_0 =~= seq![v@]);
                }
                r
            },
            None => {
                let r = JsonValue::Array(Vec::new());
                proof {
                    assert(r@->Array_0 =~= seq![]);
                }
                r
            },
        }
    } else if is_type("object") {
        let props = &schema.properties;
        let mut out: Vec<(String, JsonValue)> = Vec::new();
        let mut i: usize = 0;
        while i < props.len()
            invariant
                *props == schema.properties,
                i <= props.len(),
                out.len() == i,
                forall|j: int| 0 <= j < i ==> #[trigger] out[j].0@ == props[j].0@,
                forall|j: int| 0 <= j < i ==> #[trigger] out[j].1@ == mock_value(props[j].1),
            decreases props.len() - i,
        {
            proof {
                assert(decreases_to!(*schema => schema.properties));
                assert(decreases_to!(schema.properties => schema.properties[i as int]));
                assert(decreases_to!(schema.properties[i as int] => schema.properties[i as int].1));
            }
            let v = generate_from_schema(&props[i].1);
            out.push((props[i].0.clone(), v));
            i = i + 1;
        }
        let r = JsonValue::Object(out);
        proof {
            let m = mock_value(*schema);
            assert forall|j: int| 0 <= j < out.len() implies r@->Object_1[j] == #[trigger] m->Object_1[j] by {
                assert(r@->Object_1[j] == out[j].1@);
            }
            assert(r@->Object_0 =~= m->Object_0);
            assert(r@->Object_1 =~= m->Object_1);
        }
        r
    } else {
        let r = JsonValue::Object(Vec::new());
        proof {
            assert(r@->Object_0 =~= seq![]);
            assert(r@->Object_1 =~= seq![]);
        }
        r
    }
}

/// Making a mock is a function of the schema alone: two mocks made from one
/// schema are equal.
pub proof fn lemma_generate_deterministic(schema: Schema, first: JsonValue, second: JsonValue)
    requires
        first@ == mock_value(schema),
        second@ == mock_value(schema),
    ensures
        first@ == second@,
{
}

/// A schema that lists values mocks as its first listed value, whatever type
/// it declares.
pub proof fn lemma_enum_wins(schema: Schema)
    requires
        schema.enum_values.len() > 0,
    ensures
        mock_value(schema) == schema.enum_values[0]@,
{
}

pub open spec fn opt_view(o: Option<JsonValue>) -> Option<Json> {
    match o {
        Some(v) => Some(v@),
        None => None,
    }
}

/// The example that the selector parameter names, when the media type has a
/// selector, the query gives it, and the example it names carries a value.
pub open spec fn selected_example(mt: MediaType, q: Seq<(Seq<char>, Seq<char>)>) -> Option<Json> {
    match mt.example_param {
        Some(p) => match crate::query::last_value(q, p@) {
            Some(key) => match entry(mt.examples@, key) {
                Some(ex) => opt_view(ex.value),
                None => None,
            },
            None => None,
        },
        None => None,
    }
}

/// `i` is the first named example that carries a value.
pub open spec fn is_first_valued(e: Seq<(String, Example)>, i: int) -> bool {
    &&& 0 <= i < e.len()
    &&& e[i].1.value is Some
    &&& forall|j: int| 0 <= j < i ==> #[trigger] e[j].1.value is None
}

/// The first named example that carries a value.
pub open spec fn first_valued(e: Seq<(String, Example)>) -> Option<Json> {
    if exists|i: int| is_first_valued(e, i) {
        opt_view(e[choose|i: int| is_first_valued(e, i)].1.value)
    } else {
        None
    }
}

/// The example a media type answers with: the one the selector parameter
/// names, else the single example, else the first named example with a value.
pub open spec fn chosen_example(mt: MediaType, q: Seq<(Seq<char>, Seq<char>)>) -> Option<Json> {
    if selected_example(mt, q) is Some {
        selected_example(mt, q)
    } else if mt.example is Some {
        opt_view(mt.example)
    } else {
        first_valued(mt.examples@)
    }
}

/// Example precedence: an example named through the selector parameter wins
/// over the single example, which wins over the first named example with a
/// value; with none of these there is no example.
pub proof fn lemma_example_precedence(mt: MediaType, q: Seq<(Seq<char>, Seq<char>)>)
    ensures
        selected_example(mt, q) is Some ==> chosen_example(mt, q) == selected_example(mt, q),
        selected_example(mt, q) is None && mt.example is Some ==> chosen_example(mt, q) == Some(mt.example->Some_0@),
        selected_example(mt, q) is None && mt.example is None ==> chosen_example(mt, q) == first_valued(mt.examples@),
        selected_example(mt, q) is None && mt.example is None && (forall|i: int| 0 <= i < mt.examples.len() ==> #[trigger] mt.examples@[i].1.value is None)
            ==> chosen_example(mt, q) is None,
{
}

/// Picks the example a media type answers with for the given query.
pub fn pick_example(mt: &MediaType, query: &QueryParams) -> (r: Option<JsonValue>)
    ensures
        opt_view(r) == chosen_example(*mt, query@),
{
    if let Some(param) = &mt.example_param {
        if let Some(key) = query.get(param.as_str()) {
            if let Some(ex) = find_entry(&mt.examples, key.as_str()) {
                if let Some(v) = &ex.value {
                    return Some(v.copy());
                }
            }
        }
    }
    if let Some(ex) = &mt.example {
        return Some(ex.copy());
    }
    let mut i: usize = 0;
    while i < mt.examples.len()
        invariant
            i <= mt.examples.len(),
            selected_example(*mt, query@) is None,
            mt.example is None,
            forall|j: int| 0 <= j < i ==> #[trigger] mt.examples@[j].1.value is None,
        decreases mt.examples.len() - i,
    {
        if let Some(v) = &mt.examples[i].1.value {
            proof {
                let e = mt.examples@;
                assert(is_first_valued(e, i as int));
                let c = choose|c: int| is_first_valued(e, c);
                if c < i {
                    assert(e[c].1.value is Some);
                } else if c > i {
                    assert(e[i as int].1.value is Some);
                }
            }
            return Some(v.copy());
        }
        i = i + 1;
    }
    None
}

} // verus!
