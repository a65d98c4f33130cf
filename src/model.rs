use vstd::prelude::*;
use vstd::string::*;

use crate::json::JsonValue;
use crate::text::same_text;

verus! {

// A mapping keyed by name is held as a list of (name, entry) pairs in
// declaration order; a lookup by name finds the first pair with that name.

/// `i` is the first position whose name is `k`.
pub open spec fn is_first_key<T>(e: Seq<(String, T)>, k: Seq<char>, i: int) -> bool {
    &&& 0 <= i < e.len()
    &&& e[i].0@ == k
    &&& forall|j: int| 0 <= j < i ==> #[trigger] e[j].0@ != k
}

/// The entry named `k`: the first one, when several carry the name.
pub open spec fn entry<T>(e: Seq<(String, T)>, k: Seq<char>) -> Option<T> {
    if exists|i: int| is_first_key(e, k, i) {
        Some(e[choose|i: int| is_first_key(e, k, i)].1)
    } else {
        None
    }
}

/// No two entries carry the same name, as in a map.
pub open spec fn names_unique<T>(e: Seq<(String, T)>) -> bool {
    forall|i: int, j: int| 0 <= i < j < e.len() ==> #[trigger] e[i].0@ != #[trigger] e[j].0@
}

/// Where names are unique, the entry found by a name is the one entry that
/// carries it, so the lookup behaves as a map's.
pub proof fn lemma_entry_of_unique_name<T>(e: Seq<(String, T)>, i: int)
    requires
        names_unique(e),
        0 <= i < e.len(),
    ensures
        entry(e, e[i].0@) == Some(e[i].1),
{
    let k = e[i].0@;
    assert(is_first_key(e, k, i));
    let c = choose|c: int| is_first_key(e, k, c);
    if c < i {
        assert(e[c].0@ != e[i].0@);
    } else if c > i {
        assert(e[i].0@ != e[c].0@);
    }
}

/// Looks an entry up by name.
pub fn find_entry<'a, T>(e: &'a Vec<(String, T)>, k: &str) -> (r: Option<&'a T>)
    ensures
        r matches Some(v) ==> entry(e@, k@) == Some(*v),
        r is None ==> entry(e@, k@) is None,
{
    let mut i: usize = 0;
    while i < e.len()
        invariant
            i <= e.len(),
            forall|j: int| 0 <= j < i ==> #[trigger] e@[j].0@ != k@,
        decreases e.len() - i,
    {
        if same_text(e[i].0.as_str(), k) {
            proof {
                assert(is_first_key(e@, k@, i as int));
                let c = choose|c: int| is_first_key(e@, k@, c);
                if c < i {
                    assert(e@[c].0@ == k@);
                } else if c > i {
                    assert(e@[i as int].0@ != k@);
                }
            }
            return Some(&e[i].1);
        }
        i = i + 1;
    }
    None
}

/// The title and version of an API description.
pub struct Info {
    pub title: String,
    pub version: String,
}

/// A named example of a media type; one without a value is never chosen.
pub struct Example {
    pub summary: Option<String>,
    pub value: Option<JsonValue>,
}

/// A JSON-schema-like description of a value, from which a mock is made.
pub struct Schema {
    /// `object`, `array`, `string`, `number`, `integer` or `boolean`;
    /// `object` when absent.
    pub ty: Option<String>,
    /// The members of an object.
    pub properties: Vec<(String, Schema)>,
    /// The element of an array.
    pub items: Option<Box<Schema>>,
    /// The values the schema allows, when it lists them.
    pub enum_values: Vec<JsonValue>,
    /// A refinement of `string`: `date-time`, `date`, `uuid` or another.
    pub format: Option<String>,
}

/// What a response declares for one content type.
pub struct MediaType {
    /// A single example.
    pub example: Option<JsonValue>,
    /// Named examples.
    pub examples: Vec<(String, Example)>,
    pub schema: Option<Schema>,
    /// The query parameter whose value names the example to answer with.
    pub example_param: Option<String>,
}

/// One declared response: its bodies by content type.
pub struct Response {
    pub description: Option<String>,
    pub content: Vec<(String, MediaType)>,
}

/// The declared behaviour of one method on one path: responses by status.
pub struct Operation {
    pub summary: Option<String>,
    pub responses: Vec<(String, Response)>,
}

/// The operations declared for one path template.
pub struct PathItem {
    pub get: Option<Operation>,
    pub post: Option<Operation>,
    pub put: Option<Operation>,
    pub delete: Option<Operation>,
    pub patch: Option<Operation>,
}

/// An API description: path templates and what each declares.
pub struct OpenApi {
    pub openapi: String,
    pub info: Info,
    /// Path templates such as `/users/{id}`, in declaration order.
    pub paths: Vec<(String, PathItem)>,
}

} // verus!
