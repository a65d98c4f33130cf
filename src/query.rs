use vstd::prelude::*;
use vstd::string::*;

use crate::text::{pieces, same_text, split_nonempty, views_of};

verus! {

/// `i` is where the name of a `name=value` pair ends: the first `=`, or the
/// end of the pair when it holds none.
pub open spec fn is_name_end(p: Seq<char>, i: int) -> bool {
    &&& 0 <= i <= p.len()
    &&& forall|j: int| 0 <= j < i ==> #[trigger] p[j] != '='
    &&& (i == p.len() || p[i] == '=')
}

pub open spec fn name_end(p: Seq<char>) -> int {
    choose|i: int| is_name_end(p, i)
}

/// A `name=value` pair split at its first `=`; without one, the value is empty.
pub open spec fn pair_of(p: Seq<char>) -> (Seq<char>, Seq<char>) {
    let k = name_end(p);
    (p.subrange(0, k), if k < p.len() { p.subrange(k + 1, p.len() as int) } else { seq![] })
}

/// The pairs of a query string `a=1&b=2`, in order, empty pairs skipped.
pub open spec fn query_pairs(q: Seq<char>) -> Seq<(Seq<char>, Seq<char>)> {
    pieces(q, '&').map_values(|p: Seq<char>| pair_of(p))
}

/// The value of the last pair named `name`.
pub open spec fn last_value(pairs: Seq<(Seq<char>, Seq<char>)>, name: Seq<char>) -> Option<Seq<char>>
    decreases pairs.len(),
{
    if pairs.len() == 0 {
        None
    } else if pairs.last().0 == name {
        Some(pairs.last().1)
    } else {
        last_value(pairs.drop_last(), name)
    }
}

pub open spec fn pair_views(v: Seq<(String, String)>) -> Seq<(Seq<char>, Seq<char>)> {
    v.map_values(|e: (String, String)| (e.0@, e.1@))
}

/// The parameters of a request's query string, in the order they were written.
/// A name given twice has the value given last.
pub struct QueryParams {
    pub pairs: Vec<(String, String)>,
}

impl View for QueryParams {
    type V = Seq<(Seq<char>, Seq<char>)>;

    open spec fn view(&self) -> Seq<(Seq<char>, Seq<char>)> {
        pair_views(self.pairs@)
    }
}

impl QueryParams {
    /// The value of parameter `name`, if the query gives it.
    pub open spec fn value_of(&self, name: Seq<char>) -> Option<Seq<char>> {
        last_value(self@, name)
    }

    /// The value of parameter `name`: the last one given.
    pub fn get(&self, name: &str) -> (r: Option<&String>)
        ensures
            r matches Some(v) ==> self.value_of(name@) == Some(v@),
            r is None ==> self.value_of(name@) is None,
    {
        let mut i: usize = self.pairs.len();
        proof {
            assert(self@.subrange(0, i as int) =~= self@);
        }
        while i > 0
            invariant
                i <= self.pairs.len(),
                last_value(self@, name@) == last_value(self@.subrange(0, i as int), name@),
            decreases i,
        {
            let e = &self.pairs[i - 1];
            proof {
                assert(self@.subrange(0, i as int).drop_last() =~= self@.subrange(0, i - 1));
            }
            if same_text(e.0.as_str(), name) {
                return Some(&e.1);
            }
            i = i - 1;
        }
        None
    }
}

/// Splits one `name=value` pair at its first `=`.
fn split_pair(p: &str) -> (r: (String, String))
    ensures
        (r.0@, r.1@) == pair_of(p@),
{
    let n = p.unicode_len();
    let mut i: usize = 0;
    while i < n && p.get_char(i) != '='
        invariant
            n == p@.len(),
            i <= n,
            forall|j: int| 0 <= j < i ==> #[trigger] p@[j] != '=',
        decreases n - i,
    {
        i = i + 1;
    }
    proof {
        assert(is_name_end(p@, i as int));
        let k = name_end(p@);
        assert(is_name_end(p@, k));
        if k < i {
            assert(p@[k] == '=');
        } else if k > i {
            assert(p@[i as int] == '=');
        }
        assert(k == i);
    }
    let name = p.substring_char(0, i).to_owned();
    let value = if i < n {
        p.substring_char(i + 1, n).to_owned()
    } else {
        String::new()
    };
    proof {
        if i >= n {
            assert(value@ =~= seq![]);
        }
    }
    (name, value)
}


/// Reads a query string of `name=value` pairs joined by `&`. Names and values
/// are taken as written; a pair without `=` has an empty value; empty pairs
/// are skipped.
pub fn parse_query(query: Option<&str>) -> (r: QueryParams)
    ensures
        query is None ==> r@ == Seq::<(Seq<char>, Seq<char>)>::empty(),
        query matches Some(q) ==> r@ == query_pairs(q@),
{
    let mut pairs: Vec<(String, String)> = Vec::new();
    if let Some(q) = query {
        let parts = split_nonempty(q, '&');
        let ghost want = query_pairs(q@);
        let mut i: usize = 0;
        while i < parts.len()
            invariant
                i <= parts.len(),
                views_of(parts@) == pieces(q@, '&'),
                want == query_pairs(q@),
                pair_views(pairs@) == want.subrange(0, i as int),
            decreases parts.len() - i,
        {
            let pair = split_pair(parts[i].as_str());
            proof {
                assert(views_of(parts@)[i as int] == parts@[i as int]@);
                assert(want.len() == parts@.len());
                assert(want[i as int] == (pair.0@, pair.1@));
                assert(pair_views(pairs@.push(pair)) =~= pair_views(pairs@).push((pair.0@, pair.1@)));
                assert(want.subrange(0, i + 1) =~= want.subrange(0, i as int).push(want[i as int]));
            }
            pairs.push(pair);
            i = i + 1;
        }
        proof {
            assert(want.subrange(0, i as int) =~= want);
        }
    } else {
        proof {
            assert(pair_views(pairs@) =~= Seq::<(Seq<char>, Seq<char>)>::empty());
        }
    }
    QueryParams { pairs }
}

} // verus!
