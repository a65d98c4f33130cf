use vstd::prelude::*;
use vstd::string::*;

use crate::text::{lemma_pieces_nonempty, pieces, same_text, split_nonempty, split_state, views_of};

verus! {

/// A template segment of the form `{name}`: it stands for any one segment.
pub open spec fn is_param(seg: Seq<char>) -> bool {
    seg.len() > 2 && seg[0] == '{' && seg.last() == '}'
}

/// The non-empty `/`-separated segments of a path.
pub open spec fn segments(p: Seq<char>) -> Seq<Seq<char>> {
    pieces(p, '/')
}

/// Whether a template segment accepts a concrete segment.
pub open spec fn segment_matches(t: Seq<char>, a: Seq<char>) -> bool {
    if is_param(t) {
        a.len() > 0
    } else {
        t == a
    }
}

/// Whether a path template matches a concrete path: the same number of
/// segments, and each template segment accepts the segment beside it.
pub open spec fn path_matches(template: Seq<char>, actual: Seq<char>) -> bool {
    let ts = segments(template);
    let as_ = segments(actual);
    &&& ts.len() == as_.len()
    &&& forall|i: int| 0 <= i < ts.len() ==> #[trigger] segment_matches(ts[i], as_[i])
}

/// Whether `seg` is a parameter placeholder such as `{id}`.
pub fn is_path_param(seg: &str) -> (r: bool)
    ensures
        r == is_param(seg@),
{
    let n = seg.unicode_len();
    n > 2 && seg.get_char(0) == '{' && seg.get_char(n - 1) == '}'
}

/// Whether the path template `template` matches the request path `actual`.
pub fn match_path(template: &str, actual: &str) -> (r: bool)
    ensures
        r == path_matches(template@, actual@),
{
    let t_parts = split_nonempty(template, '/');
    let a_parts = split_nonempty(actual, '/');
    let ghost ts = segments(template@);
    let ghost as_ = segments(actual@);
    proof {
        assert(ts.len() == t_parts.len());
        assert(as_.len() == a_parts.len());
    }
    if t_parts.len() != a_parts.len() {
        return false;
    }
    let mut i: usize = 0;
    while i < t_parts.len()
        invariant
            i <= t_parts.len() == a_parts.len(),
            views_of(t_parts@) == ts,
            views_of(a_parts@) == as_,
            ts.len() == as_.len(),
            ts == segments(template@),
            as_ == segments(actual@),
            forall|j: int| 0 <= j < i ==> #[trigger] segment_matches(ts[j], as_[j]),
        decreases t_parts.len() - i,
    {
        let t_seg = &t_parts[i];
        let a_seg = &a_parts[i];
        proof {
            assert(ts[i as int] == t_seg@);
            assert(as_[i as int] == a_seg@);
        }
        if is_path_param(t_seg.as_str()) {
            if a_seg.unicode_len() == 0 {
                proof {
                    assert(!segment_matches(ts[i as int], as_[i as int]));
                }
                return false;
            }
        } else if !same_text(t_seg.as_str(), a_seg.as_str()) {
            proof {
                assert(!segment_matches(ts[i as int], as_[i as int]));
            }
            return false;
        }
        i = i + 1;
    }
    true
}

/// A trailing `/` on either side never changes whether a template matches.
pub proof fn lemma_trailing_slash_ignored(template: Seq<char>, actual: Seq<char>)
    ensures
        path_matches(template.push('/'), actual) == path_matches(template, actual),
        path_matches(template, actual.push('/')) == path_matches(template, actual),
{
    lemma_segments_trailing_slash(template);
    lemma_segments_trailing_slash(actual);
}

/// Segments are never empty, so a parameter segment accepts every segment it
/// stands beside, and a literal segment only itself.
pub proof fn lemma_param_accepts_any(template: Seq<char>, actual: Seq<char>, i: int)
    requires
        0 <= i < segments(template).len(),
        0 <= i < segments(actual).len(),
    ensures
        segments(actual)[i].len() > 0,
        is_param(segments(template)[i]) ==> segment_matches(segments(template)[i], segments(actual)[i]),
        !is_param(segments(template)[i]) ==> (segment_matches(segments(template)[i], segments(actual)[i])
            <==> segments(template)[i] == segments(actual)[i]),
{
    lemma_pieces_nonempty(actual, '/');
}

proof fn lemma_segments_trailing_slash(p: Seq<char>)
    ensures
        segments(p.push('/')) == segments(p),
{
    assert(p.push('/').drop_last() =~= p);
    let (done, open) = split_state(p, '/');
    if open.len() > 0 {
        assert(segments(p.push('/')) =~= done.push(open));
    } else {
        assert(segments(p.push('/')) =~= done);
    }
}

} // verus!
