//! The module-path extractor: a raw module path is a sequence of segments
//! joined by `::`. Test runners place tests inside a nested pseudo-module
//! named `tests` or `test`; a trailing segment equal to one of these
//! reserved markers carries no information and is dropped. When dropping
//! it leaves no segment, the test has no displayed module at all.

use vstd::prelude::*;

use crate::text::chars_eq;
use crate::text::find_pat;
use crate::text::find_pat_exec;
use crate::text::from_chars;
use crate::text::lemma_find_pat;
use crate::text::sub_chars;
use crate::text::to_chars;

verus! {

/// The two-character path separator.
pub open spec fn sep_pat() -> Seq<char> {
    seq![':', ':']
}

pub(crate) fn sep_vec() -> (r: Vec<char>)
    ensures
        r@ == sep_pat(),
{
    let mut r: Vec<char> = Vec::new();
    r.push(':');
    r.push(':');
    proof {
        assert(r@ =~= sep_pat());
    }
    r
}

/// A reserved test-module marker segment.
pub open spec fn is_test_marker(seg: Seq<char>) -> bool {
    seg == seq!['t', 'e', 's', 't', 's'] || seg == seq!['t', 'e', 's', 't']
}

/// The segments of `s` from position `i` on, cut at each `::` found by a
/// left-to-right, non-overlapping scan.
pub open spec fn segments_from(s: Seq<char>, i: int) -> Seq<Seq<char>>
    decreases s.len() + 1 - i,
{
    let j = find_pat(s, sep_pat(), i);
    if i <= j && j + 2 <= s.len() {
        seq![s.subrange(i, j)] + segments_from(s, j + 2)
    } else {
        seq![s.subrange(i, s.len() as int)]
    }
}

/// The segments of a whole raw module path.
pub open spec fn segments(s: Seq<char>) -> Seq<Seq<char>> {
    segments_from(s, 0)
}

/// The segments `ps[i..]` joined back together with the separator.
pub open spec fn joined_from(ps: Seq<Seq<char>>, i: int) -> Seq<char>
    decreases ps.len() + 1 - i,
{
    if i < 0 || i >= ps.len() {
        Seq::empty()
    } else if i == ps.len() - 1 {
        ps[i]
    } else {
        ps[i] + sep_pat() + joined_from(ps, i + 1)
    }
}

/// All the segments joined back together with the separator.
pub open spec fn joined(ps: Seq<Seq<char>>) -> Seq<char> {
    joined_from(ps, 0)
}

/// The displayed module path of a raw one: its segments, with a trailing
/// reserved-marker segment dropped, joined back; nothing when no segment
/// stays.
pub open spec fn module_of(m: Seq<char>) -> Option<Seq<char>> {
    let parts = segments(m);
    let kept = if is_test_marker(parts.last()) {
        parts.drop_last()
    } else {
        parts
    };
    if kept.len() == 0 {
        None
    } else {
        Some(joined(kept))
    }
}

fn split_segments(v: &Vec<char>) -> (parts: Vec<Vec<char>>)
    ensures
        parts.deep_view() == segments(v@),
        parts@.len() >= 1,
{
    let sep = sep_vec();
    let mut parts: Vec<Vec<char>> = Vec::new();
    let mut pos: usize = 0;
    loop
        invariant_except_break
            pos <= v@.len(),
            sep@ == sep_pat(),
            segments(v@) == parts.deep_view() + segments_from(v@, pos as int),
        ensures
            segments(v@) == parts.deep_view(),
            parts@.len() >= 1,
        decreases v@.len() - pos,
    {
        match find_pat_exec(v, &sep, pos) {
            Some(j) => {
                proof {
                    lemma_find_pat(v@, sep_pat(), pos as int);
                    assert(pos <= j && j + 2 <= v@.len());
                    assert(j + 2 <= v.len());
                }
                let ghost old_parts = parts.deep_view();
                parts.push(sub_chars(v, pos, j));
                proof {
                    assert(parts.deep_view() =~~= old_parts.push(v@.subrange(pos as int, j as int)));
                    assert(segments_from(v@, pos as int) == seq![v@.subrange(pos as int, j as int)]
                        + segments_from(v@, j + 2));
                    assert(parts.deep_view() + segments_from(v@, j + 2) =~= old_parts
                        + segments_from(v@, pos as int));
                }
                pos = j + 2;
            },
            None => {
                let ghost old_parts = parts.deep_view();
                let n = v.len();
                parts.push(sub_chars(v, pos, n));
                proof {
                    assert(parts.deep_view() =~~= old_parts.push(
                        v@.subrange(pos as int, v@.len() as int),
                    ));
                    assert(segments_from(v@, pos as int) == seq![
                        v@.subrange(pos as int, v@.len() as int),
                    ]);
                    assert(parts.deep_view() =~= old_parts + segments_from(v@, pos as int));
                }
                break ;
            },
        }
    }
    parts
}

fn join_segments(parts: &Vec<Vec<char>>) -> (r: String)
    requires
        parts@.len() >= 1,
    ensures
        r@ == joined(parts.deep_view()),
{
    let ghost ps = parts.deep_view();
    let first = &parts[0];
    let mut out = from_chars(first, 0, first.len());
    proof {
        assert(out@ =~= ps[0]);
    }
    let mut i: usize = 1;
    while i < parts.len()
        invariant
            1 <= i <= parts@.len(),
            ps == parts.deep_view(),
            i < parts@.len() ==> joined(ps) == out@ + sep_pat() + joined_from(ps, i as int),
            i == parts@.len() ==> joined(ps) == out@,
        decreases parts@.len() - i,
    {
        out.push(':');
        out.push(':');
        let part = &parts[i];
        let piece = from_chars(part, 0, part.len());
        out.append(piece.as_str());
        proof {
            assert(piece@ =~= ps[i as int]);
            if i + 1 < ps.len() {
                assert(joined_from(ps, i as int) == ps[i as int] + sep_pat() + joined_from(
                    ps,
                    i + 1,
                ));
                assert(joined(ps) =~= out@ + sep_pat() + joined_from(ps, i + 1));
            } else {
                assert(joined_from(ps, i as int) == ps[i as int]);
                assert(joined(ps) =~= out@);
            }
        }
        i = i + 1;
    }
    out
}

fn is_marker_segment(seg: &Vec<char>) -> (r: bool)
    ensures
        r == is_test_marker(seg@),
{
    let mut tests_pat: Vec<char> = Vec::new();
    tests_pat.push('t');
    tests_pat.push('e');
    tests_pat.push('s');
    tests_pat.push('t');
    tests_pat.push('s');
    proof {
        assert(tests_pat@ =~= seq!['t', 'e', 's', 't', 's']);
    }
    if chars_eq(seg, &tests_pat) {
        return true;
    }
    let mut test_pat: Vec<char> = Vec::new();
    test_pat.push('t');
    test_pat.push('e');
    test_pat.push('s');
    test_pat.push('t');
    proof {
        assert(test_pat@ =~= seq!['t', 'e', 's', 't']);
    }
    chars_eq(seg, &test_pat)
}

/// Drops a trailing reserved test-module segment from a raw module path;
/// yields nothing when that leaves no segment at all.
pub fn prettify_module(module: &str) -> (r: Option<String>)
    ensures
        match r {
            Some(m) => module_of(module@) == Some(m@),
            None => module_of(module@) is None,
        },
{
    let v = to_chars(module);
    let mut parts = split_segments(&v);
    let ghost orig = parts.deep_view();
    let last = &parts[parts.len() - 1];
    proof {
        assert(last@ == orig.last());
    }
    if is_marker_segment(last) {
        parts.pop();
        proof {
            assert(parts.deep_view() =~~= orig.drop_last());
        }
    }
    if parts.len() == 0 {
        return None;
    }
    Some(join_segments(&parts))
}

} // verus!
