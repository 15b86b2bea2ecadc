//! The name prettifier: turns an identifier-style test name into a
//! human-readable sentence.
//!
//! Underscores become spaces, runs of separators collapse into a single
//! space, and leading or trailing separators vanish. A literal `_fn_`
//! escape marker splits the name: everything before the first marker is
//! kept verbatim (it names the unit under test), everything after it is
//! humanized.

use vstd::prelude::*;

use crate::text::find_pat;
use crate::text::find_pat_exec;
use crate::text::from_chars;
use crate::text::lemma_find_pat;
use crate::text::pat_at;
use crate::text::sub_chars;
use crate::text::to_chars;

verus! {

/// A whitespace character: the Unicode `White_Space` set, which is what
/// word-splitting in the original sentence collapsing goes by.
pub open spec fn is_wspace(c: char) -> bool {
    ||| c == '\t'
    ||| c == '\n'
    ||| c == '\u{b}'
    ||| c == '\u{c}'
    ||| c == '\r'
    ||| c == ' '
    ||| c == '\u{85}'
    ||| c == '\u{a0}'
    ||| c == '\u{1680}'
    ||| c == '\u{2000}'
    ||| c == '\u{2001}'
    ||| c == '\u{2002}'
    ||| c == '\u{2003}'
    ||| c == '\u{2004}'
    ||| c == '\u{2005}'
    ||| c == '\u{2006}'
    ||| c == '\u{2007}'
    ||| c == '\u{2008}'
    ||| c == '\u{2009}'
    ||| c == '\u{200a}'
    ||| c == '\u{2028}'
    ||| c == '\u{2029}'
    ||| c == '\u{202f}'
    ||| c == '\u{205f}'
    ||| c == '\u{3000}'
}

/// A character that separates the words of an identifier once underscores
/// are read as spaces: an underscore or a whitespace character.
pub open spec fn is_sep(c: char) -> bool {
    c == '_' || is_wspace(c)
}

fn is_sep_exec(c: char) -> (r: bool)
    ensures
        r == is_sep(c),
{
    c == '_' || c == '\t' || c == '\n' || c == '\u{b}' || c == '\u{c}' || c == '\r' || c == ' '
        || c == '\u{85}' || c == '\u{a0}' || c == '\u{1680}' || c == '\u{2000}' || c == '\u{2001}'
        || c == '\u{2002}' || c == '\u{2003}' || c == '\u{2004}' || c == '\u{2005}' || c
        == '\u{2006}' || c == '\u{2007}' || c == '\u{2008}' || c == '\u{2009}' || c == '\u{200a}'
        || c == '\u{2028}' || c == '\u{2029}' || c == '\u{202f}' || c == '\u{205f}' || c
        == '\u{3000}'
}

/// The humanized form of `s` from position `i` on. `started` records whether
/// a word has been emitted already, `pending` whether a separating space is
/// owed before the next word; separators emit nothing by themselves, so runs
/// collapse and leading or trailing separators disappear.
pub open spec fn hum_from(s: Seq<char>, i: int, started: bool, pending: bool) -> Seq<char>
    decreases s.len() + 1 - i,
{
    if i < 0 || i >= s.len() {
        Seq::empty()
    } else if is_sep(s[i]) {
        hum_from(s, i + 1, started, started)
    } else if pending {
        seq![' ', s[i]] + hum_from(s, i + 1, true, false)
    } else {
        seq![s[i]] + hum_from(s, i + 1, true, false)
    }
}

/// The humanized form of an identifier: its words joined by single spaces.
pub open spec fn humanized(s: Seq<char>) -> Seq<char> {
    hum_from(s, 0, false, false)
}

/// The escape marker `_fn_`.
pub open spec fn marker_pat() -> Seq<char> {
    seq!['_', 'f', 'n', '_']
}

fn marker_vec() -> (r: Vec<char>)
    ensures
        r@ == marker_pat(),
{
    let mut r: Vec<char> = Vec::new();
    r.push('_');
    r.push('f');
    r.push('n');
    r.push('_');
    proof {
        assert(r@ =~= marker_pat());
    }
    r
}

/// The prettified form of an identifier: humanized as a whole if the escape
/// marker does not occur; otherwise the part before the first marker, kept
/// verbatim, then one space, then the humanized rest.
pub open spec fn prettified(s: Seq<char>) -> Seq<char> {
    let j = find_pat(s, marker_pat(), 0);
    if j < 0 {
        humanized(s)
    } else {
        s.subrange(0, j) + seq![' '] + humanized(s.subrange(j + 4, s.len() as int))
    }
}

/// A string in the form the humanizer produces: every separator in it is a
/// single space standing between two words.
pub open spec fn canonical(s: Seq<char>) -> bool {
    &&& forall|k: int| 0 <= k < s.len() && is_sep(#[trigger] s[k]) ==> s[k] == ' '
    &&& forall|k: int| 0 <= k && k + 1 < s.len() ==> !(is_sep(#[trigger] s[k]) && is_sep(s[k + 1]))
    &&& s.len() > 0 ==> !is_sep(s[0]) && !is_sep(s[s.len() - 1])
}

proof fn lemma_hum_canon(s: Seq<char>, i: int, started: bool, pending: bool)
    requires
        0 <= i,
        pending ==> started,
    ensures
        forall|k: int|
            0 <= k < hum_from(s, i, started, pending).len() && is_sep(
                #[trigger] hum_from(s, i, started, pending)[k],
            ) ==> hum_from(s, i, started, pending)[k] == ' ',
        forall|k: int|
            0 <= k && k + 1 < hum_from(s, i, started, pending).len() ==> !(is_sep(
                #[trigger] hum_from(s, i, started, pending)[k],
            ) && is_sep(hum_from(s, i, started, pending)[k + 1])),
        hum_from(s, i, started, pending).len() > 0 ==> !is_sep(
            hum_from(s, i, started, pending).last(),
        ),
        !started && hum_from(s, i, started, pending).len() > 0 ==> !is_sep(
            hum_from(s, i, started, pending)[0],
        ),
    decreases s.len() + 1 - i,
{
    let h = hum_from(s, i, started, pending);
    if i >= s.len() {
    } else if is_sep(s[i]) {
        lemma_hum_canon(s, i + 1, started, started);
    } else {
        lemma_hum_canon(s, i + 1, true, false);
        let rest = hum_from(s, i + 1, true, false);
        if pending {
            assert(h == seq![' ', s[i]] + rest);
            assert forall|k: int| 0 <= k && k + 1 < h.len() implies !(is_sep(#[trigger] h[k])
                && is_sep(h[k + 1])) by {
                if k == 1 {
                    assert(h[1] == s[i]);
                } else if k >= 2 {
                    assert(h[k] == rest[k - 2] && h[k + 1] == rest[k - 1]);
                }
            }
            if rest.len() > 0 {
                assert(h.last() == rest.last());
            } else {
                assert(h.last() == s[i]);
            }
        } else {
            assert(h == seq![s[i]] + rest);
            assert forall|k: int| 0 <= k && k + 1 < h.len() implies !(is_sep(#[trigger] h[k])
                && is_sep(h[k + 1])) by {
                if k >= 1 {
                    assert(h[k] == rest[k - 1] && h[k + 1] == rest[k]);
                }
            }
            if rest.len() > 0 {
                assert(h.last() == rest.last());
            } else {
                assert(h.last() == s[i]);
            }
        }
    }
}

/// Humanizing collapses every separator run: the result has no underscore
/// and no two adjacent spaces, and neither starts nor ends with a space.
pub proof fn lemma_humanized_canonical(s: Seq<char>)
    ensures
        canonical(humanized(s)),
{
    lemma_hum_canon(s, 0, false, false);
    let h = humanized(s);
    if h.len() > 0 {
        assert(h[h.len() - 1] == h.last());
    }
}

proof fn lemma_hum_fixed(s: Seq<char>, i: int)
    requires
        0 <= i <= s.len(),
        forall|k: int|
            i <= k < s.len() && is_sep(#[trigger] s[k]) ==> s[k] == ' ' && k + 1 < s.len()
                && !is_sep(s[k + 1]),
    ensures
        hum_from(s, i, true, false) == s.subrange(i, s.len() as int),
    decreases s.len() - i,
{
    if i == s.len() {
        assert(hum_from(s, i, true, false) =~= s.subrange(i, s.len() as int));
    } else if !is_sep(s[i]) {
        lemma_hum_fixed(s, i + 1);
        assert(hum_from(s, i, true, false) =~= s.subrange(i, s.len() as int));
    } else {
        assert(s[i] == ' ' && i + 1 < s.len() && !is_sep(s[i + 1]));
        lemma_hum_fixed(s, i + 2);
        assert(hum_from(s, i, true, false) == hum_from(s, i + 1, true, true));
        assert(hum_from(s, i + 1, true, true) == seq![' ', s[i + 1]] + hum_from(s, i + 2, true, false));
        assert(hum_from(s, i, true, false) =~= s.subrange(i, s.len() as int));
    }
}

/// No occurrence of the escape marker survives humanization, since the
/// marker holds an underscore and a canonical string has none.
proof fn lemma_canonical_no_marker(s: Seq<char>)
    requires
        canonical(s),
    ensures
        find_pat(s, marker_pat(), 0) == -1,
{
    assert forall|j: int| 0 <= j implies !pat_at(s, marker_pat(), j) by {
        if pat_at(s, marker_pat(), j) {
            assert(s.subrange(j, j + 4)[0] == marker_pat()[0]);
            assert(s[j] == '_');
            assert(is_sep(s[j]));
        }
    }
    lemma_find_pat(s, marker_pat(), 0);
    if find_pat(s, marker_pat(), 0) >= 0 {
        assert(pat_at(s, marker_pat(), find_pat(s, marker_pat(), 0)));
    }
}

/// A string already in humanized form passes through prettification
/// unchanged: re-feeding an already-prettified, underscore-free string
/// returns it as it is.
pub proof fn lemma_prettified_fixed_point(s: Seq<char>)
    requires
        canonical(s),
    ensures
        prettified(s) == s,
{
    lemma_canonical_no_marker(s);
    if s.len() == 0 {
        assert(humanized(s) =~= s);
    } else {
        assert(!is_sep(s[0]));
        lemma_hum_fixed(s, 1);
        assert(humanized(s) == seq![s[0]] + hum_from(s, 1, true, false));
        assert(humanized(s) =~= s);
    }
}

/// Without the escape marker, prettification is exactly humanization:
/// underscores become spaces and whitespace runs collapse, nothing more.
pub proof fn lemma_prettified_no_marker(s: Seq<char>)
    requires
        forall|j: int| !pat_at(s, marker_pat(), j),
    ensures
        prettified(s) == humanized(s),
{
    lemma_find_pat(s, marker_pat(), 0);
    if find_pat(s, marker_pat(), 0) >= 0 {
        assert(pat_at(s, marker_pat(), find_pat(s, marker_pat(), 0)));
    }
}

/// Prettification is stable: when the escape marker does not occur in the
/// identifier, prettifying its prettified form changes nothing.
pub proof fn lemma_prettify_stable(s: Seq<char>)
    requires
        forall|j: int| !pat_at(s, marker_pat(), j),
    ensures
        prettified(prettified(s)) == prettified(s),
{
    lemma_prettified_no_marker(s);
    lemma_humanized_canonical(s);
    lemma_prettified_fixed_point(humanized(s));
}

/// Humanizes the identifier held in `v`.
fn humanize(v: &Vec<char>) -> (r: String)
    ensures
        r@ == humanized(v@),
{
    let mut out = String::new();
    let mut started = false;
    let mut pending = false;
    let mut i: usize = 0;
    while i < v.len()
        invariant
            i <= v@.len(),
            humanized(v@) == out@ + hum_from(v@, i as int, started, pending),
        decreases v@.len() - i,
    {
        let c = v[i];
        if is_sep_exec(c) {
            pending = started;
        } else {
            if pending {
                out.push(' ');
                out.push(c);
                proof {
                    assert(out@ + hum_from(v@, i + 1, true, false) =~= humanized(v@));
                }
            } else {
                out.push(c);
                proof {
                    assert(out@ + hum_from(v@, i + 1, true, false) =~= humanized(v@));
                }
            }
            started = true;
            pending = false;
        }
        i = i + 1;
    }
    proof {
        assert(out@ + hum_from(v@, v@.len() as int, started, pending) =~= out@);
    }
    out
}

/// Formats the name of a test function as a sentence.
///
/// Underscores are replaced with spaces and runs of separators collapse
/// into one space. To retain the underscores in a leading function name,
/// put `_fn_` after it: `parse_line_fn_parses_a_line` becomes
/// `parse_line parses a line`.
pub fn prettify(input: &str) -> (r: String)
    ensures
        r@ == prettified(input@),
{
    let v = to_chars(input);
    let marker = marker_vec();
    match find_pat_exec(&v, &marker, 0) {
        None => humanize(&v),
        Some(j) => {
            proof {
                lemma_find_pat(v@, marker_pat(), 0);
                assert(marker_pat().len() == 4);
                assert(pat_at(v@, marker_pat(), j as int));
                assert(j + 4 <= v@.len());
            }
            let n = v.len();
            assert(j + 4 <= n);
            let mut out = from_chars(&v, 0, j);
            out.push(' ');
            let tail = sub_chars(&v, j + 4, n);
            let rest = humanize(&tail);
            let out = out.concat(rest.as_str());
            proof {
                assert(out@ =~= prettified(input@));
            }
            out
        },
    }
}

} // verus!
