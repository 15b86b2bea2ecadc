//! The line classifier and the whole-output parser. A test-result line
//! begins with `test `, is neither the aggregate summary line (whose rest
//! begins with `result`) nor a documentation-test line (which reports a
//! source position ` (line `), and splits at the first ` ... ` into a raw
//! test path and a raw status token. The last `::`-segment of the path is
//! the bare test name; what precedes it is the raw module path.

use vstd::prelude::*;

use crate::modpath::module_of;
use crate::modpath::prettify_module;
use crate::modpath::sep_pat;
use crate::modpath::sep_vec;
use crate::prettify::prettified;
use crate::prettify::prettify;
use crate::record::status_of;
use crate::record::status_from_chars;
use crate::record::ParseError;
use crate::record::TestResult;
use crate::record::TestResultView;
use crate::text::find_pat;
use crate::text::find_pat_exec;
use crate::text::from_chars;
use crate::text::lemma_find_pat;
use crate::text::lemma_rfind_pat;
use crate::text::pat_at;
use crate::text::pat_at_exec;
use crate::text::rfind_pat;
use crate::text::rfind_pat_exec;
use crate::text::sub_chars;
use crate::text::to_chars;

verus! {

/// The prefix of every test-result line.
pub open spec fn test_prefix() -> Seq<char> {
    seq!['t', 'e', 's', 't', ' ']
}

/// The prefix, after `test `, of the run's aggregate summary line.
pub open spec fn result_prefix() -> Seq<char> {
    seq!['r', 'e', 's', 'u', 'l', 't']
}

/// The source-position fragment that marks a documentation-test line.
pub open spec fn line_marker() -> Seq<char> {
    seq![' ', '(', 'l', 'i', 'n', 'e', ' ']
}

/// The separator between the test path and the status token.
pub open spec fn dots_sep() -> Seq<char> {
    seq![' ', '.', '.', '.', ' ']
}

fn test_prefix_vec() -> (r: Vec<char>)
    ensures
        r@ == test_prefix(),
{
    let mut r: Vec<char> = Vec::new();
    r.push('t');
    r.push('e');
    r.push('s');
    r.push('t');
    r.push(' ');
    proof {
        assert(r@ =~= test_prefix());
    }
    r
}

fn result_prefix_vec() -> (r: Vec<char>)
    ensures
        r@ == result_prefix(),
{
    let mut r: Vec<char> = Vec::new();
    r.push('r');
    r.push('e');
    r.push('s');
    r.push('u');
    r.push('l');
    r.push('t');
    proof {
        assert(r@ =~= result_prefix());
    }
    r
}

fn line_marker_vec() -> (r: Vec<char>)
    ensures
        r@ == line_marker(),
{
    let mut r: Vec<char> = Vec::new();
    r.push(' ');
    r.push('(');
    r.push('l');
    r.push('i');
    r.push('n');
    r.push('e');
    r.push(' ');
    proof {
        assert(r@ =~= line_marker());
    }
    r
}

fn dots_sep_vec() -> (r: Vec<char>)
    ensures
        r@ == dots_sep(),
{
    let mut r: Vec<char> = Vec::new();
    r.push(' ');
    r.push('.');
    r.push('.');
    r.push('.');
    r.push(' ');
    proof {
        assert(r@ =~= dots_sep());
    }
    r
}

/// What one line of runner output means: not a test-result line at all
/// (`Ok(None)`), a classified record (`Ok(Some(..))`), or a result line
/// whose status token lies outside the vocabulary (`Err(token)`).
pub open spec fn line_parse(s: Seq<char>) -> Result<Option<TestResultView>, Seq<char>> {
    if !pat_at(s, test_prefix(), 0) {
        Ok(None)
    } else if pat_at(s, result_prefix(), 5) {
        Ok(None)
    } else if find_pat(s, line_marker(), 5) >= 0 {
        Ok(None)
    } else {
        let j = find_pat(s, dots_sep(), 5);
        if j < 0 {
            Ok(None)
        } else {
            let token = s.subrange(j + 5, s.len() as int);
            let k = rfind_pat(s, sep_pat(), 5, j - 2);
            match status_of(token) {
                Some(status) => Ok(
                    Some(
                        TestResultView {
                            module: if k < 0 {
                                None
                            } else {
                                module_of(s.subrange(5, k))
                            },
                            name: if k < 0 {
                                prettified(s.subrange(5, j))
                            } else {
                                prettified(s.subrange(k + 2, j))
                            },
                            status,
                        },
                    ),
                ),
                None => Err(token),
            }
        }
    }
}

/// The view of a possibly absent record.
pub open spec fn opt_view(o: Option<TestResult>) -> Option<TestResultView> {
    match o {
        Some(t) => Some(t@),
        None => None,
    }
}

fn parse_line_chars(v: &Vec<char>) -> (r: Result<Option<TestResult>, ParseError>)
    ensures
        match r {
            Ok(opt) => line_parse(v@) == Ok::<Option<TestResultView>, Seq<char>>(opt_view(opt)),
            Err(e) => line_parse(v@) == Err::<Option<TestResultView>, Seq<char>>(e.token@),
        },
{
    let test_p = test_prefix_vec();
    if !pat_at_exec(v, &test_p, 0) {
        return Ok(None);
    }
    let result_p = result_prefix_vec();
    if pat_at_exec(v, &result_p, 5) {
        return Ok(None);
    }
    let line_p = line_marker_vec();
    match find_pat_exec(v, &line_p, 5) {
        Some(_) => {
            proof {
                lemma_find_pat(v@, line_marker(), 5);
            }
            return Ok(None);
        },
        None => {},
    }
    let dots_p = dots_sep_vec();
    let j = match find_pat_exec(v, &dots_p, 5) {
        None => {
            return Ok(None);
        },
        Some(j) => j,
    };
    proof {
        lemma_find_pat(v@, dots_sep(), 5);
        assert(5 <= j && pat_at(v@, dots_sep(), j as int));
        assert(j + 5 <= v.len());
    }
    let n = v.len();
    let token_v = sub_chars(v, j + 5, n);
    let status = match status_from_chars(&token_v) {
        Some(status) => status,
        None => {
            return Err(ParseError { token: from_chars(v, j + 5, n) });
        },
    };
    let sep_p = sep_vec();
    let record = match rfind_pat_exec(v, &sep_p, 5, j - 1) {
        None => {
            let name_raw = from_chars(v, 5, j);
            TestResult { module: None, name: prettify(name_raw.as_str()), status }
        },
        Some(k) => {
            proof {
                lemma_rfind_pat(v@, sep_pat(), 5, j - 2);
                assert(pat_at(v@, sep_pat(), k as int));
                assert(5 <= k && k + 2 <= j);
            }
            let module_raw = from_chars(v, 5, k);
            let name_raw = from_chars(v, k + 2, j);
            TestResult {
                module: prettify_module(module_raw.as_str()),
                name: prettify(name_raw.as_str()),
                status,
            }
        },
    };
    Ok(Some(record))
}

/// The newline character, as a pattern.
pub open spec fn nl_pat() -> Seq<char> {
    seq!['\n']
}

/// A line with one trailing carriage return dropped: what stands before a
/// newline in `\r\n`-terminated output.
pub open spec fn chomp_cr(l: Seq<char>) -> Seq<char> {
    if l.len() > 0 && l[l.len() - 1] == '\r' {
        l.drop_last()
    } else {
        l
    }
}

/// The lines of `s` from position `i` on: text is split at each newline,
/// a carriage return immediately before a newline is dropped, and a final
/// line ending produces no extra empty line.
pub open spec fn lines_from(s: Seq<char>, i: int) -> Seq<Seq<char>>
    decreases s.len() + 1 - i,
{
    if i < 0 || i >= s.len() {
        Seq::empty()
    } else {
        let j = find_pat(s, nl_pat(), i);
        if i <= j && j + 1 <= s.len() {
            seq![chomp_cr(s.subrange(i, j))] + lines_from(s, j + 1)
        } else {
            seq![s.subrange(i, s.len() as int)]
        }
    }
}

/// The lines of a whole output text.
pub open spec fn spec_lines(s: Seq<char>) -> Seq<Seq<char>> {
    lines_from(s, 0)
}

/// What a sequence of lines parses to: the records of its test-result
/// lines in source order, or the token of its earliest offending line.
pub open spec fn parse_all(ls: Seq<Seq<char>>) -> Result<Seq<TestResultView>, Seq<char>>
    decreases ls.len(),
{
    if ls.len() == 0 {
        Ok(Seq::empty())
    } else {
        match line_parse(ls[0]) {
            Err(t) => Err(t),
            Ok(opt) => match parse_all(ls.drop_first()) {
                Err(t) => Err(t),
                Ok(rest) => Ok(
                    match opt {
                        Some(r) => seq![r] + rest,
                        None => rest,
                    },
                ),
            },
        }
    }
}

/// The views of a sequence of records.
pub open spec fn views_of(rs: Seq<TestResult>) -> Seq<TestResultView> {
    Seq::new(rs.len(), |i: int| rs[i]@)
}

/// Results come in source order: parsing the concatenation of two line
/// sequences yields the results of the first followed by the results of
/// the second, and the error of the earliest offending line.
pub proof fn lemma_parse_all_append(ls1: Seq<Seq<char>>, ls2: Seq<Seq<char>>)
    ensures
        parse_all(ls1 + ls2) == match parse_all(ls1) {
            Err(t) => Err::<Seq<TestResultView>, Seq<char>>(t),
            Ok(r1) => match parse_all(ls2) {
                Err(t) => Err::<Seq<TestResultView>, Seq<char>>(t),
                Ok(r2) => Ok::<Seq<TestResultView>, Seq<char>>(r1 + r2),
            },
        },
    decreases ls1.len(),
{
    if ls1.len() == 0 {
        assert(ls1 + ls2 =~= ls2);
        if parse_all(ls2) is Ok {
            let r2 = parse_all(ls2)->Ok_0;
            assert(Seq::<TestResultView>::empty() + r2 =~= r2);
        }
    } else {
        lemma_parse_all_append(ls1.drop_first(), ls2);
        assert((ls1 + ls2).drop_first() =~= ls1.drop_first() + ls2);
        assert((ls1 + ls2)[0] == ls1[0]);
        match line_parse(ls1[0]) {
            Err(_) => {},
            Ok(opt) => {
                match parse_all(ls1.drop_first()) {
                    Err(_) => {},
                    Ok(rest1) => {
                        match parse_all(ls2) {
                            Err(_) => {},
                            Ok(r2) => {
                                match opt {
                                    Some(r) => {
                                        assert(seq![r] + (rest1 + r2) =~= (seq![r] + rest1) + r2);
                                    },
                                    None => {},
                                }
                            },
                        }
                    },
                }
            },
        }
    }
}

fn nl_vec() -> (r: Vec<char>)
    ensures
        r@ == nl_pat(),
{
    let mut r: Vec<char> = Vec::new();
    r.push('\n');
    proof {
        assert(r@ =~= nl_pat());
    }
    r
}

/// Parses the whole output of the test runner into the records of its
/// test-result lines, in source order; the first line with an unknown
/// status token aborts the run with an error naming that token.
pub fn parse_test_results(test_output: &str) -> (r: Result<Vec<TestResult>, ParseError>)
    ensures
        match r {
            Ok(results) => parse_all(spec_lines(test_output@)) == Ok::<
                Seq<TestResultView>,
                Seq<char>,
            >(views_of(results@)),
            Err(e) => parse_all(spec_lines(test_output@)) == Err::<
                Seq<TestResultView>,
                Seq<char>,
            >(e.token@),
        },
{
    let v = to_chars(test_output);
    let nl = nl_vec();
    let mut results: Vec<TestResult> = Vec::new();
    let mut pos: usize = 0;
    while pos < v.len()
        invariant
            pos <= v@.len(),
            nl@ == nl_pat(),
            v@ == test_output@,
            match parse_all(lines_from(v@, pos as int)) {
                Ok(rest) => parse_all(spec_lines(v@)) == Ok::<Seq<TestResultView>, Seq<char>>(
                    views_of(results@) + rest,
                ),
                Err(t) => parse_all(spec_lines(v@)) == Err::<Seq<TestResultView>, Seq<char>>(t),
            },
        decreases v@.len() - pos,
    {
        let ghost remaining = lines_from(v@, pos as int);
        let line_end: usize;
        let next_pos: usize;
        match find_pat_exec(&v, &nl, pos) {
            Some(j) => {
                proof {
                    lemma_find_pat(v@, nl_pat(), pos as int);
                    assert(pos <= j && pat_at(v@, nl_pat(), j as int));
                    assert(j + 1 <= v.len());
                }
                line_end = j;
                next_pos = j + 1;
            },
            None => {
                line_end = v.len();
                next_pos = v.len();
            },
        }
        let mut line_v = sub_chars(&v, pos, line_end);
        if next_pos <= line_end {
            // no newline was found: the rest of the text is the final
            // line, kept as it is
            proof {
                assert(remaining =~= seq![v@.subrange(pos as int, v@.len() as int)]);
                assert(line_v@ == remaining[0]);
                assert(remaining.drop_first() =~= Seq::<Seq<char>>::empty());
            }
        } else {
            // the line runs up to the newline at `line_end`; drop one
            // carriage return before it
            if line_v.len() > 0 && line_v[line_v.len() - 1] == '\r' {
                line_v.pop();
                proof {
                    assert(line_v@ =~= chomp_cr(v@.subrange(pos as int, line_end as int)));
                }
            } else {
                proof {
                    assert(line_v@ =~= chomp_cr(v@.subrange(pos as int, line_end as int)));
                }
            }
            proof {
                assert(remaining =~= seq![chomp_cr(v@.subrange(pos as int, line_end as int))]
                    + lines_from(v@, next_pos as int));
                assert(line_v@ == remaining[0]);
                assert(remaining.drop_first() =~= lines_from(v@, next_pos as int));
            }
        }
        proof {
            assert(remaining.len() > 0);
        }
        match parse_line_chars(&line_v) {
            Err(e) => {
                proof {
                    assert(parse_all(remaining) == Err::<Seq<TestResultView>, Seq<char>>(e.token@));
                }
                return Err(e);
            },
            Ok(opt) => {
                let ghost old_views = views_of(results@);
                match opt {
                    Some(record) => {
                        let ghost rv = record@;
                        results.push(record);
                        proof {
                            assert(views_of(results@) =~= old_views.push(rv));
                        }
                    },
                    None => {},
                }
                proof {
                    match parse_all(lines_from(v@, next_pos as int)) {
                        Ok(rest_next) => {
                            match parse_all(remaining) {
                                Ok(rest_here) => {
                                    assert(views_of(results@) + rest_next =~= old_views
                                        + rest_here);
                                },
                                Err(_) => {
                                    assert(false);
                                },
                            }
                        },
                        Err(_) => {},
                    }
                }
            },
        }
        pos = next_pos;
    }
    proof {
        assert(lines_from(v@, pos as int) =~= Seq::<Seq<char>>::empty());
        assert(views_of(results@) + Seq::<TestResultView>::empty() =~= views_of(results@));
    }
    Ok(results)
}

/// Parses a line from the output of the test runner.
///
/// A line that does not describe a test's result is `Ok(None)`; a
/// test-result line with an unknown status token is an error naming that
/// token.
pub fn parse_line(line: &str) -> (r: Result<Option<TestResult>, ParseError>)
    ensures
        match r {
            Ok(opt) => line_parse(line@) == Ok::<Option<TestResultView>, Seq<char>>(opt_view(opt)),
            Err(e) => line_parse(line@) == Err::<Option<TestResultView>, Seq<char>>(e.token@),
        },
{
    let v = to_chars(line);
    parse_line_chars(&v)
}

} // verus!
