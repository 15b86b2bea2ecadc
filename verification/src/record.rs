//! The result model: the status of a test, the classified record, the
//! error for an unknown status token, and their canonical textual
//! renderings.

use vstd::prelude::*;

use crate::text::chars_eq;

verus! {

/// The status of a given test, as reported by the test runner.
#[derive(Debug, PartialEq, Eq, Structural, Clone, Copy)]
pub enum Status {
    Pass,
    Fail,
    Ignored,
}

/// The raw status vocabulary: which status a token names, if any. The set
/// is closed; every other token is an unrecoverable parse error.
pub open spec fn status_of(t: Seq<char>) -> Option<Status> {
    if t == seq!['o', 'k'] {
        Some(Status::Pass)
    } else if t == seq!['F', 'A', 'I', 'L', 'E', 'D'] {
        Some(Status::Fail)
    } else if t == seq!['i', 'g', 'n', 'o', 'r', 'e', 'd'] {
        Some(Status::Ignored)
    } else {
        None
    }
}

/// The fixed one-glyph rendering of a status: a check mark for a pass, a
/// cross for a failure, a question mark for an ignored test.
pub open spec fn glyph_of(status: Status) -> char {
    match status {
        Status::Pass => '✔',
        Status::Fail => 'x',
        Status::Ignored => '?',
    }
}

impl Status {
    /// The one-glyph rendering of this status.
    pub fn glyph(&self) -> (r: char)
        ensures
            r == glyph_of(*self),
    {
        match self {
            Status::Pass => '✔',
            Status::Fail => 'x',
            Status::Ignored => '?',
        }
    }
}

/// Reads a status token held as characters.
pub fn status_from_chars(v: &Vec<char>) -> (r: Option<Status>)
    ensures
        r == status_of(v@),
{
    let mut ok_pat: Vec<char> = Vec::new();
    ok_pat.push('o');
    ok_pat.push('k');
    proof {
        assert(ok_pat@ =~= seq!['o', 'k']);
    }
    if chars_eq(v, &ok_pat) {
        return Some(Status::Pass);
    }
    let mut failed_pat: Vec<char> = Vec::new();
    failed_pat.push('F');
    failed_pat.push('A');
    failed_pat.push('I');
    failed_pat.push('L');
    failed_pat.push('E');
    failed_pat.push('D');
    proof {
        assert(failed_pat@ =~= seq!['F', 'A', 'I', 'L', 'E', 'D']);
    }
    if chars_eq(v, &failed_pat) {
        return Some(Status::Fail);
    }
    let mut ignored_pat: Vec<char> = Vec::new();
    ignored_pat.push('i');
    ignored_pat.push('g');
    ignored_pat.push('n');
    ignored_pat.push('o');
    ignored_pat.push('r');
    ignored_pat.push('e');
    ignored_pat.push('d');
    proof {
        assert(ignored_pat@ =~= seq!['i', 'g', 'n', 'o', 'r', 'e', 'd']);
    }
    if chars_eq(v, &ignored_pat) {
        return Some(Status::Ignored);
    }
    None
}

/// The unrecoverable error for a line that has the shape of a test-result
/// line but carries a status token outside the known vocabulary.
#[derive(Debug, PartialEq)]
pub struct ParseError {
    /// The unexpected raw status token.
    pub token: String,
}

/// The diagnostic text naming an unexpected status token.
pub open spec fn error_message_of(token: Seq<char>) -> Seq<char> {
    "unhandled test status \""@ + token + seq!['"']
}

impl View for ParseError {
    type V = Seq<char>;

    open spec fn view(&self) -> Seq<char> {
        self.token@
    }
}

impl ParseError {
    /// The diagnostic line identifying the offending token.
    pub fn message(&self) -> (r: String)
        ensures
            r@ == error_message_of(self.token@),
    {
        let mut out = String::from_str("unhandled test status \"");
        out.append(self.token.as_str());
        out.push('"');
        proof {
            assert(out@ =~= error_message_of(self.token@));
        }
        out
    }
}

impl Status {
    /// Reads a raw status token: `ok`, `FAILED` or `ignored`. Any other
    /// token is returned inside the error, for diagnosis.
    pub fn from_token(token: &str) -> (r: Result<Status, ParseError>)
        ensures
            match r {
                Ok(status) => status_of(token@) == Some(status),
                Err(e) => status_of(token@) is None && e.token@ == token@,
            },
    {
        let v = crate::text::to_chars(token);
        match status_from_chars(&v) {
            Some(status) => Ok(status),
            None => Err(ParseError { token: String::from_str(token) }),
        }
    }
}

/// The (prettified) name and pass/fail status of a given test.
#[derive(Debug, PartialEq)]
pub struct TestResult {
    /// The enclosing module path, absent for a top-level test.
    pub module: Option<String>,
    /// The prettified test name.
    pub name: String,
    /// The reported outcome.
    pub status: Status,
}

/// The mathematical shadow of a `TestResult`.
pub ghost struct TestResultView {
    pub module: Option<Seq<char>>,
    pub name: Seq<char>,
    pub status: Status,
}

impl View for TestResult {
    type V = TestResultView;

    open spec fn view(&self) -> TestResultView {
        TestResultView {
            module: match self.module {
                Some(m) => Some(m@),
                None => None,
            },
            name: self.name@,
            status: self.status,
        }
    }
}

/// The canonical rendering of a record: the status glyph, then the module
/// path and an en dash when a module is present, then the name.
pub open spec fn rendered(r: TestResultView) -> Seq<char> {
    match r.module {
        Some(m) => seq![glyph_of(r.status), ' '] + m + seq![' ', '–', ' '] + r.name,
        None => seq![glyph_of(r.status), ' '] + r.name,
    }
}

impl TestResult {
    /// The canonical textual rendering of this record.
    pub fn render(&self) -> (r: String)
        ensures
            r@ == rendered(self@),
    {
        let mut out = String::new();
        out.push(self.status.glyph());
        out.push(' ');
        match &self.module {
            Some(m) => {
                out.append(m.as_str());
                out.push(' ');
                out.push('–');
                out.push(' ');
                out.append(self.name.as_str());
            },
            None => {
                out.append(self.name.as_str());
            },
        }
        proof {
            assert(out@ =~= rendered(self@));
        }
        out
    }
}

} // verus!
