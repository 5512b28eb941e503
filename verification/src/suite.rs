//! The suite model: an ordered collection of discovered tests, each with a
//! mutable status, owning the original source text verbatim.
use vstd::prelude::*;

use crate::discovery::dedup_first;
use crate::discovery::discovered;
use crate::discovery::is_test_name;
use crate::discovery::lemma_dedup_first;
use crate::discovery::test_names;
use crate::ingest::ingest_line;
use crate::ingest::ingest_lines;
use crate::ingest::set_status;
use crate::ingest::IngestState;
use crate::runner::push_python_line;
use crate::runner::runner_blocks;
use crate::runner::runner_header;
use crate::runner::runner_test_block;
use crate::runner::runner_text;
use crate::parse::parse_of;
use crate::parse::parse_top_level;
use crate::parse::ParseFailure;
use crate::parse::TopStmt;
use crate::text::lines_of;
use crate::text::tokens_of;
use vstd::string::StringExecFns;

verus! {

/// Classification of a Python test failure, read off the last line of its
/// rendered traceback.
#[derive(Debug, PartialEq, Eq, PartialOrd, Ord)]
pub enum PyError {
    AssertionError,
    Other,
}

/// The raw captured traceback text of one failing test.
#[derive(Debug, PartialEq, Eq, PartialOrd, Ord)]
pub struct Traceback {
    text: String,
}

/// The status cell of one test: initially `NoRun`, set to `Pass` or `Fail`
/// by result ingestion.
#[derive(Debug, Default, PartialEq, Eq)]
pub enum TestStatus {
    #[default]
    NoRun,
    Pass,
    Fail(PyError, Traceback),
}

/// One discovered test: its function name and its status cell.
#[derive(Debug, PartialEq)]
pub struct Pytest {
    name: String,
    pub status: TestStatus,
}

/// A suite: the original source text and the discovered tests, in first
/// occurrence order, with pairwise distinct names.
#[derive(Debug, PartialEq)]
pub struct TestSuite {
    pub(crate) src: String,
    pub tests: Vec<Pytest>,
}

/// Mathematical value of a status cell.
pub ghost enum StatusV {
    NoRun,
    Pass,
    Fail(PyError, Seq<char>),
}

/// Mathematical value of one test.
pub ghost struct TestV {
    pub name: Seq<char>,
    pub status: StatusV,
}

/// Mathematical value of a suite.
pub ghost struct SuiteV {
    pub src: Seq<char>,
    pub tests: Seq<TestV>,
}

impl View for Traceback {
    type V = Seq<char>;

    closed spec fn view(&self) -> Seq<char> {
        self.text@
    }
}

impl View for TestStatus {
    type V = StatusV;

    open spec fn view(&self) -> StatusV {
        match self {
            TestStatus::NoRun => StatusV::NoRun,
            TestStatus::Pass => StatusV::Pass,
            TestStatus::Fail(kind, tb) => StatusV::Fail(*kind, tb@),
        }
    }
}

impl View for Pytest {
    type V = TestV;

    closed spec fn view(&self) -> TestV {
        TestV { name: self.name@, status: self.status@ }
    }
}

impl View for TestSuite {
    type V = SuiteV;

    closed spec fn view(&self) -> SuiteV {
        SuiteV { src: self.src@, tests: self.tests@.map_values(|t: Pytest| t@) }
    }
}

impl SuiteV {
    /// The test names, in suite order.
    pub open spec fn names(self) -> Seq<Seq<char>> {
        self.tests.map_values(|t: TestV| t.name)
    }

    /// Names are pairwise distinct.
    pub open spec fn wf(self) -> bool {
        forall|i: int, j: int|
            0 <= i < j < self.tests.len() ==> self.tests[i].name != self.tests[j].name
    }
}

impl Traceback {
    /// Wraps captured traceback text.
    pub fn new(text: String) -> (r: Traceback)
        ensures
            r@ == text@,
    {
        Traceback { text }
    }

    /// The wrapped text.
    pub fn text(&self) -> (r: &str)
        ensures
            r@ == self@,
    {
        self.text.as_str()
    }
}

impl PyError {
    /// The error kind of a rendered traceback: `AssertionError` exactly when
    /// the final line of `text` is the literal `AssertionError`; any other
    /// final line, and text without a line, is `Other`.
    pub open spec fn of_text(text: Seq<char>) -> PyError {
        if lines_of(text).len() > 0 && lines_of(text).last() == "AssertionError"@ {
            PyError::AssertionError
        } else {
            PyError::Other
        }
    }

    /// Classifies a rendered traceback by its final line.
    pub fn classify(text: &str) -> (r: PyError)
        ensures
            r == PyError::of_text(text@),
    {
        let lines = crate::text::split_lines(text);
        if lines.len() == 0 {
            PyError::Other
        } else {
            let last = &lines[lines.len() - 1];
            assert(last@ == lines_of(text@).last());
            if crate::text::str_eq(last.as_str(), "AssertionError") {
                PyError::AssertionError
            } else {
                PyError::Other
            }
        }
    }
}

/// Index of the first test in `tests` named `name`, or `tests.len()` if
/// there is none.
pub open spec fn find_name(tests: Seq<TestV>, name: Seq<char>) -> nat
    decreases tests.len(),
{
    if tests.len() == 0 {
        0
    } else if tests[0].name == name {
        0
    } else {
        1 + find_name(tests.drop_first(), name)
    }
}

pub proof fn lemma_find_name(tests: Seq<TestV>, name: Seq<char>)
    ensures
        find_name(tests, name) <= tests.len(),
        forall|j: int| 0 <= j < find_name(tests, name) ==> tests[j].name != name,
        find_name(tests, name) < tests.len() ==> tests[find_name(tests, name) as int].name
            == name,
    decreases tests.len(),
{
    if tests.len() > 0 && tests[0].name != name {
        lemma_find_name(tests.drop_first(), name);
        assert(forall|j: int| 1 <= j < tests.len() ==> tests[j] == tests.drop_first()[j - 1]);
    }
}

pub proof fn lemma_find_name_is_first(tests: Seq<TestV>, name: Seq<char>, i: int)
    requires
        0 <= i <= tests.len(),
        forall|j: int| 0 <= j < i ==> tests[j].name != name,
        i < tests.len() ==> tests[i].name == name,
    ensures
        find_name(tests, name) == i,
    decreases tests.len(),
{
    if tests.len() > 0 && tests[0].name != name {
        assert(forall|j: int| 1 <= j < tests.len() ==> tests[j] == tests.drop_first()[j - 1]);
        lemma_find_name_is_first(tests.drop_first(), name, i - 1);
    }
}

impl Pytest {
    /// A freshly discovered test: named, not yet run.
    pub fn new(name: String) -> (r: Pytest)
        ensures
            r@ == (TestV { name: name@, status: StatusV::NoRun }),
    {
        Pytest { name, status: TestStatus::NoRun }
    }

    /// The test's function name.
    pub fn name(&self) -> (r: &str)
        ensures
            r@ == self@.name,
    {
        self.name.as_str()
    }

    /// A fixed report marker exactly when the test has failed; nothing for a
    /// passed or not-yet-run test.
    pub fn failure_report(&self) -> (r: Option<String>)
        ensures
            r is Some <==> self@.status is Fail,
            r matches Some(m) ==> m@ == "failed"@,
    {
        match &self.status {
            TestStatus::Fail(_, _) => Some("failed".to_owned()),
            _ => None,
        }
    }
}

impl TestSuite {
    /// Builds a suite from source text: the text is parsed, and each
    /// top-level function definition whose name starts with `test_` becomes
    /// one not-yet-run test, in source order, a repeated name keeping its
    /// first position. Source the grammar rejects yields the parse failure
    /// instead, and no suite.
    pub fn try_from(src: &str) -> (r: Result<TestSuite, ParseFailure>)
        ensures
            r is Ok <==> parse_of(src@) is Some,
            r matches Ok(s) ==> {
                &&& s@.src == src@
                &&& s@.tests == discovered(parse_of(src@)->Some_0)
                &&& s@.wf()
            },
    {
        match parse_top_level(src) {
            Err(e) => Err(ParseFailure { cause: e }),
            Ok(stmts) => {
                let ghost sv = stmts@.map_values(|s: TopStmt| s@);
                let mut tests: Vec<Pytest> = Vec::new();
                let mut k: usize = 0;
                proof {
                    assert(sv.take(0) =~= Seq::<Option<Seq<char>>>::empty());
                    assert(tests@.map_values(|t: Pytest| t@) =~= discovered(sv.take(0)));
                }
                while k < stmts.len()
                    invariant
                        0 <= k <= stmts.len(),
                        sv == stmts@.map_values(|s: TopStmt| s@),
                        tests@.map_values(|t: Pytest| t@) == discovered(sv.take(k as int)),
                    decreases stmts.len() - k,
                {
                    let ghost tn = test_names(sv.take(k as int));
                    let ghost d = dedup_first(tn);
                    let ghost tv = tests@.map_values(|t: Pytest| t@);
                    proof {
                        assert(sv.take(k + 1).drop_last() =~= sv.take(k as int));
                        assert(sv.take(k + 1).last() == sv[k as int]);
                    }
                    match &stmts[k] {
                        TopStmt::Def(name) => {
                            if crate::text::str_starts_with(name.as_str(), "test_") {
                                proof {
                                    assert(sv[k as int] == Some(name@));
                                    assert(test_names(sv.take(k + 1)) =~= tn.push(name@));
                                    assert(tn.push(name@).drop_last() =~= tn);
                                    lemma_find_name(tv, name@);
                                    if find_name(tv, name@) < tv.len() {
                                        assert(d[find_name(tv, name@) as int] == name@);
                                        assert(d.contains(name@));
                                    }
                                    if d.contains(name@) {
                                        let w = choose|w: int|
                                            0 <= w < d.len() && d[w] == name@;
                                        assert(tv[w].name == name@);
                                        assert(find_name(tv, name@) < tv.len());
                                    }
                                }
                                let dup = find_test(&tests, name.as_str());
                                if dup.is_none() {
                                    tests.push(Pytest::new(name.clone()));
                                    proof {
                                        assert(tests@.map_values(|t: Pytest| t@) =~= tv.push(
                                            TestV { name: name@, status: StatusV::NoRun },
                                        ));
                                        assert(tests@.map_values(|t: Pytest| t@)
                                            =~= discovered(sv.take(k + 1)));
                                    }
                                } else {
                                    proof {
                                        assert(dedup_first(tn.push(name@)) == d);
                                        assert(tests@.map_values(|t: Pytest| t@)
                                            =~= discovered(sv.take(k + 1)));
                                    }
                                }
                            } else {
                                proof {
                                    assert(sv[k as int] == Some(name@));
                                    assert(!is_test_name(name@));
                                    assert(test_names(sv.take(k + 1)) =~= tn);
                                    assert(tests@.map_values(|t: Pytest| t@) =~= discovered(
                                        sv.take(k + 1),
                                    ));
                                }
                            }
                        },
                        TopStmt::Other => {
                            proof {
                                assert(sv[k as int] is None);
                                assert(test_names(sv.take(k + 1)) =~= tn);
                                assert(tests@.map_values(|t: Pytest| t@) =~= discovered(
                                    sv.take(k + 1),
                                ));
                            }
                        },
                    }
                    k += 1;
                }
                proof {
                    assert(sv.take(stmts@.len() as int) =~= sv);
                    lemma_dedup_first(test_names(sv));
                }
                let s = TestSuite { src: src.to_owned(), tests };
                proof {
                    assert(s@.tests == discovered(sv));
                    assert forall|i: int, j: int|
                        0 <= i < j < s@.tests.len() implies s@.tests[i].name != s@.tests[j].name
                    by {
                        assert(s@.tests[i].name == dedup_first(test_names(sv))[i]);
                        assert(s@.tests[j].name == dedup_first(test_names(sv))[j]);
                    }
                }
                Ok(s)
            },
        }
    }

    /// The original source text the suite was built from.
    pub fn source(&self) -> (r: &str)
        ensures
            r@ == self@.src,
    {
        self.src.as_str()
    }

    /// The first test named `name`, if any.
    pub fn get_test(&self, name: &str) -> (r: Option<&Pytest>)
        ensures
            r is Some <==> find_name(self@.tests, name@) < self@.tests.len(),
            r matches Some(t) ==> t@ == self@.tests[find_name(self@.tests, name@) as int],
    {
        let idx = find_test(&self.tests, name);
        match idx {
            Some(k) => Some(&self.tests[k]),
            None => None,
        }
    }

    /// Whether a test named `name` was discovered.
    pub fn contains_test(&self, name: &str) -> (r: bool)
        ensures
            r == (find_name(self@.tests, name@) < self@.tests.len()),
    {
        find_test(&self.tests, name).is_some()
    }

    /// The wrapper script for this suite under run identifier `id`: the
    /// original source verbatim, one blank line, and the driver block that
    /// runs each test in suite order and prints its marker lines.
    #[verifier::rlimit(100)]
    pub fn runner(&self, id: &str) -> (r: String)
        ensures
            r@ == runner_text(self@.src, self@.names(), id@),
    {
        let ghost names = self@.names();
        let mut driver: String = "if __name__ == \"__main__\":".to_owned();
        driver.append("\n");
        push_python_line(&mut driver, 1, &["from traceback import TracebackException"]);
        push_python_line(&mut driver, 1, &["import sys"]);
        proof {
            assert(["from traceback import TracebackException"]@.map_values(|p: &str| p@)
                =~= seq!["from traceback import TracebackException"@]);
            assert(["import sys"]@.map_values(|p: &str| p@) =~= seq!["import sys"@]);
            assert(names.take(0) =~= Seq::<Seq<char>>::empty());
            assert(driver@ =~= runner_header() + runner_blocks(id@, names.take(0)));
        }
        let mut k: usize = 0;
        while k < self.tests.len()
            invariant
                0 <= k <= self.tests.len(),
                names == self@.names(),
                names.len() == self.tests.len(),
                driver@ == runner_header() + runner_blocks(id@, names.take(k as int)),
            decreases self.tests.len() - k,
        {
            driver.append("\n");
            let name: &str = self.tests[k].name.as_str();
            assert(name@ == names[k as int]);
            push_python_line(&mut driver, 1, &["print(\"", id, " ", name, " RUNNING\")"]);
            push_python_line(&mut driver, 1, &["try:"]);
            push_python_line(&mut driver, 2, &[name, "()"]);
            push_python_line(&mut driver, 1, &["except Exception:"]);
            push_python_line(
                &mut driver,
                2,
                &[
                    "TracebackException.from_exception(sys.exception(), capture_locals=True).print(file=sys.stdout)",
                ],
            );
            push_python_line(&mut driver, 2, &["print(\"", id, " ", name, " FAIL\")"]);
            push_python_line(&mut driver, 1, &["else:"]);
            push_python_line(&mut driver, 2, &["print(\"", id, " ", name, " PASS\")"]);
            proof {
                assert(["print(\"", id, " ", name, " RUNNING\")"]@.map_values(|p: &str| p@)
                    =~= seq!["print(\""@, id@, " "@, name@, " RUNNING\")"@]);
                assert(["try:"]@.map_values(|p: &str| p@) =~= seq!["try:"@]);
                assert([name, "()"]@.map_values(|p: &str| p@) =~= seq![name@, "()"@]);
                assert(["except Exception:"]@.map_values(|p: &str| p@)
                    =~= seq!["except Exception:"@]);
                assert([
                    "TracebackException.from_exception(sys.exception(), capture_locals=True).print(file=sys.stdout)",
                ]@.map_values(|p: &str| p@)
                    =~= seq![
                    "TracebackException.from_exception(sys.exception(), capture_locals=True).print(file=sys.stdout)"@,
                ]);
                assert(["print(\"", id, " ", name, " FAIL\")"]@.map_values(|p: &str| p@)
                    =~= seq!["print(\""@, id@, " "@, name@, " FAIL\")"@]);
                assert(["else:"]@.map_values(|p: &str| p@) =~= seq!["else:"@]);
                assert(["print(\"", id, " ", name, " PASS\")"]@.map_values(|p: &str| p@)
                    =~= seq!["print(\""@, id@, " "@, name@, " PASS\")"@]);
                assert(names.take(k + 1).drop_last() =~= names.take(k as int));
                assert(names.take(k + 1).last() == name@);
                assert(runner_blocks(id@, names.take(k + 1)) == runner_blocks(
                    id@,
                    names.take(k as int),
                ) + runner_test_block(id@, name@));
                assert(driver@ =~= runner_header() + runner_blocks(id@, names.take(k + 1)));
            }
            k += 1;
        }
        proof {
            assert(names.take(self.tests.len() as int) =~= names);
        }
        let r = self.src.clone().concat("\n\n").concat(driver.as_str());
        proof {
            assert(r@ =~= runner_text(self@.src, names, id@));
        }
        r
    }

    /// Folds captured output back into the suite: each marker line of the
    /// given run identifier sets the named test's status, a failing test
    /// receiving the traceback buffered since the last `Traceback` line, and
    /// every unrecognized line feeds that buffer. An unknown test name, the
    /// `RUNNING` action, and an unrecognized or missing action leave the
    /// suite unchanged for that line, the last by deliberate choice in place
    /// of aborting.
    pub fn update_status(&mut self, id: &str, stdout: &str)
        ensures
            final(self)@.src == old(self)@.src,
            final(self)@.tests == ingest_lines(
                old(self)@.tests,
                Seq::empty(),
                id@,
                lines_of(stdout@),
            ).tests,
            old(self)@.wf() ==> final(self)@.wf(),
    {
        let lines = crate::text::split_lines(stdout);
        let ghost lsv = lines_of(stdout@);
        let mut tb_buf = String::new();
        let mut i: usize = 0;
        proof {
            assert(lsv.skip(0) =~= lsv);
        }
        while i < lines.len()
            invariant
                0 <= i <= lines.len(),
                lsv == lines_of(stdout@),
                lines@.map_values(|l: String| l@) == lsv,
                self.src == old(self).src,
                ingest_lines(old(self)@.tests, Seq::empty(), id@, lsv) == ingest_lines(
                    self@.tests,
                    tb_buf@,
                    id@,
                    lsv.skip(i as int),
                ),
            decreases lines.len() - i,
        {
            let ghost t0 = self@.tests;
            let ghost b0 = tb_buf@;
            let line: &str = lines[i].as_str();
            proof {
                assert(line@ == lsv[i as int]);
                assert(lsv.skip(i as int)[0] == lsv[i as int]);
                assert(lsv.skip(i as int).drop_first() =~= lsv.skip(i as int + 1));
            }
            let toks = crate::text::split_tokens(line);
            let ghost tv = tokens_of(line@);
            proof {
                assert(toks@.map_values(|t: String| t@) == tv);
            }
            if toks.len() > 0 && crate::text::str_eq(toks[0].as_str(), "Traceback") {
                tb_buf = line.to_owned();
                assert(ingest_line(t0, b0, id@, line@) == (IngestState {
                    tests: self@.tests,
                    buf: tb_buf@,
                }));
            } else if toks.len() > 0 && crate::text::str_eq(toks[0].as_str(), id) {
                if toks.len() >= 2 {
                    let found = find_test(&self.tests, toks[1].as_str());
                    if let Some(k) = found {
                        if toks.len() >= 3 && crate::text::str_eq(toks[2].as_str(), "PASS") {
                            self.tests[k].status = TestStatus::Pass;
                            proof {
                                assert(self.tests@.map_values(|t: Pytest| t@) =~= set_status(
                                    t0,
                                    k as int,
                                    StatusV::Pass,
                                ));
                            }
                        } else if toks.len() >= 3 && crate::text::str_eq(
                            toks[2].as_str(),
                            "FAIL",
                        ) {
                            let kind = PyError::classify(tb_buf.as_str());
                            let tb = Traceback::new(tb_buf.clone());
                            self.tests[k].status = TestStatus::Fail(kind, tb);
                            proof {
                                assert(self.tests@.map_values(|t: Pytest| t@) =~= set_status(
                                    t0,
                                    k as int,
                                    StatusV::Fail(PyError::of_text(b0), b0),
                                ));
                            }
                        }
                    }
                }
                assert(ingest_line(t0, b0, id@, line@) == (IngestState {
                    tests: self@.tests,
                    buf: tb_buf@,
                }));
            } else {
                tb_buf.append("\n");
                tb_buf.append(line);
                assert(ingest_line(t0, b0, id@, line@) == (IngestState {
                    tests: self@.tests,
                    buf: tb_buf@,
                }));
            }
            i += 1;
        }
        proof {
            assert(lsv.skip(lines@.len() as int).len() == 0);
            crate::ingest::lemma_ingest_as_writes(old(self)@.tests, Seq::empty(), id@, lsv);
            let nm = crate::ingest::names_of(old(self)@.tests);
            assert forall|j: int| 0 <= j < self@.tests.len() implies self@.tests[j].name
                == old(self)@.tests[j].name by {
                assert(crate::ingest::names_of(self@.tests)[j] == nm[j]);
            }
        }
    }
}

/// Index of the first test in `tests` named `name`.
pub fn find_test(tests: &Vec<Pytest>, name: &str) -> (r: Option<usize>)
    ensures
        r is Some <==> find_name(tests@.map_values(|t: Pytest| t@), name@) < tests@.len(),
        r matches Some(k) ==> k == find_name(tests@.map_values(|t: Pytest| t@), name@)
            && k < tests@.len(),
{
    let ghost tv = tests@.map_values(|t: Pytest| t@);
    let mut i: usize = 0;
    while i < tests.len()
        invariant
            0 <= i <= tests.len(),
            tv == tests@.map_values(|t: Pytest| t@),
            forall|j: int| 0 <= j < i ==> tv[j].name != name@,
        decreases tests.len() - i,
    {
        if crate::text::str_eq(tests[i].name.as_str(), name) {
            proof {
                lemma_find_name_is_first(tv, name@, i as int);
            }
            return Some(i);
        }
        i += 1;
    }
    proof {
        lemma_find_name_is_first(tv, name@, tests@.len() as int);
    }
    None
}

} // verus!
