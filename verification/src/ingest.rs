//! Result ingestion: one forward pass over the captured output's lines with
//! a traceback buffer as its only accumulator, recognizing marker lines and
//! buffering everything else.
use vstd::prelude::*;

use crate::suite::find_name;
use crate::suite::PyError;
use crate::suite::StatusV;
use crate::suite::TestV;
use crate::text::tokens_of;

verus! {

/// The ingestion pass's state: the tests and the traceback buffer.
pub ghost struct IngestState {
    pub tests: Seq<TestV>,
    pub buf: Seq<char>,
}

/// `tests` with the status of entry `k` replaced.
pub open spec fn set_status(tests: Seq<TestV>, k: int, st: StatusV) -> Seq<TestV> {
    tests.update(k, TestV { name: tests[k].name, status: st })
}

/// The effect of one line of captured output. In priority order: a line
/// whose first token is `Traceback` restarts the buffer with the whole line;
/// a line whose first token is `id` is a marker, whose second token must
/// name a known test and whose third selects the action — `PASS` and `FAIL`
/// set that test's status, `FAIL` attaching the buffered traceback and its
/// classification, while `RUNNING`, any other action, a missing action, and
/// an unknown test name leave everything unchanged; every other line is
/// appended to the buffer behind a line break.
pub open spec fn ingest_line(
    tests: Seq<TestV>,
    buf: Seq<char>,
    id: Seq<char>,
    line: Seq<char>,
) -> IngestState {
    let toks = tokens_of(line);
    if toks.len() > 0 && toks[0] == "Traceback"@ {
        IngestState { tests, buf: line }
    } else if toks.len() > 0 && toks[0] == id {
        if toks.len() >= 2 && find_name(tests, toks[1]) < tests.len() {
            let k = find_name(tests, toks[1]) as int;
            if toks.len() >= 3 && toks[2] == "PASS"@ {
                IngestState { tests: set_status(tests, k, StatusV::Pass), buf }
            } else if toks.len() >= 3 && toks[2] == "FAIL"@ {
                IngestState {
                    tests: set_status(tests, k, StatusV::Fail(PyError::of_text(buf), buf)),
                    buf,
                }
            } else {
                IngestState { tests, buf }
            }
        } else {
            IngestState { tests, buf }
        }
    } else {
        IngestState { tests, buf: buf + "\n"@ + line }
    }
}

/// The ingestion pass: folds `ingest_line` over the lines, front to back.
pub open spec fn ingest_lines(
    tests: Seq<TestV>,
    buf: Seq<char>,
    id: Seq<char>,
    ls: Seq<Seq<char>>,
) -> IngestState
    decreases ls.len(),
{
    if ls.len() == 0 {
        IngestState { tests, buf }
    } else {
        let st = ingest_line(tests, buf, id, ls[0]);
        ingest_lines(st.tests, st.buf, id, ls.drop_first())
    }
}

/// The test names, in order.
pub open spec fn names_of(tests: Seq<TestV>) -> Seq<Seq<char>> {
    tests.map_values(|t: TestV| t.name)
}

/// How one line moves the traceback buffer; independent of the tests.
pub open spec fn buf_after(buf: Seq<char>, id: Seq<char>, line: Seq<char>) -> Seq<char> {
    let toks = tokens_of(line);
    if toks.len() > 0 && toks[0] == "Traceback"@ {
        line
    } else if toks.len() > 0 && toks[0] == id {
        buf
    } else {
        buf + "\n"@ + line
    }
}

/// The status write one line makes, if any: the entry index and the status
/// it receives.
pub open spec fn line_write(
    tests: Seq<TestV>,
    buf: Seq<char>,
    id: Seq<char>,
    line: Seq<char>,
) -> Option<(int, StatusV)> {
    let toks = tokens_of(line);
    if toks.len() > 0 && toks[0] == "Traceback"@ {
        None
    } else if toks.len() > 0 && toks[0] == id {
        if toks.len() >= 2 && find_name(tests, toks[1]) < tests.len() {
            let k = find_name(tests, toks[1]) as int;
            if toks.len() >= 3 && toks[2] == "PASS"@ {
                Some((k, StatusV::Pass))
            } else if toks.len() >= 3 && toks[2] == "FAIL"@ {
                Some((k, StatusV::Fail(PyError::of_text(buf), buf)))
            } else {
                None
            }
        } else {
            None
        }
    } else {
        None
    }
}

/// `tests` after an optional status write.
pub open spec fn apply_opt(tests: Seq<TestV>, w: Option<(int, StatusV)>) -> Seq<TestV> {
    match w {
        Option::None => tests,
        Option::Some(p) => set_status(tests, p.0, p.1),
    }
}

/// One ingested line is exactly an optional status write plus the buffer
/// move.
pub proof fn lemma_ingest_line_decomposed(
    tests: Seq<TestV>,
    buf: Seq<char>,
    id: Seq<char>,
    line: Seq<char>,
)
    ensures
        ingest_line(tests, buf, id, line) == (IngestState {
            tests: apply_opt(tests, line_write(tests, buf, id, line)),
            buf: buf_after(buf, id, line),
        }),
{
}

/// The last status write each entry receives over a pass, keyed by entry
/// index.
pub open spec fn pass_writes(
    tests: Seq<TestV>,
    buf: Seq<char>,
    id: Seq<char>,
    ls: Seq<Seq<char>>,
) -> Map<int, StatusV>
    decreases ls.len(),
{
    if ls.len() == 0 {
        Map::empty()
    } else {
        let w0 = line_write(tests, buf, id, ls[0]);
        let rest = pass_writes(tests, buf_after(buf, id, ls[0]), id, ls.drop_first());
        match w0 {
            Option::None => rest,
            Option::Some(p) => Map::empty().insert(p.0, p.1).union_prefer_right(rest),
        }
    }
}

/// `tests` with every written entry's status replaced by its last write.
pub open spec fn apply_writes(tests: Seq<TestV>, w: Map<int, StatusV>) -> Seq<TestV> {
    Seq::new(
        tests.len(),
        |i: int|
            if w.contains_key(i) {
                TestV { name: tests[i].name, status: w[i] }
            } else {
                tests[i]
            },
    )
}

/// Where in `tests` a name first occurs depends on the names alone.
pub proof fn lemma_find_name_by_names(t1: Seq<TestV>, t2: Seq<TestV>, name: Seq<char>)
    requires
        names_of(t1) == names_of(t2),
    ensures
        find_name(t1, name) == find_name(t2, name),
    decreases t1.len(),
{
    assert(names_of(t1).len() == t1.len());
    assert(names_of(t2).len() == t2.len());
    assert(t1.len() == t2.len());
    if t1.len() > 0 {
        assert(names_of(t1)[0] == t1[0].name);
        assert(names_of(t2)[0] == t2[0].name);
        if t1[0].name != name {
            assert(names_of(t1.drop_first()) =~= names_of(t2.drop_first())) by {
                assert forall|j: int| 0 <= j < t1.len() - 1 implies names_of(t1.drop_first())[j]
                    == names_of(t2.drop_first())[j] by {
                    assert(names_of(t1)[j + 1] == names_of(t2)[j + 1]);
                }
            }
            lemma_find_name_by_names(t1.drop_first(), t2.drop_first(), name);
        }
    }
}

/// A status write moves no name.
pub proof fn lemma_apply_opt_names(tests: Seq<TestV>, w: Option<(int, StatusV)>)
    requires
        w matches Some(p) ==> 0 <= p.0 < tests.len(),
    ensures
        names_of(apply_opt(tests, w)) == names_of(tests),
{
    assert(names_of(apply_opt(tests, w)).len() == names_of(tests).len());
    assert forall|i: int| 0 <= i < tests.len() implies names_of(apply_opt(tests, w))[i]
        == names_of(tests)[i] by {
        assert(apply_opt(tests, w)[i].name == tests[i].name);
    }
    assert(names_of(apply_opt(tests, w)) =~= names_of(tests));
}

/// The writes of a pass depend on the tests only through their names.
pub proof fn lemma_pass_writes_by_names(
    t1: Seq<TestV>,
    t2: Seq<TestV>,
    buf: Seq<char>,
    id: Seq<char>,
    ls: Seq<Seq<char>>,
)
    requires
        names_of(t1) == names_of(t2),
    ensures
        pass_writes(t1, buf, id, ls) == pass_writes(t2, buf, id, ls),
    decreases ls.len(),
{
    if ls.len() > 0 {
        let toks = tokens_of(ls[0]);
        if toks.len() >= 2 {
            lemma_find_name_by_names(t1, t2, toks[1]);
        }
        assert(names_of(t1).len() == t1.len());
        assert(names_of(t2).len() == t2.len());
        assert(t1.len() == t2.len());
        lemma_pass_writes_by_names(t1, t2, buf_after(buf, id, ls[0]), id, ls.drop_first());
    }
}

/// An ingestion pass is the pointwise application of its last writes.
pub proof fn lemma_ingest_as_writes(
    tests: Seq<TestV>,
    buf: Seq<char>,
    id: Seq<char>,
    ls: Seq<Seq<char>>,
)
    ensures
        ingest_lines(tests, buf, id, ls).tests == apply_writes(
            tests,
            pass_writes(tests, buf, id, ls),
        ),
        names_of(ingest_lines(tests, buf, id, ls).tests) == names_of(tests),
    decreases ls.len(),
{
    if ls.len() == 0 {
        assert(ingest_lines(tests, buf, id, ls).tests =~= apply_writes(tests, Map::empty()));
    } else {
        let w0 = line_write(tests, buf, id, ls[0]);
        let t1 = apply_opt(tests, w0);
        let b1 = buf_after(buf, id, ls[0]);
        lemma_ingest_line_decomposed(tests, buf, id, ls[0]);
        lemma_apply_opt_names(tests, w0);
        lemma_ingest_as_writes(t1, b1, id, ls.drop_first());
        lemma_pass_writes_by_names(t1, tests, b1, id, ls.drop_first());
        let rest = pass_writes(tests, b1, id, ls.drop_first());
        assert(ingest_lines(tests, buf, id, ls).tests == apply_writes(t1, rest));
        assert(apply_writes(t1, rest) =~= apply_writes(tests, pass_writes(tests, buf, id, ls)));
        assert(names_of(apply_writes(t1, rest)) =~= names_of(tests));
    }
}

/// Ingesting the same captured output twice, with the same run identifier,
/// leaves the tests exactly as one ingestion does: the pass starts with a
/// fresh buffer, each line writes the same statuses as before, and a second
/// identical write changes nothing.
pub proof fn lemma_ingest_idempotent(
    tests: Seq<TestV>,
    id: Seq<char>,
    ls: Seq<Seq<char>>,
)
    ensures
        ingest_lines(
            ingest_lines(tests, Seq::empty(), id, ls).tests,
            Seq::empty(),
            id,
            ls,
        ).tests == ingest_lines(tests, Seq::empty(), id, ls).tests,
{
    let r1 = ingest_lines(tests, Seq::empty(), id, ls).tests;
    lemma_ingest_as_writes(tests, Seq::empty(), id, ls);
    lemma_ingest_as_writes(r1, Seq::empty(), id, ls);
    lemma_pass_writes_by_names(r1, tests, Seq::empty(), id, ls);
    let w = pass_writes(tests, Seq::empty(), id, ls);
    assert(apply_writes(apply_writes(tests, w), w) =~= apply_writes(tests, w));
}

} // verus!
