//! Generation of the wrapper script: the original source followed by a
//! driver block that runs each test and prints one marker line per state.
use vstd::prelude::*;

verus! {

/// `n` copies of the four-space indent unit.
pub open spec fn repeat_indent(n: nat) -> Seq<char>
    decreases n,
{
    if n == 0 {
        Seq::empty()
    } else {
        repeat_indent((n - 1) as nat) + "    "@
    }
}

/// The concatenation of `parts`, in order.
pub open spec fn concat_strs(parts: Seq<Seq<char>>) -> Seq<char>
    decreases parts.len(),
{
    if parts.len() == 0 {
        Seq::empty()
    } else {
        concat_strs(parts.drop_last()) + parts.last()
    }
}

/// One generated line: indent units, the given parts, a line break.
pub open spec fn python_line(indents: nat, parts: Seq<Seq<char>>) -> Seq<char> {
    repeat_indent(indents) + concat_strs(parts) + "\n"@
}

/// Appends one line of generated code to `dst`: `indents` four-space indent
/// units, then each part of `contents` in order, then a line break.
pub fn push_python_line(dst: &mut String, indents: usize, contents: &[&str])
    ensures
        final(dst)@ == old(dst)@ + python_line(
            indents as nat,
            contents@.map_values(|p: &str| p@),
        ),
{
    let ghost parts = contents@.map_values(|p: &str| p@);
    let mut k: usize = 0;
    while k < indents
        invariant
            0 <= k <= indents,
            dst@ == old(dst)@ + repeat_indent(k as nat),
        decreases indents - k,
    {
        dst.append("    ");
        k += 1;
    }
    let mut t: usize = 0;
    proof {
        assert(concat_strs(parts.take(0)) =~= Seq::<char>::empty());
        assert(dst@ =~= old(dst)@ + repeat_indent(indents as nat) + concat_strs(parts.take(0)));
    }
    while t < contents.len()
        invariant
            0 <= t <= contents.len(),
            parts == contents@.map_values(|p: &str| p@),
            dst@ == old(dst)@ + repeat_indent(indents as nat) + concat_strs(parts.take(t as int)),
        decreases contents.len() - t,
    {
        dst.append(contents[t]);
        proof {
            assert(parts.take(t + 1).drop_last() =~= parts.take(t as int));
            assert(parts.take(t + 1).last() == parts[t as int]);
            assert(dst@ =~= old(dst)@ + repeat_indent(indents as nat) + concat_strs(
                parts.take(t + 1),
            ));
        }
        t += 1;
    }
    dst.append("\n");
    proof {
        assert(parts.take(contents@.len() as int) =~= parts);
        assert(dst@ =~= old(dst)@ + python_line(indents as nat, parts));
    }
}

/// The driver block's head: the import guard line and the two setup imports,
/// with no blank line among them.
pub open spec fn runner_header() -> Seq<char> {
    "if __name__ == \"__main__\":"@ + "\n"@ + python_line(
        1,
        seq!["from traceback import TracebackException"@],
    ) + python_line(1, seq!["import sys"@])
}

/// The per-test section: a blank line, then the marker prints and the
/// guarded call, indented one unit under the guard and two units inside
/// `try`/`except`/`else`.
pub open spec fn runner_test_block(id: Seq<char>, name: Seq<char>) -> Seq<char> {
    "\n"@ + python_line(1, seq!["print(\""@, id, " "@, name, " RUNNING\")"@]) + python_line(
        1,
        seq!["try:"@],
    ) + python_line(2, seq![name, "()"@]) + python_line(1, seq!["except Exception:"@])
        + python_line(
        2,
        seq![
            "TracebackException.from_exception(sys.exception(), capture_locals=True).print(file=sys.stdout)"@,
        ],
    ) + python_line(2, seq!["print(\""@, id, " "@, name, " FAIL\")"@]) + python_line(
        1,
        seq!["else:"@],
    ) + python_line(2, seq!["print(\""@, id, " "@, name, " PASS\")"@])
}

/// The per-test sections for `names`, in order.
pub open spec fn runner_blocks(id: Seq<char>, names: Seq<Seq<char>>) -> Seq<char>
    decreases names.len(),
{
    if names.len() == 0 {
        Seq::empty()
    } else {
        runner_blocks(id, names.drop_last()) + runner_test_block(id, names.last())
    }
}

/// The whole wrapper: the source verbatim, one blank line, and the driver
/// block for `names` under run identifier `id`.
pub open spec fn runner_text(src: Seq<char>, names: Seq<Seq<char>>, id: Seq<char>) -> Seq<char> {
    src + "\n\n"@ + runner_header() + runner_blocks(id, names)
}

/// Wrapper generation is deterministic: the text is a function of the
/// source, the test names in order, and the run identifier alone, so two
/// generations from equal suites and identifiers are byte-identical.
pub proof fn lemma_runner_deterministic(
    src1: Seq<char>,
    names1: Seq<Seq<char>>,
    id1: Seq<char>,
    src2: Seq<char>,
    names2: Seq<Seq<char>>,
    id2: Seq<char>,
)
    requires
        src1 == src2,
        names1 == names2,
        id1 == id2,
    ensures
        runner_text(src1, names1, id1) == runner_text(src2, names2, id2),
{
}

} // verus!
