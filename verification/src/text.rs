//! Character-level text utilities: splitting captured output into lines the
//! way the runner's output is framed, and splitting a line into
//! whitespace-delimited tokens.
use vstd::prelude::*;

verus! {

/// ASCII whitespace, the token separator of marker lines.
pub open spec fn is_ws(c: char) -> bool {
    c == ' ' || c == '\t' || c == '\n' || c == '\r' || c == '\u{000C}'
}

/// Index of the first occurrence of `c` in `s`, or `s.len()` if absent.
pub open spec fn find_char(s: Seq<char>, c: char) -> nat
    decreases s.len(),
{
    if s.len() == 0 {
        0
    } else if s[0] == c {
        0
    } else {
        1 + find_char(s.drop_first(), c)
    }
}

/// The first occurrence is what `find_char` returns: any index below which
/// `c` does not occur, and at which it does, is that index.
pub proof fn lemma_find_char_is_first(s: Seq<char>, c: char, i: int)
    requires
        0 <= i <= s.len(),
        forall|j: int| 0 <= j < i ==> s[j] != c,
        i < s.len() ==> s[i] == c,
    ensures
        find_char(s, c) == i,
    decreases s.len(),
{
    if s.len() > 0 && s[0] != c {
        assert(forall|j: int| 1 <= j < s.len() ==> s[j] == s.drop_first()[j - 1]);
        lemma_find_char_is_first(s.drop_first(), c, i - 1);
    }
}

/// A carriage return directly before a line break is not part of the line.
pub open spec fn strip_cr(line: Seq<char>) -> Seq<char> {
    if line.len() > 0 && line.last() == '\r' {
        line.drop_last()
    } else {
        line
    }
}

/// The lines of `s`: split at `'\n'`, a `'\r'` directly before the break
/// stripped, and no empty final line for text that ends with a break.
pub open spec fn lines_of(s: Seq<char>) -> Seq<Seq<char>>
    decreases s.len(),
{
    if s.len() == 0 {
        Seq::empty()
    } else {
        let i = find_char(s, '\n');
        if i >= s.len() {
            seq![s]
        } else {
            seq![strip_cr(s.subrange(0, i as int))] + lines_of(
                s.subrange(i as int + 1, s.len() as int),
            )
        }
    }
}

/// Unfolding `lines_of` at the first line break.
pub proof fn lemma_lines_of_step(s: Seq<char>, i: int)
    requires
        0 <= i < s.len(),
        s[i] == '\n',
        forall|j: int| 0 <= j < i ==> s[j] != '\n',
    ensures
        lines_of(s) == seq![strip_cr(s.subrange(0, i))] + lines_of(s.subrange(i + 1, s.len() as int)),
{
    lemma_find_char_is_first(s, '\n', i);
}

/// A nonempty text without a line break is one line.
pub proof fn lemma_lines_of_whole(s: Seq<char>)
    requires
        s.len() > 0,
        forall|j: int| 0 <= j < s.len() ==> s[j] != '\n',
    ensures
        lines_of(s) == seq![s],
{
    lemma_find_char_is_first(s, '\n', s.len() as int);
}

/// Index of the first ASCII whitespace in `s`, or `s.len()` if absent.
pub open spec fn find_ws(s: Seq<char>) -> nat
    decreases s.len(),
{
    if s.len() == 0 {
        0
    } else if is_ws(s[0]) {
        0
    } else {
        1 + find_ws(s.drop_first())
    }
}

pub proof fn lemma_find_ws_is_first(s: Seq<char>, i: int)
    requires
        0 <= i <= s.len(),
        forall|j: int| 0 <= j < i ==> !is_ws(s[j]),
        i < s.len() ==> is_ws(s[i]),
    ensures
        find_ws(s) == i,
    decreases s.len(),
{
    if s.len() > 0 && !is_ws(s[0]) {
        assert(forall|j: int| 1 <= j < s.len() ==> s[j] == s.drop_first()[j - 1]);
        lemma_find_ws_is_first(s.drop_first(), i - 1);
    }
}

/// The whitespace-delimited tokens of `s`, in order: maximal nonempty runs
/// of non-whitespace characters.
pub open spec fn tokens_of(s: Seq<char>) -> Seq<Seq<char>>
    decreases s.len(),
{
    if s.len() == 0 {
        Seq::empty()
    } else if is_ws(s[0]) {
        tokens_of(s.drop_first())
    } else {
        let i = find_ws(s);
        if i >= s.len() {
            seq![s]
        } else {
            seq![s.subrange(0, i as int)] + tokens_of(s.subrange(i as int, s.len() as int))
        }
    }
}

/// Dropping a leading whitespace character keeps the tokens.
pub proof fn lemma_tokens_of_skip_ws(s: Seq<char>)
    requires
        s.len() > 0,
        is_ws(s[0]),
    ensures
        tokens_of(s) == tokens_of(s.subrange(1, s.len() as int)),
{
    assert(s.drop_first() == s.subrange(1, s.len() as int));
}

/// Unfolding `tokens_of` at the end of a leading token.
pub proof fn lemma_tokens_of_step(s: Seq<char>, i: int)
    requires
        0 < i <= s.len(),
        forall|j: int| 0 <= j < i ==> !is_ws(s[j]),
        i < s.len() ==> is_ws(s[i]),
    ensures
        lines_to_tokens_unfold(s, i),
{
    lemma_find_ws_is_first(s, i);
}

/// Shape of one `tokens_of` unfolding step, split out so that the lemma above
/// states one named fact.
pub open spec fn lines_to_tokens_unfold(s: Seq<char>, i: int) -> bool {
    tokens_of(s) == if i >= s.len() {
        seq![s]
    } else {
        seq![s.subrange(0, i)] + tokens_of(s.subrange(i, s.len() as int))
    }
}

/// Whether `c` is ASCII whitespace.
pub fn is_ws_char(c: char) -> (r: bool)
    ensures
        r == is_ws(c),
{
    c == ' ' || c == '\t' || c == '\n' || c == '\r' || c == '\u{000C}'
}

/// Splits text into lines, as `lines_of` describes.
pub fn split_lines(s: &str) -> (r: Vec<String>)
    ensures
        r@.map_values(|l: String| l@) == lines_of(s@),
{
    let n = s.unicode_len();
    let mut out: Vec<String> = Vec::new();
    let mut start: usize = 0;
    let mut i: usize = 0;
    proof {
        assert(s@.subrange(0, n as int) =~= s@);
        assert(out@.map_values(|l: String| l@) + lines_of(s@) =~= lines_of(s@));
    }
    while i < n
        invariant
            n == s@.len(),
            0 <= start <= i <= n,
            lines_of(s@) == out@.map_values(|l: String| l@) + lines_of(
                s@.subrange(start as int, n as int),
            ),
            forall|j: int| start <= j < i ==> s@[j] != '\n',
        decreases n - i,
    {
        let c = s.get_char(i);
        if c == '\n' {
            let end = if i > start && s.get_char(i - 1) == '\r' {
                i - 1
            } else {
                i
            };
            let line = s.substring_char(start, end);
            proof {
                let rem = s@.subrange(start as int, n as int);
                lemma_lines_of_step(rem, i - start);
                assert(rem.subrange(0, i - start) =~= s@.subrange(start as int, i as int));
                assert(rem.subrange(
                    i - start + 1,
                    rem.len() as int,
                ) =~= s@.subrange(i as int + 1, n as int));
                if i > start && s@[i - 1] == '\r' {
                    assert(strip_cr(s@.subrange(start as int, i as int)) =~= s@.subrange(
                        start as int,
                        end as int,
                    ));
                } else {
                    assert(strip_cr(s@.subrange(start as int, i as int)) =~= s@.subrange(
                        start as int,
                        end as int,
                    ));
                }
            }
            let owned = line.to_owned();
            out.push(owned);
            proof {
                assert(out@.map_values(|l: String| l@) =~= out@.drop_last().map_values(
                    |l: String| l@,
                ).push(s@.subrange(start as int, end as int)));
                assert(lines_of(s@) =~= out@.map_values(|l: String| l@) + lines_of(
                    s@.subrange(i as int + 1, n as int),
                ));
            }
            start = i + 1;
        }
        i += 1;
    }
    if start < n {
        let line = s.substring_char(start, n);
        proof {
            lemma_lines_of_whole(s@.subrange(start as int, n as int));
        }
        let owned = line.to_owned();
        out.push(owned);
        proof {
            assert(out@.map_values(|l: String| l@) =~= out@.drop_last().map_values(
                |l: String| l@,
            ).push(s@.subrange(start as int, n as int)));
            assert(lines_of(s@) =~= out@.map_values(|l: String| l@));
        }
    } else {
        proof {
            assert(s@.subrange(start as int, n as int).len() == 0);
            assert(lines_of(s@) =~= out@.map_values(|l: String| l@));
        }
    }
    out
}

/// Splits a line into its whitespace-delimited tokens, as `tokens_of`
/// describes.
pub fn split_tokens(line: &str) -> (r: Vec<String>)
    ensures
        r@.map_values(|t: String| t@) == tokens_of(line@),
{
    let n = line.unicode_len();
    let mut out: Vec<String> = Vec::new();
    let mut i: usize = 0;
    proof {
        assert(line@.subrange(0, n as int) =~= line@);
        assert(out@.map_values(|t: String| t@) + tokens_of(line@) =~= tokens_of(line@));
    }
    while i < n
        invariant
            n == line@.len(),
            0 <= i <= n,
            tokens_of(line@) == out@.map_values(|t: String| t@) + tokens_of(
                line@.subrange(i as int, n as int),
            ),
        decreases n - i,
    {
        let c = line.get_char(i);
        if is_ws_char(c) {
            proof {
                let rem = line@.subrange(i as int, n as int);
                lemma_tokens_of_skip_ws(rem);
                assert(rem.subrange(1, rem.len() as int) =~= line@.subrange(
                    i as int + 1,
                    n as int,
                ));
            }
            i += 1;
        } else {
            let start = i;
            i += 1;
            while i < n && !is_ws_char(line.get_char(i))
                invariant
                    n == line@.len(),
                    0 <= start < i <= n,
                    forall|j: int| start <= j < i ==> !is_ws(line@[j]),
                decreases n - i,
            {
                i += 1;
            }
            let tok = line.substring_char(start, i);
            proof {
                let rem = line@.subrange(start as int, n as int);
                lemma_tokens_of_step(rem, i - start);
                assert(rem.subrange(0, i - start) =~= line@.subrange(start as int, i as int));
                if i < n {
                    assert(rem.subrange(
                        i - start,
                        rem.len() as int,
                    ) =~= line@.subrange(i as int, n as int));
                }
            }
            let owned = tok.to_owned();
            out.push(owned);
            proof {
                assert(out@.map_values(|t: String| t@) =~= out@.drop_last().map_values(
                    |t: String| t@,
                ).push(line@.subrange(start as int, i as int)));
                if i < n {
                    assert(tokens_of(line@) =~= out@.map_values(|t: String| t@) + tokens_of(
                        line@.subrange(i as int, n as int),
                    ));
                } else {
                    assert(line@.subrange(i as int, n as int).len() == 0);
                    assert(tokens_of(line@) =~= out@.map_values(|t: String| t@) + tokens_of(
                        line@.subrange(i as int, n as int),
                    ));
                }
            }
        }
    }
    proof {
        assert(line@.subrange(i as int, n as int).len() == 0);
        assert(tokens_of(line@) =~= out@.map_values(|t: String| t@));
    }
    out
}

/// Whether the characters of `a` equal those of `b`.
pub fn str_eq(a: &str, b: &str) -> (r: bool)
    ensures
        r == (a@ == b@),
{
    let an = a.unicode_len();
    let bn = b.unicode_len();
    if an != bn {
        assert(a@ != b@) by {
            assert(a@.len() != b@.len());
        }
        return false;
    }
    let mut i: usize = 0;
    while i < an
        invariant
            an == a@.len(),
            an == b@.len(),
            0 <= i <= an,
            forall|j: int| 0 <= j < i ==> a@[j] == b@[j],
        decreases an - i,
    {
        let ca = a.get_char(i);
        let cb = b.get_char(i);
        if ca != cb {
            assert(a@ != b@) by {
                assert(a@[i as int] != b@[i as int]);
            }
            return false;
        }
        i += 1;
    }
    proof {
        assert(a@ =~= b@);
    }
    true
}

/// Whether `s` starts with the characters of `p`.
pub fn str_starts_with(s: &str, p: &str) -> (r: bool)
    ensures
        r == p@.is_prefix_of(s@),
{
    let sn = s.unicode_len();
    let pn = p.unicode_len();
    if pn > sn {
        assert(!p@.is_prefix_of(s@)) by {
            assert(p@.len() > s@.len());
        }
        return false;
    }
    let mut i: usize = 0;
    while i < pn
        invariant
            sn == s@.len(),
            pn == p@.len(),
            pn <= sn,
            0 <= i <= pn,
            forall|j: int| 0 <= j < i ==> s@[j] == p@[j],
        decreases pn - i,
    {
        if s.get_char(i) != p.get_char(i) {
            assert(!p@.is_prefix_of(s@)) by {
                assert(s@.subrange(0, pn as int)[i as int] != p@[i as int]);
            }
            return false;
        }
        i += 1;
    }
    proof {
        assert(s@.subrange(0, pn as int) =~= p@);
    }
    true
}

} // verus!
