//! Discovery: filtering a parsed statement list down to the test-prefixed
//! function definition names, in source order, first occurrences kept.
use vstd::prelude::*;

use crate::suite::StatusV;
use crate::suite::TestV;

verus! {

/// Whether a function name follows the test naming convention.
pub open spec fn is_test_name(name: Seq<char>) -> bool {
    "test_"@.is_prefix_of(name)
}

/// The names of test-prefixed function definitions, in statement order,
/// repetitions included.
pub open spec fn test_names(stmts: Seq<Option<Seq<char>>>) -> Seq<Seq<char>>
    decreases stmts.len(),
{
    if stmts.len() == 0 {
        Seq::empty()
    } else {
        test_names(stmts.drop_last()) + match stmts.last() {
            Some(name) => if is_test_name(name) {
                seq![name]
            } else {
                Seq::<Seq<char>>::empty()
            },
            None => Seq::<Seq<char>>::empty(),
        }
    }
}

/// `names` with every later repetition of a name dropped: the first
/// occurrence keeps its position.
pub open spec fn dedup_first(names: Seq<Seq<char>>) -> Seq<Seq<char>>
    decreases names.len(),
{
    if names.len() == 0 {
        Seq::empty()
    } else {
        let d = dedup_first(names.drop_last());
        if d.contains(names.last()) {
            d
        } else {
            d.push(names.last())
        }
    }
}

/// The suite entries a parsed statement list discovers: the test-prefixed
/// definition names, first occurrences in source order, none yet run.
pub open spec fn discovered(stmts: Seq<Option<Seq<char>>>) -> Seq<TestV> {
    dedup_first(test_names(stmts)).map_values(
        |n: Seq<char>| TestV { name: n, status: StatusV::NoRun },
    )
}

/// Index of the first occurrence of `x` in `names`, or `names.len()` if
/// absent.
pub open spec fn index_of_name(names: Seq<Seq<char>>, x: Seq<char>) -> nat
    decreases names.len(),
{
    if names.len() == 0 {
        0
    } else if names[0] == x {
        0
    } else {
        1 + index_of_name(names.drop_first(), x)
    }
}

pub proof fn lemma_index_of_name(names: Seq<Seq<char>>, x: Seq<char>)
    ensures
        index_of_name(names, x) <= names.len(),
        forall|j: int| 0 <= j < index_of_name(names, x) ==> names[j] != x,
        index_of_name(names, x) < names.len() ==> names[index_of_name(names, x) as int] == x,
        (index_of_name(names, x) < names.len()) == names.contains(x),
    decreases names.len(),
{
    if names.len() > 0 && names[0] != x {
        lemma_index_of_name(names.drop_first(), x);
        assert(forall|j: int| 1 <= j < names.len() ==> names[j] == names.drop_first()[j - 1]);
        if names.contains(x) {
            let w = choose|w: int| 0 <= w < names.len() && names[w] == x;
            assert(names.drop_first()[w - 1] == x);
            assert(names.drop_first().contains(x));
        }
        if names.drop_first().contains(x) {
            let w = choose|w: int| 0 <= w < names.drop_first().len() && names.drop_first()[w]
                == x;
            assert(names[w + 1] == x);
        }
    }
}

/// Extending a name list at the back moves no first occurrence.
pub proof fn lemma_index_of_name_push(names: Seq<Seq<char>>, y: Seq<char>, x: Seq<char>)
    requires
        names.contains(x),
    ensures
        index_of_name(names.push(y), x) == index_of_name(names, x),
    decreases names.len(),
{
    lemma_index_of_name(names, x);
    lemma_index_of_name_is_first(names.push(y), x, index_of_name(names, x) as int);
}

pub proof fn lemma_index_of_name_is_first(names: Seq<Seq<char>>, x: Seq<char>, i: int)
    requires
        0 <= i <= names.len(),
        forall|j: int| 0 <= j < i ==> names[j] != x,
        i < names.len() ==> names[i] == x,
    ensures
        index_of_name(names, x) == i,
    decreases names.len(),
{
    if names.len() > 0 && names[0] != x {
        assert(forall|j: int| 1 <= j < names.len() ==> names[j] == names.drop_first()[j - 1]);
        lemma_index_of_name_is_first(names.drop_first(), x, i - 1);
    }
}

/// What `dedup_first` keeps: exactly the names of the list, each once, and
/// in the order of their first occurrences.
pub proof fn lemma_dedup_first(names: Seq<Seq<char>>)
    ensures
        forall|x: Seq<char>| dedup_first(names).contains(x) == names.contains(x),
        forall|i: int, j: int|
            0 <= i < j < dedup_first(names).len() ==> dedup_first(names)[i] != dedup_first(
                names,
            )[j],
        forall|i: int, j: int|
            0 <= i < j < dedup_first(names).len() ==> index_of_name(names, dedup_first(names)[i])
                < index_of_name(names, dedup_first(names)[j]),
    decreases names.len(),
{
    broadcast use vstd::seq_lib::group_seq_properties;

    if names.len() > 0 {
        let prefix = names.drop_last();
        let x = names.last();
        let d = dedup_first(prefix);
        let dd = dedup_first(names);
        lemma_dedup_first(prefix);
        assert(names =~= prefix.push(x));
        assert forall|y: Seq<char>| #[trigger] dd.contains(y) == names.contains(y) by {
            if d.contains(x) {
                assert(dd == d);
            } else {
                assert(dd == d.push(x));
            }
        }
        assert forall|y: Seq<char>| #[trigger] prefix.contains(y) implies index_of_name(names, y)
            == index_of_name(prefix, y) && index_of_name(prefix, y) < prefix.len() by {
            lemma_index_of_name(prefix, y);
            lemma_index_of_name_push(prefix, x, y);
        }
        if !d.contains(x) {
            assert(!prefix.contains(x));
            lemma_index_of_name(prefix, x);
            lemma_index_of_name_is_first(names, x, prefix.len() as int);
        }
        assert forall|i: int, j: int| 0 <= i < j < dd.len() implies dd[i] != dd[j]
            && index_of_name(names, dd[i]) < index_of_name(names, dd[j]) by {
            if d.contains(x) {
                assert(dd == d);
                assert(d.contains(d[i]));
                assert(d.contains(d[j]));
                assert(prefix.contains(d[i]));
                assert(prefix.contains(d[j]));
            } else {
                assert(dd == d.push(x));
                if j < d.len() {
                    assert(dd[i] == d[i]);
                    assert(dd[j] == d[j]);
                    assert(d.contains(d[i]));
                    assert(d.contains(d[j]));
                    assert(prefix.contains(d[i]));
                    assert(prefix.contains(d[j]));
                } else {
                    assert(dd[j] == x);
                    assert(dd[i] == d[i]);
                    assert(d.contains(d[i]));
                    assert(prefix.contains(d[i]));
                    assert(index_of_name(names, x) == prefix.len());
                    assert(index_of_name(names, dd[i]) < prefix.len());
                }
            }
        }
    }
}

/// The names discovery keeps are exactly the test-prefixed definition
/// names of the statement list.
pub proof fn lemma_test_names_membership(stmts: Seq<Option<Seq<char>>>)
    ensures
        forall|n: Seq<char>|
            test_names(stmts).contains(n) == (is_test_name(n) && stmts.contains(Some(n))),
    decreases stmts.len(),
{
    broadcast use vstd::seq_lib::group_seq_properties;

    if stmts.len() > 0 {
        let prefix = stmts.drop_last();
        let lastopt = stmts.last();
        lemma_test_names_membership(prefix);
        assert(stmts =~= prefix.push(lastopt));
        let tn = test_names(stmts);
        let tp = test_names(prefix);
        assert forall|n: Seq<char>|
            #[trigger] tn.contains(n) == (is_test_name(n) && stmts.contains(Some(n))) by {
            if tn.contains(n) {
                let w = choose|w: int| 0 <= w < tn.len() && tn[w] == n;
                if w < tp.len() {
                    assert(tp[w] == n);
                    assert(tp.contains(n));
                    assert(is_test_name(n) && prefix.contains(Some(n)));
                    let v = choose|v: int| 0 <= v < prefix.len() && prefix[v] == Some(n);
                    assert(stmts[v] == Some(n));
                } else {
                    assert(lastopt == Some(n) && is_test_name(n));
                    assert(stmts[stmts.len() - 1] == Some(n));
                }
            }
            if is_test_name(n) && stmts.contains(Some(n)) {
                let w = choose|w: int| 0 <= w < stmts.len() && stmts[w] == Some(n);
                if w < prefix.len() {
                    assert(prefix[w] == Some(n));
                    assert(prefix.contains(Some(n)));
                    assert(tp.contains(n));
                    let v = choose|v: int| 0 <= v < tp.len() && tp[v] == n;
                    assert(tn[v] == n);
                } else {
                    assert(lastopt == Some(n));
                    assert(tn[tp.len() as int] == n);
                }
                assert(tn.contains(n));
            }
        }
    }
}

/// Discovery is exact: it yields the test-prefixed function definition
/// names and no others, each exactly once, ordered by first occurrence in
/// the source's statement order.
pub proof fn lemma_discovery_exact(stmts: Seq<Option<Seq<char>>>)
    ensures
        forall|n: Seq<char>|
            dedup_first(test_names(stmts)).contains(n) == (is_test_name(n) && stmts.contains(
                Some(n),
            )),
        forall|i: int, j: int|
            0 <= i < j < discovered(stmts).len() ==> discovered(stmts)[i].name != discovered(
                stmts,
            )[j].name,
        forall|i: int, j: int|
            0 <= i < j < discovered(stmts).len() ==> index_of_name(
                test_names(stmts),
                discovered(stmts)[i].name,
            ) < index_of_name(test_names(stmts), discovered(stmts)[j].name),
        forall|i: int|
            0 <= i < discovered(stmts).len() ==> discovered(stmts)[i].status == StatusV::NoRun,
{
    lemma_dedup_first(test_names(stmts));
    lemma_test_names_membership(stmts);
}

} // verus!
