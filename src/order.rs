//! Lexicographic order on strings, and the one strictly ascending sequence
//! that holds a given finite set of strings.
use vstd::prelude::*;

verus! {

/// `a` sorts before `b`: code point by code point, a proper prefix first.
pub open spec fn str_lt(a: Seq<char>, b: Seq<char>) -> bool
    decreases a.len(),
{
    if a.len() == 0 {
        b.len() > 0
    } else if b.len() == 0 {
        false
    } else if a[0] != b[0] {
        (a[0] as u32) < (b[0] as u32)
    } else {
        str_lt(a.drop_first(), b.drop_first())
    }
}

pub open spec fn strictly_ascending(q: Seq<Seq<char>>) -> bool {
    forall|i: int, j: int| 0 <= i < j < q.len() ==> str_lt(#[trigger] q[i], #[trigger] q[j])
}

/// The strictly ascending sequence whose elements are those of `s`.
pub open spec fn ascending_of(s: Set<Seq<char>>) -> Seq<Seq<char>> {
    choose|q: Seq<Seq<char>>| strictly_ascending(q) && q.to_set() == s
}

pub proof fn lemma_str_lt_irreflexive(a: Seq<char>)
    ensures
        !str_lt(a, a),
    decreases a.len(),
{
    if a.len() > 0 {
        lemma_str_lt_irreflexive(a.drop_first());
    }
}

pub proof fn lemma_str_lt_transitive(a: Seq<char>, b: Seq<char>, c: Seq<char>)
    requires
        str_lt(a, b),
        str_lt(b, c),
    ensures
        str_lt(a, c),
    decreases a.len(),
{
    if a.len() > 0 && b.len() > 0 && c.len() > 0 && a[0] == b[0] && b[0] == c[0] {
        lemma_str_lt_transitive(a.drop_first(), b.drop_first(), c.drop_first());
    }
}

proof fn lemma_ascending_distinct(q: Seq<Seq<char>>)
    requires
        strictly_ascending(q),
        q.len() > 0,
    ensures
        !q.drop_first().contains(q[0]),
{
    if q.drop_first().contains(q[0]) {
        let k = choose|k: int| 0 <= k < q.drop_first().len() && q.drop_first()[k] == q[0];
        assert(str_lt(q[0], q[k + 1]));
        lemma_str_lt_irreflexive(q[0]);
    }
}

/// Two strictly ascending sequences with the same elements are equal.
pub proof fn lemma_ascending_unique(p: Seq<Seq<char>>, q: Seq<Seq<char>>)
    requires
        strictly_ascending(p),
        strictly_ascending(q),
        p.to_set() == q.to_set(),
    ensures
        p == q,
    decreases p.len(),
{
    if p.len() == 0 {
        if q.len() > 0 {
            assert(q.to_set().contains(q[0]));
        }
    } else {
        assert(p.to_set().contains(p[0]));
        assert(q.len() > 0);
        assert(q.to_set().contains(q[0]));
        let j = choose|j: int| 0 <= j < q.len() && q[j] == p[0];
        let k = choose|k: int| 0 <= k < p.len() && p[k] == q[0];
        if j > 0 {
            assert(str_lt(q[0], q[j]));
            if k > 0 {
                assert(str_lt(p[0], p[k]));
                lemma_str_lt_transitive(p[0], q[0], p[0]);
            }
            lemma_str_lt_irreflexive(p[0]);
        }
        assert(p[0] == q[0]);
        let p1 = p.drop_first();
        let q1 = q.drop_first();
        lemma_ascending_distinct(p);
        lemma_ascending_distinct(q);
        assert(p1.to_set() =~= q1.to_set()) by {
            assert forall|x: Seq<char>| p1.to_set().contains(x) implies q1.to_set().contains(
                x,
            ) by {
                let a = choose|a: int| 0 <= a < p1.len() && p1[a] == x;
                assert(p.to_set().contains(p[a + 1]));
                let b = choose|b: int| 0 <= b < q.len() && q[b] == x;
                if b == 0 {
                    assert(p1.contains(p[0]));
                }
                assert(q1[b - 1] == x);
            }
            assert forall|x: Seq<char>| q1.to_set().contains(x) implies p1.to_set().contains(
                x,
            ) by {
                let a = choose|a: int| 0 <= a < q1.len() && q1[a] == x;
                assert(q.to_set().contains(q[a + 1]));
                let b = choose|b: int| 0 <= b < p.len() && p[b] == x;
                if b == 0 {
                    assert(q1.contains(q[0]));
                }
                assert(p1[b - 1] == x);
            }
        }
        lemma_ascending_unique(p1, q1);
        assert(p =~= seq![p[0]] + p1);
        assert(q =~= seq![q[0]] + q1);
    }
}

/// A strictly ascending sequence is the one `ascending_of` picks for its
/// elements.
pub proof fn lemma_ascending_of(q: Seq<Seq<char>>)
    requires
        strictly_ascending(q),
    ensures
        ascending_of(q.to_set()) == q,
{
    let p = ascending_of(q.to_set());
    assert(strictly_ascending(p) && p.to_set() == q.to_set());
    lemma_ascending_unique(p, q);
}

} // verus!
