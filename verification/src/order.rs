use vstd::prelude::*;
use vstd::relations::sorted_by;

verus! {

/// `a` sorts strictly before `b` character by character, a proper prefix
/// first: the order of `str`'s `Ord`, since UTF-8 keeps the order of code
/// points.
pub open spec fn lex_lt(a: Seq<char>, b: Seq<char>) -> bool
    decreases a.len(),
{
    if a.len() == 0 {
        b.len() > 0
    } else if b.len() == 0 {
        false
    } else if a[0] != b[0] {
        (a[0] as u32) < (b[0] as u32)
    } else {
        lex_lt(a.drop_first(), b.drop_first())
    }
}

/// The order in which a listing shows names: newest, that is greatest,
/// first.
pub open spec fn not_before(a: String, b: String) -> bool {
    !lex_lt(a@, b@)
}

/// The descending order of a listing, as a relation.
pub open spec fn names_desc() -> spec_fn(String, String) -> bool {
    |a: String, b: String| not_before(a, b)
}

/// The order is transitive.
pub proof fn lemma_lex_lt_transitive(a: Seq<char>, b: Seq<char>, c: Seq<char>)
    requires
        lex_lt(a, b),
        lex_lt(b, c),
    ensures
        lex_lt(a, c),
    decreases a.len(),
{
    if a.len() > 0 && b.len() > 0 && c.len() > 0 && a[0] == b[0] && b[0] == c[0] {
        lemma_lex_lt_transitive(a.drop_first(), b.drop_first(), c.drop_first());
    }
}

/// Whether `a` sorts strictly before `b`.
pub fn str_lt(a: &str, b: &str) -> (r: bool)
    ensures
        r == lex_lt(a@, b@),
{
    let n = a.unicode_len();
    let m = b.unicode_len();
    let mut i: usize = 0;
    assert(a@.skip(0) =~= a@);
    assert(b@.skip(0) =~= b@);
    while i < n && i < m
        invariant
            n == a@.len(),
            m == b@.len(),
            i <= n,
            i <= m,
            lex_lt(a@, b@) == lex_lt(a@.skip(i as int), b@.skip(i as int)),
        decreases n - i,
    {
        let x = a.get_char(i);
        let y = b.get_char(i);
        assert(a@.skip(i as int)[0] == x);
        assert(b@.skip(i as int)[0] == y);
        if x != y {
            return (x as u32) < (y as u32);
        }
        assert(a@.skip(i as int).drop_first() =~= a@.skip(i + 1));
        assert(b@.skip(i as int).drop_first() =~= b@.skip(i + 1));
        i = i + 1;
    }
    i < m
}

/// The names in descending order (the greatest first), as a listing shows
/// them.
pub fn sort_names_desc(names: Vec<String>) -> (r: Vec<String>)
    ensures
        sorted_by(r@, names_desc()),
        r@.to_multiset() == names@.to_multiset(),
{
    let mut out: Vec<String> = Vec::new();
    let mut i: usize = 0;
    proof {
        broadcast use vstd::seq_lib::group_to_multiset_ensures;

        assert(names@.take(0) =~= Seq::<String>::empty());
    }
    while i < names.len()
        invariant
            i <= names@.len(),
            sorted_by(out@, names_desc()),
            out@.to_multiset() == names@.take(i as int).to_multiset(),
        decreases names.len() - i,
    {
        let x = names[i].clone();
        let mut p: usize = 0;
        while p < out.len() && !str_lt(out[p].as_str(), x.as_str())
            invariant
                p <= out@.len(),
                forall|j: int| 0 <= j < p ==> not_before(#[trigger] out@[j], x),
            decreases out.len() - p,
        {
            p = p + 1;
        }
        let ghost before = out@;
        out.insert(p, x);
        proof {
            broadcast use vstd::seq_lib::group_to_multiset_ensures;

            crate::habit::lemma_insert_to_multiset(before, p as int, names@[i as int]);
            assert(names@.take(i + 1) =~= names@.take(i as int).push(names@[i as int]));
            assert forall|a: int, b: int| 0 <= a < b < out@.len() implies #[trigger] (names_desc())(
                out@[a],
                out@[b],
            ) by {
                if b < p {
                    assert((names_desc())(before[a], before[b]));
                } else if b == p {
                } else if a < p {
                    assert((names_desc())(before[a], before[b - 1]));
                } else if a == p {
                    assert(lex_lt(before[p as int]@, out@[p as int]@));
                    if b - 1 > p {
                        assert((names_desc())(before[p as int], before[b - 1]));
                    }
                    if lex_lt(out@[p as int]@, before[b - 1]@) {
                        if b - 1 == p {
                            lemma_lex_lt_irreflexive_pair(before[p as int]@, out@[p as int]@);
                        } else {
                            lemma_lex_lt_transitive(
                                before[p as int]@,
                                out@[p as int]@,
                                before[b - 1]@,
                            );
                        }
                    }
                } else {
                    assert((names_desc())(before[a - 1], before[b - 1]));
                }
            }
        }
        i = i + 1;
    }
    proof {
        assert(names@.take(names@.len() as int) =~= names@);
    }
    out
}

/// The order is asymmetric: no two texts each sort before the other.
pub proof fn lemma_lex_lt_irreflexive_pair(a: Seq<char>, b: Seq<char>)
    ensures
        !(lex_lt(a, b) && lex_lt(b, a)),
    decreases a.len(),
{
    if a.len() > 0 && b.len() > 0 && a[0] == b[0] {
        lemma_lex_lt_irreflexive_pair(a.drop_first(), b.drop_first());
    }
}

} // verus!
