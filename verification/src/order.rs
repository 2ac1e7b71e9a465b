//! The order of strings (`Ord` for `str`: lexicographic by code point, which is the order
//! of their UTF-8 bytes).
use vstd::prelude::*;

use crate::text::views;

verus! {

/// `a < b` as strings.
pub open spec fn lex_less(a: Seq<char>, b: Seq<char>) -> bool
    decreases a.len(),
{
    if a.len() == 0 {
        b.len() > 0
    } else if b.len() == 0 {
        false
    } else if (a[0] as u32) < (b[0] as u32) {
        true
    } else if (a[0] as u32) > (b[0] as u32) {
        false
    } else {
        lex_less(a.drop_first(), b.drop_first())
    }
}

/// No string is less than itself.
pub proof fn lemma_lex_irreflexive(a: Seq<char>)
    ensures
        !lex_less(a, a),
    decreases a.len(),
{
    if a.len() > 0 {
        lemma_lex_irreflexive(a.drop_first());
    }
}

/// Of two different strings, one is less than the other.
pub proof fn lemma_lex_total(a: Seq<char>, b: Seq<char>)
    ensures
        a == b || lex_less(a, b) || lex_less(b, a),
    decreases a.len(),
{
    if a.len() > 0 && b.len() > 0 {
        if a[0] == b[0] {
            lemma_lex_total(a.drop_first(), b.drop_first());
            if a.drop_first() == b.drop_first() {
                assert(a =~= seq![a[0]] + a.drop_first());
                assert(b =~= seq![b[0]] + b.drop_first());
            }
        } else {
            assert((a[0] as u32) != (b[0] as u32)) by {
                vstd::utf8::char_u32_cast(a[0], a[0] as u32);
                vstd::utf8::char_u32_cast(b[0], b[0] as u32);
            }
        }
    } else if a.len() == 0 && b.len() == 0 {
        assert(a =~= b);
    }
}

/// The order is transitive.
pub proof fn lemma_lex_transitive(a: Seq<char>, b: Seq<char>, c: Seq<char>)
    requires
        lex_less(a, b),
        lex_less(b, c),
    ensures
        lex_less(a, c),
    decreases a.len(),
{
    if a.len() > 0 && b.len() > 0 && c.len() > 0 {
        if (a[0] as u32) == (b[0] as u32) && (b[0] as u32) == (c[0] as u32) {
            lemma_lex_transitive(a.drop_first(), b.drop_first(), c.drop_first());
        }
    }
}

/// Two strings are not each less than the other.
pub proof fn lemma_lex_asymmetric(a: Seq<char>, b: Seq<char>)
    requires
        lex_less(a, b),
    ensures
        !lex_less(b, a),
{
    if lex_less(b, a) {
        lemma_lex_transitive(a, b, a);
        lemma_lex_irreflexive(a);
    }
}

/// `a < b` as strings.
pub fn chars_less(a: &[char], b: &[char]) -> (r: bool)
    ensures
        r == lex_less(a@, b@),
{
    let mut i: usize = 0;
    assert(a@.skip(0) =~= a@);
    assert(b@.skip(0) =~= b@);
    while i < a.len() && i < b.len()
        invariant
            i <= a@.len(),
            i <= b@.len(),
            lex_less(a@, b@) == lex_less(a@.skip(i as int), b@.skip(i as int)),
        decreases a@.len() - i,
    {
        let x = a[i];
        let y = b[i];
        let ghost sa = a@.skip(i as int);
        let ghost sb = b@.skip(i as int);
        assert(sa[0] == x && sb[0] == y);
        if (x as u32) < (y as u32) {
            return true;
        }
        if (x as u32) > (y as u32) {
            return false;
        }
        assert(sa.drop_first() =~= a@.skip(i + 1 as int));
        assert(sb.drop_first() =~= b@.skip(i + 1 as int));
        i += 1;
    }
    assert(a@.skip(i as int).len() == a@.len() - i);
    assert(b@.skip(i as int).len() == b@.len() - i);
    i == a.len() && i < b.len()
}

/// A sequence of strings in strictly increasing order.
pub open spec fn strictly_sorted(s: Seq<Seq<char>>) -> bool {
    forall|i: int, j: int| 0 <= i < j < s.len() ==> lex_less(#[trigger] s[i], #[trigger] s[j])
}

/// Inserts a string into a strictly increasing sequence of strings unless it is there
/// already (what inserting into a `BTreeSet` does).
pub fn insert_sorted_unique(v: &mut Vec<Vec<char>>, x: Vec<char>)
    requires
        strictly_sorted(views(old(v)@)),
    ensures
        strictly_sorted(views(final(v)@)),
        forall|y: Seq<char>|
            views(final(v)@).contains(y) <==> (views(old(v)@).contains(y) || y == x@),
{
    let ghost s = views(v@);
    let mut p: usize = 0;
    while p < v.len() && chars_less(&v[p], &x)
        invariant
            p <= v@.len(),
            v@ == old(v)@,
            s == views(v@),
            forall|j: int| 0 <= j < p ==> lex_less(#[trigger] s[j], x@),
        decreases v@.len() - p,
    {
        assert(s[p as int] == v@[p as int]@);
        p += 1;
    }
    if p < v.len() {
        assert(s[p as int] == v@[p as int]@);
        if crate::text::chars_eq(&v[p], &x) {
            assert(s.contains(x@)) by {
                assert(s[p as int] == x@);
            }
            return;
        }
        proof {
            lemma_lex_total(s[p as int], x@);
        }
    }
    let ghost xv = x@;
    v.insert(p, x);
    let ghost n = views(v@);
    assert(n =~= s.insert(p as int, xv));
    assert forall|i: int, j: int| 0 <= i < j < n.len() implies lex_less(
        #[trigger] n[i],
        #[trigger] n[j],
    ) by {
        if j < p {
        } else if j == p {
        } else if i < p {
            lemma_lex_transitive(n[i], xv, s[p as int]);
            if j - 1 > p {
                lemma_lex_transitive(n[i], s[p as int], n[j]);
            }
        } else if i == p {
            if j - 1 > p {
                lemma_lex_transitive(xv, s[p as int], n[j]);
            }
        } else {
        }
    }
    assert forall|y: Seq<char>| n.contains(y) <==> (s.contains(y) || y == xv) by {
        if n.contains(y) {
            let k = choose|k: int| 0 <= k < n.len() && n[k] == y;
            if k < p {
                assert(s[k] == y);
            } else if k > p {
                assert(s[k - 1] == y);
            }
        }
        if s.contains(y) {
            let k = choose|k: int| 0 <= k < s.len() && s[k] == y;
            if k < p {
                assert(n[k] == y);
            } else {
                assert(n[k + 1] == y);
            }
        }
        if y == xv {
            assert(n[p as int] == y);
        }
    }
}

/// A strictly increasing sequence of strings holds as many strings as the set of them.
pub proof fn lemma_sorted_set_len(s: Seq<Seq<char>>)
    requires
        strictly_sorted(s),
    ensures
        s.no_duplicates(),
        s.to_set().len() == s.len(),
{
    assert forall|i: int, j: int| 0 <= i < s.len() && 0 <= j < s.len() && i != j implies s[i]
        != s[j] by {
        lemma_lex_irreflexive(s[i]);
        if i < j {
            assert(lex_less(s[i], s[j]));
        } else {
            assert(lex_less(s[j], s[i]));
        }
    }
    s.unique_seq_to_set();
}

} // verus!
