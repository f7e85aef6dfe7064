//! The order of `String`/`str`: lexicographic on characters, which is the
//! same as lexicographic on the UTF-8 bytes.
use vstd::prelude::*;

use crate::text::chars_of;
use crate::utils::texts;

verus! {

/// `a < b` for strings with characters `a` and `b`.
pub open spec fn seq_lt(a: Seq<char>, b: Seq<char>) -> bool
    decreases a.len(),
{
    if a.len() == 0 {
        b.len() > 0
    } else if b.len() == 0 {
        false
    } else if a[0] < b[0] {
        true
    } else if a[0] == b[0] {
        seq_lt(a.drop_first(), b.drop_first())
    } else {
        false
    }
}

pub proof fn lemma_seq_lt_irreflexive(a: Seq<char>)
    ensures
        !seq_lt(a, a),
    decreases a.len(),
{
    if a.len() > 0 {
        lemma_seq_lt_irreflexive(a.drop_first());
    }
}

pub proof fn lemma_seq_lt_asymmetric(a: Seq<char>, b: Seq<char>)
    ensures
        seq_lt(a, b) ==> !seq_lt(b, a),
    decreases a.len(),
{
    if a.len() > 0 && b.len() > 0 && a[0] == b[0] {
        lemma_seq_lt_asymmetric(a.drop_first(), b.drop_first());
    }
}

pub proof fn lemma_seq_lt_transitive(a: Seq<char>, b: Seq<char>, c: Seq<char>)
    ensures
        seq_lt(a, b) && seq_lt(b, c) ==> seq_lt(a, c),
    decreases a.len(),
{
    if a.len() > 0 && b.len() > 0 && c.len() > 0 && a[0] == b[0] && b[0] == c[0] {
        lemma_seq_lt_transitive(a.drop_first(), b.drop_first(), c.drop_first());
    }
}

pub proof fn lemma_seq_lt_total(a: Seq<char>, b: Seq<char>)
    ensures
        a != b ==> seq_lt(a, b) || seq_lt(b, a),
    decreases a.len(),
{
    if a.len() > 0 && b.len() > 0 {
        if a[0] == b[0] {
            lemma_seq_lt_total(a.drop_first(), b.drop_first());
            if a.drop_first() == b.drop_first() {
                assert(a =~= seq![a[0]] + a.drop_first());
                assert(b =~= seq![b[0]] + b.drop_first());
            }
        }
    } else if a.len() == 0 && b.len() == 0 {
        assert(a =~= b);
    }
}

/// Three-way comparison of two character sequences: negative, zero or
/// positive as `a` is before, equal to or after `b`.
pub fn compare_chars(a: &Vec<char>, b: &Vec<char>) -> (r: i8)
    ensures
        r < 0 <==> seq_lt(a@, b@),
        r == 0 <==> a@ == b@,
        r > 0 <==> seq_lt(b@, a@),
{
    let n = a.len();
    let m = b.len();
    let mut i: usize = 0;
    assert(a@.skip(0) =~= a@);
    assert(b@.skip(0) =~= b@);
    while i < n && i < m
        invariant
            n == a@.len(),
            m == b@.len(),
            i <= n,
            i <= m,
            a@.take(i as int) == b@.take(i as int),
            seq_lt(a@, b@) == seq_lt(a@.skip(i as int), b@.skip(i as int)),
            seq_lt(b@, a@) == seq_lt(b@.skip(i as int), a@.skip(i as int)),
        decreases n - i,
    {
        let x = a[i];
        let y = b[i];
        if x < y {
            assert(a@.take(i as int) =~= b@.take(i as int));
            assert(a@ != b@ || a@[i as int] == b@[i as int]);
            return -1;
        }
        if y < x {
            return 1;
        }
        assert(x == y);
        assert(a@.skip(i as int).drop_first() =~= a@.skip(i + 1));
        assert(b@.skip(i as int).drop_first() =~= b@.skip(i + 1));
        assert(a@.take(i + 1) =~= a@.take(i as int).push(x));
        assert(b@.take(i + 1) =~= b@.take(i as int).push(y));
        i = i + 1;
    }
    if i < m {
        assert(a@.skip(i as int).len() == 0);
        assert(a@ != b@);
        -1
    } else if i < n {
        assert(b@.skip(i as int).len() == 0);
        assert(a@ != b@);
        1
    } else {
        assert(a@ =~= a@.take(i as int));
        assert(b@ =~= b@.take(i as int));
        proof {
            lemma_seq_lt_irreflexive(a@);
        }
        0
    }
}

/// Strictly increasing strings.
pub open spec fn strictly_sorted(s: Seq<Seq<char>>) -> bool {
    forall|a: int, b: int| 0 <= a < b < s.len() ==> seq_lt(#[trigger] s[a], #[trigger] s[b])
}

/// Two strictly increasing lists of the same strings are the same list.
pub proof fn lemma_strictly_sorted_unique(a: Seq<Seq<char>>, b: Seq<Seq<char>>)
    requires
        strictly_sorted(a),
        strictly_sorted(b),
        forall|x: Seq<char>| a.contains(x) <==> b.contains(x),
    ensures
        a == b,
    decreases a.len(),
{
    if a.len() == 0 {
        if b.len() > 0 {
            assert(b.contains(b[0]));
        }
        assert(a =~= b);
    } else {
        assert(a.contains(a[0]));
        assert(b.contains(a[0]));
        assert(b.contains(b[0]));
        assert(a.contains(b[0]));
        let k = choose|k: int| 0 <= k < a.len() && a[k] == b[0];
        let m = choose|m: int| 0 <= m < b.len() && b[m] == a[0];
        if k > 0 && m > 0 {
            assert(seq_lt(a[0], a[k]));
            assert(seq_lt(b[0], b[m]));
            lemma_seq_lt_asymmetric(a[0], b[0]);
        }
        if k > 0 && m == 0 {
            assert(seq_lt(a[0], a[k]));
            lemma_seq_lt_irreflexive(a[0]);
        }
        if k == 0 && m > 0 {
            assert(seq_lt(b[0], b[m]));
            lemma_seq_lt_irreflexive(b[0]);
        }
        let a1 = a.drop_first();
        let b1 = b.drop_first();
        assert forall|i: int, j: int| 0 <= i < j < a1.len() implies seq_lt(
            #[trigger] a1[i],
            #[trigger] a1[j],
        ) by {
            assert(a1[i] == a[i + 1] && a1[j] == a[j + 1]);
        }
        assert forall|i: int, j: int| 0 <= i < j < b1.len() implies seq_lt(
            #[trigger] b1[i],
            #[trigger] b1[j],
        ) by {
            assert(b1[i] == b[i + 1] && b1[j] == b[j + 1]);
        }
        assert forall|x: Seq<char>| a1.contains(x) <==> b1.contains(x) by {
            if a1.contains(x) {
                let i = choose|i: int| 0 <= i < a1.len() && a1[i] == x;
                assert(a[i + 1] == x);
                assert(seq_lt(a[0], a[i + 1]));
                lemma_seq_lt_irreflexive(x);
                assert(b.contains(x));
                let j = choose|j: int| 0 <= j < b.len() && b[j] == x;
                assert(j != 0);
                assert(b1[j - 1] == x);
            }
            if b1.contains(x) {
                let i = choose|i: int| 0 <= i < b1.len() && b1[i] == x;
                assert(b[i + 1] == x);
                assert(seq_lt(b[0], b[i + 1]));
                lemma_seq_lt_irreflexive(x);
                assert(a.contains(x));
                let j = choose|j: int| 0 <= j < a.len() && a[j] == x;
                assert(j != 0);
                assert(a1[j - 1] == x);
            }
        }
        lemma_strictly_sorted_unique(a1, b1);
        assert(a =~= seq![a[0]] + a1);
        assert(b =~= seq![b[0]] + b1);
    }
}

/// Inserting `x` at `p`, after the strings below it and before those above
/// it, keeps a strictly increasing list strictly increasing.
pub proof fn lemma_insert_keeps_sorted(s: Seq<Seq<char>>, p: int, x: Seq<char>)
    requires
        strictly_sorted(s),
        0 <= p <= s.len(),
        forall|k: int| 0 <= k < p ==> seq_lt(#[trigger] s[k], x),
        p < s.len() ==> seq_lt(x, s[p]),
    ensures
        strictly_sorted(s.insert(p, x)),
{
    let s2 = s.insert(p, x);
    assert forall|a: int, b: int| 0 <= a < b < s2.len() implies seq_lt(
        #[trigger] s2[a],
        #[trigger] s2[b],
    ) by {
        if b < p {
            assert(s2[a] == s[a] && s2[b] == s[b]);
        } else if b == p {
            assert(s2[a] == s[a]);
        } else if a < p {
            assert(s2[a] == s[a]);
            assert(s2[b] == s[b - 1]);
            if a < b - 1 {
                assert(seq_lt(s[a], s[b - 1]));
            }
        } else if a == p {
            assert(s2[b] == s[b - 1]);
            if b - 1 > p {
                assert(seq_lt(s[p], s[b - 1]));
                lemma_seq_lt_transitive(x, s[p], s[b - 1]);
            }
        } else {
            assert(s2[a] == s[a - 1] && s2[b] == s[b - 1]);
            assert(seq_lt(s[a - 1], s[b - 1]));
        }
    }
}

/// Adds `x` to a strictly increasing list of strings unless it is there
/// already, keeping the list strictly increasing.
pub fn insert_sorted_unique(out: &mut Vec<String>, x: String)
    requires
        strictly_sorted(texts(old(out)@)),
    ensures
        strictly_sorted(texts(final(out)@)),
        forall|y: Seq<char>|
            #![trigger texts(final(out)@).contains(y)]
            texts(final(out)@).contains(y) <==> (texts(old(out)@).contains(y) || y == x@),
{
    let ghost so = texts(out@);
    let xc = chars_of(x.as_str());
    let len = out.len();
    let mut p: usize = 0;
    while p < len && compare_chars(&chars_of(out[p].as_str()), &xc) < 0
        invariant
            len == out@.len(),
            so == texts(out@),
            p <= len,
            xc@ == x@,
            forall|k: int| 0 <= k < p ==> seq_lt(#[trigger] so[k], x@),
        decreases len - p,
    {
        p = p + 1;
    }
    if p < len && compare_chars(&chars_of(out[p].as_str()), &xc) == 0 {
        assert(so[p as int] == x@);
        return;
    }
    proof {
        if p < len {
            lemma_seq_lt_total(so[p as int], x@);
        }
        lemma_insert_keeps_sorted(so, p as int, x@);
    }
    let ghost xv = x@;
    out.insert(p, x);
    let ghost s2 = texts(out@);
    assert(s2 =~= so.insert(p as int, xv));
    assert forall|y: Seq<char>| #![trigger s2.contains(y)] s2.contains(y) <==> (so.contains(y) || y == xv) by {
        if so.contains(y) {
            let k = choose|k: int| 0 <= k < so.len() && so[k] == y;
            if k < p {
                assert(s2[k] == y);
            } else {
                assert(s2[k + 1] == y);
            }
        }
        if y == xv {
            assert(s2[p as int] == y);
        }
        if s2.contains(y) {
            let k = choose|k: int| 0 <= k < s2.len() && s2[k] == y;
            if k < p {
                assert(so[k] == y);
            } else if k > p {
                assert(so[k - 1] == y);
            }
        }
    }
}

} // verus!
