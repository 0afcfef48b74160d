//! Lexicographic order on strings (codepoint order) and a verified sort.

use vstd::prelude::*;
use vstd::relations::{sorted_by, total_ordering};
use vstd::seq_lib::lemma_sorted_unique;

verus! {

/// `a` comes at or before `b` in lexicographic codepoint order.
pub open spec fn lex_le(a: Seq<char>, b: Seq<char>) -> bool
    decreases a.len(),
{
    if a.len() == 0 {
        true
    } else if b.len() == 0 {
        false
    } else if a[0] == b[0] {
        lex_le(a.drop_first(), b.drop_first())
    } else {
        (a[0] as u32) < (b[0] as u32)
    }
}

/// The order as a spec closure, the shape vstd's sortedness predicates take.
pub open spec fn lex_leq() -> spec_fn(Seq<char>, Seq<char>) -> bool {
    |a: Seq<char>, b: Seq<char>| lex_le(a, b)
}

pub proof fn lemma_lex_le_connex(a: Seq<char>, b: Seq<char>)
    ensures
        lex_le(a, b) || lex_le(b, a),
    decreases a.len(),
{
    if a.len() > 0 && b.len() > 0 {
        if a[0] == b[0] {
            lemma_lex_le_connex(a.drop_first(), b.drop_first());
        } else {
            vstd::utf8::char_u32_cast(a[0], a[0] as u32);
            vstd::utf8::char_u32_cast(b[0], b[0] as u32);
            assert((a[0] as u32) != (b[0] as u32));
        }
    }
}

pub proof fn lemma_lex_le_antisym(a: Seq<char>, b: Seq<char>)
    requires
        lex_le(a, b),
        lex_le(b, a),
    ensures
        a == b,
    decreases a.len(),
{
    if a.len() == 0 {
        assert(b.len() == 0);
        assert(a =~= b);
    } else {
        assert(b.len() > 0);
        assert(a[0] == b[0]);
        lemma_lex_le_antisym(a.drop_first(), b.drop_first());
        assert(a =~= seq![a[0]] + a.drop_first());
        assert(b =~= seq![b[0]] + b.drop_first());
    }
}

pub proof fn lemma_lex_le_trans(a: Seq<char>, b: Seq<char>, c: Seq<char>)
    requires
        lex_le(a, b),
        lex_le(b, c),
    ensures
        lex_le(a, c),
    decreases a.len(),
{
    if a.len() > 0 && b.len() > 0 && c.len() > 0 && a[0] == b[0] && b[0] == c[0] {
        lemma_lex_le_trans(a.drop_first(), b.drop_first(), c.drop_first());
    }
}

/// [`lex_le`] is a total order, in the sense vstd's sorting lemmas expect.
pub proof fn lemma_lex_total_ordering()
    ensures
        total_ordering(lex_leq()),
{
    let leq = lex_leq();
    assert forall|a: Seq<char>, b: Seq<char>| #[trigger] leq(a, b) || #[trigger] leq(b, a) by {
        lemma_lex_le_connex(a, b);
    }
    assert forall|a: Seq<char>, b: Seq<char>| #[trigger] leq(a, b) && #[trigger] leq(b, a) implies a == b by {
        lemma_lex_le_antisym(a, b);
    }
    assert forall|a: Seq<char>, b: Seq<char>, c: Seq<char>|
        #[trigger] leq(a, b) && #[trigger] leq(b, c) implies leq(a, c) by {
        lemma_lex_le_trans(a, b, c);
    }
}

/// Dropping an equal prefix of length `i` does not change the order.
proof fn lemma_lex_le_common_prefix(a: Seq<char>, b: Seq<char>, i: int)
    requires
        0 <= i <= a.len(),
        i <= b.len(),
        forall|k: int| 0 <= k < i ==> a[k] == b[k],
    ensures
        lex_le(a, b) == lex_le(a.skip(i), b.skip(i)),
    decreases i,
{
    if i > 0 {
        assert(a.len() > 0 && b.len() > 0 && a[0] == b[0]);
        assert(forall|k: int| 0 <= k < i - 1 ==> a.drop_first()[k] == b.drop_first()[k]);
        lemma_lex_le_common_prefix(a.drop_first(), b.drop_first(), i - 1);
        assert(a.drop_first().skip(i - 1) =~= a.skip(i));
        assert(b.drop_first().skip(i - 1) =~= b.skip(i));
    } else {
        assert(a.skip(0) =~= a);
        assert(b.skip(0) =~= b);
    }
}

/// Compares two strings in lexicographic codepoint order.
pub fn str_lex_le(a: &str, b: &str) -> (r: bool)
    ensures
        r == lex_le(a@, b@),
{
    let na = a.unicode_len();
    let nb = b.unicode_len();
    let mut i: usize = 0;
    loop
        invariant
            0 <= i <= na,
            i <= nb,
            na == a@.len(),
            nb == b@.len(),
            forall|k: int| 0 <= k < i ==> a@[k] == b@[k],
        decreases na - i,
    {
        proof {
            lemma_lex_le_common_prefix(a@, b@, i as int);
        }
        if i == na {
            proof {
                assert(a@.skip(i as int).len() == 0);
            }
            return true;
        }
        if i == nb {
            proof {
                assert(b@.skip(i as int).len() == 0);
                assert(a@.skip(i as int).len() > 0);
            }
            return false;
        }
        let ca = a.get_char(i);
        let cb = b.get_char(i);
        proof {
            assert(a@.skip(i as int)[0] == a@[i as int]);
            assert(b@.skip(i as int)[0] == b@[i as int]);
        }
        if ca as u32 != cb as u32 {
            proof {
                assert(ca as u32 != cb as u32 ==> ca != cb);
            }
            return (ca as u32) < (cb as u32);
        }
        proof {
            assert(ca == cb) by {
                vstd::utf8::char_u32_cast(ca, ca as u32);
                vstd::utf8::char_u32_cast(cb, cb as u32);
            }
        }
        i = i + 1;
    }
}

/// All neighbours of `v` are ordered by [`lex_le`].
pub open spec fn lex_sorted(v: Seq<Seq<char>>) -> bool {
    sorted_by(v, lex_leq())
}

/// Inserts `s` into the sorted vector `v`, keeping it sorted.
fn insert_sorted(v: &mut Vec<String>, s: String)
    requires
        lex_sorted(old(v).deep_view()),
    ensures
        lex_sorted(final(v).deep_view()),
        final(v).deep_view().to_multiset() == old(v).deep_view().to_multiset().insert(s@),
{
    let ghost dv0 = old(v).deep_view();
    let mut i: usize = 0;
    while i < v.len() && str_lex_le(&v[i], s.as_str())
        invariant
            0 <= i <= v.len(),
            *v == *old(v),
            dv0 == v.deep_view(),
            forall|k: int| 0 <= k < i ==> lex_le(#[trigger] dv0[k], s@),
        decreases v.len() - i,
    {
        proof {
            assert(dv0[i as int] == v@[i as int]@);
        }
        i = i + 1;
    }
    proof {
        if i < dv0.len() {
            lemma_lex_le_connex(dv0[i as int], s@);
            assert(lex_le(s@, dv0[i as int]));
        }
    }
    v.insert(i, s);
    proof {
        let dv = v.deep_view();
        assert(dv =~= dv0.insert(i as int, s@));
        assert forall|p: int, q: int| 0 <= p < q < dv.len() implies lex_leq()(dv[p], dv[q]) by {
            if p == i {
                assert(dv[q] == dv0[q - 1]);
                if q - 1 == i {
                    assert(lex_le(s@, dv0[i as int]));
                } else {
                    assert(lex_leq()(dv0[i as int], dv0[q - 1]));
                    lemma_lex_le_trans(s@, dv0[i as int], dv0[q - 1]);
                }
            } else if q == i {
                assert(dv[p] == dv0[p]);
            } else if p < i && q > i {
                assert(dv[p] == dv0[p] && dv[q] == dv0[q - 1]);
                if p == q - 1 {
                    lemma_lex_le_connex(dv0[p], dv0[p]);
                } else {
                    assert(lex_leq()(dv0[p], dv0[q - 1]));
                }
            } else if q < i {
                assert(dv[p] == dv0[p] && dv[q] == dv0[q]);
                assert(lex_leq()(dv0[p], dv0[q]));
            } else {
                assert(dv[p] == dv0[p - 1] && dv[q] == dv0[q - 1]);
                assert(lex_leq()(dv0[p - 1], dv0[q - 1]));
            }
        }
        assert(dv =~= dv0.take(i as int) + seq![s@] + dv0.skip(i as int));
        lemma_to_multiset_insert(dv0, i as int, s@);
    }
}

proof fn lemma_to_multiset_insert(s: Seq<Seq<char>>, i: int, x: Seq<char>)
    requires
        0 <= i <= s.len(),
    ensures
        s.insert(i, x).to_multiset() == s.to_multiset().insert(x),
{
    broadcast use vstd::seq_lib::group_to_multiset_ensures;

    let t = s.insert(i, x);
    assert(t.len() == s.len() + 1);
    assert(t[i] == x);
    assert(t.remove(i) =~= s);
    assert(t.remove(i).to_multiset() =~= t.to_multiset().remove(x));
    assert(t.to_multiset().contains(x)) by {
        assert(t[i] == x);
    }
    assert(t.to_multiset() =~= t.to_multiset().remove(x).insert(x));
    assert(t.to_multiset() =~= s.to_multiset().insert(x));
}

/// Sorts the strings in lexicographic codepoint order. The result is a
/// permutation of the input.
pub fn sort_strings(v: Vec<String>) -> (r: Vec<String>)
    ensures
        lex_sorted(r.deep_view()),
        r.deep_view().to_multiset() == v.deep_view().to_multiset(),
        r.deep_view() == v.deep_view().sort_by(lex_leq()),
{
    broadcast use vstd::seq_lib::group_to_multiset_ensures;

    let ghost dv = v.deep_view();
    let n = v.len();
    let mut out: Vec<String> = Vec::new();
    let mut src = v;
    let mut i: usize = 0;
    proof {
        assert(out.deep_view() =~= Seq::<Seq<char>>::empty());
        assert(dv.take(0) =~= Seq::<Seq<char>>::empty());
        assert(Seq::<Seq<char>>::empty().to_multiset() =~= dv.take(0).to_multiset());
    }
    while i < n
        invariant
            0 <= i <= n,
            src.deep_view() == dv,
            n == dv.len(),
            lex_sorted(out.deep_view()),
            out.deep_view().to_multiset() == dv.take(i as int).to_multiset(),
        decreases n - i,
    {
        let s = src[i].clone();
        proof {
            assert(s@ == dv[i as int]);
            assert(dv.take(i as int + 1) =~= dv.take(i as int).push(dv[i as int]));
            vstd::seq_lib::to_multiset_build(dv.take(i as int), dv[i as int]);
            assert(dv.take(i as int + 1).to_multiset() =~= dv.take(i as int).to_multiset().insert(
                dv[i as int],
            ));
        }
        insert_sorted(&mut out, s);
        i = i + 1;
    }
    proof {
        assert(dv.take(n as int) =~= dv);
        lemma_lex_total_ordering();
        dv.lemma_sort_by_ensures(lex_leq());
        lemma_sorted_unique(out.deep_view(), dv.sort_by(lex_leq()), lex_leq());
    }
    out
}

} // verus!
