//! Whitespace tokenization and re-joining of command lines.

use vstd::prelude::*;
use crate::is_space;
use crate::is_space_char;

verus! {

/// Index of the first whitespace character of `s`, or `s.len()` when `s`
/// holds none.
pub open spec fn first_space(s: Seq<char>) -> nat
    decreases s.len(),
{
    if s.len() == 0 {
        0
    } else if is_space(s[0]) {
        0
    } else {
        1 + first_space(s.drop_first())
    }
}

pub proof fn lemma_first_space_le_len(s: Seq<char>)
    ensures
        first_space(s) <= s.len(),
    decreases s.len(),
{
    if s.len() > 0 && !is_space(s[0]) {
        lemma_first_space_le_len(s.drop_first());
    }
}

/// Everything strictly before `first_space(s)` is non-whitespace, and the
/// character at `first_space(s)`, when there is one, is whitespace.
pub proof fn lemma_first_space_chars(s: Seq<char>)
    ensures
        forall|i: int| 0 <= i < first_space(s) ==> !is_space(#[trigger] s[i]),
        first_space(s) < s.len() ==> is_space(s[first_space(s) as int]),
    decreases s.len(),
{
    lemma_first_space_le_len(s);
    if s.len() > 0 && !is_space(s[0]) {
        lemma_first_space_chars(s.drop_first());
        assert forall|i: int| 0 <= i < first_space(s) implies !is_space(#[trigger] s[i]) by {
            if i > 0 {
                assert(s[i] == s.drop_first()[i - 1]);
            }
        }
        if first_space(s) < s.len() {
            assert(s[first_space(s) as int] == s.drop_first()[first_space(s.drop_first()) as int]);
        }
    }
}

/// The first whitespace index is determined by its characterization: if all
/// of `s` before `k` is non-whitespace and `k` is the end or a whitespace
/// position, then `k` is `first_space(s)`.
pub proof fn lemma_first_space_is(s: Seq<char>, k: int)
    requires
        0 <= k <= s.len(),
        forall|i: int| 0 <= i < k ==> !is_space(#[trigger] s[i]),
        k < s.len() ==> is_space(s[k]),
    ensures
        first_space(s) == k,
    decreases s.len(),
{
    if s.len() == 0 {
    } else if is_space(s[0]) {
        assert(k == 0);
    } else {
        assert(k >= 1);
        lemma_first_space_is(s.drop_first(), k - 1);
    }
}

#[via_fn]
proof fn tokens_decreases(s: Seq<char>) {
    if s.len() > 0 && !is_space(s[0]) {
        lemma_first_space_le_len(s);
    }
}

/// The whitespace-delimited tokens of `s`, in order.
pub open spec fn tokens(s: Seq<char>) -> Seq<Seq<char>>
    decreases s.len(),
        via tokens_decreases
{
    if s.len() == 0 {
        Seq::empty()
    } else if is_space(s[0]) {
        tokens(s.drop_first())
    } else {
        seq![s.take(first_space(s) as int)] + tokens(s.skip(first_space(s) as int))
    }
}

/// The tokens joined back into one line with a single space between
/// neighbours.
pub open spec fn join_tokens(ts: Seq<Seq<char>>) -> Seq<char>
    decreases ts.len(),
{
    if ts.len() == 0 {
        Seq::empty()
    } else if ts.len() == 1 {
        ts[0]
    } else {
        ts[0] + seq![' '] + join_tokens(ts.drop_first())
    }
}

/// A well-formed token list: every token is non-empty and free of
/// whitespace.
pub open spec fn wf_tokens(ts: Seq<Seq<char>>) -> bool {
    forall|i: int|
        0 <= i < ts.len() ==> (#[trigger] ts[i]).len() > 0 && (forall|j: int|
            0 <= j < ts[i].len() ==> !is_space(#[trigger] ts[i][j]))
}

/// Tokenizing always yields well-formed tokens.
pub proof fn lemma_tokens_wf(s: Seq<char>)
    ensures
        wf_tokens(tokens(s)),
    decreases s.len(),
{
    if s.len() == 0 {
    } else if is_space(s[0]) {
        lemma_tokens_wf(s.drop_first());
    } else {
        lemma_first_space_le_len(s);
        lemma_first_space_chars(s);
        lemma_tokens_wf(s.skip(first_space(s) as int));
        let t = s.take(first_space(s) as int);
        let rest = tokens(s.skip(first_space(s) as int));
        assert(t.len() > 0);
        assert(forall|j: int| 0 <= j < t.len() ==> !is_space(#[trigger] t[j]));
        assert forall|i: int| 0 <= i < tokens(s).len() implies (#[trigger] tokens(s)[i]).len() > 0
            && (forall|j: int| 0 <= j < tokens(s)[i].len() ==> !is_space(#[trigger] tokens(s)[i][j])) by {
            if i == 0 {
                assert(tokens(s)[0] == t);
            } else {
                assert(tokens(s)[i] == rest[i - 1]);
            }
        }
    }
}

/// Tokenizing the joined form of any well-formed token list gives that list
/// back.
pub proof fn lemma_tokens_of_join(ts: Seq<Seq<char>>)
    requires
        wf_tokens(ts),
    ensures
        tokens(join_tokens(ts)) == ts,
    decreases ts.len(),
{
    if ts.len() == 0 {
        assert(tokens(join_tokens(ts)) =~= ts);
    } else if ts.len() == 1 {
        let t = ts[0];
        assert(t.len() > 0 && !is_space(t[0]));
        lemma_first_space_is(t, t.len() as int);
        assert(t.take(t.len() as int) =~= t);
        assert(t.skip(t.len() as int) =~= Seq::<char>::empty());
        assert(tokens(t.skip(t.len() as int)) =~= Seq::<Seq<char>>::empty());
        assert(tokens(t) =~= seq![t]);
        assert(seq![t] =~= ts);
    } else {
        let t = ts[0];
        let rest = join_tokens(ts.drop_first());
        let s = join_tokens(ts);
        assert(s == t + seq![' '] + rest);
        assert(t.len() > 0);
        assert(!is_space(s[0]));
        assert forall|i: int| 0 <= i < t.len() implies !is_space(#[trigger] s[i]) by {
            assert(s[i] == t[i]);
        }
        assert(is_space(s[t.len() as int]));
        lemma_first_space_is(s, t.len() as int);
        assert(s.take(t.len() as int) =~= t);
        let after = s.skip(t.len() as int);
        assert(after[0] == ' ');
        assert(after.drop_first() =~= rest);
        assert(tokens(after) == tokens(rest));
        assert(wf_tokens(ts.drop_first())) by {
            assert(forall|i: int|
                0 <= i < ts.drop_first().len() ==> #[trigger] ts.drop_first()[i] == ts[i + 1]);
        }
        lemma_tokens_of_join(ts.drop_first());
        assert(tokens(s) =~= seq![t] + ts.drop_first());
        assert(seq![t] + ts.drop_first() =~= ts);
    }
}

/// Tokenizing, re-joining with single spaces and tokenizing again yields the
/// same tokens: whitespace normalization is idempotent on the token list.
pub proof fn lemma_rejoin_idempotent(s: Seq<char>)
    ensures
        tokens(join_tokens(tokens(s))) == tokens(s),
{
    lemma_tokens_wf(s);
    lemma_tokens_of_join(tokens(s));
}

/// Splits `line` into its whitespace-delimited tokens.
pub fn tokenize(line: &str) -> (r: Vec<String>)
    ensures
        r.deep_view() == tokens(line@),
    decreases line@.len(),
{
    let n = line.unicode_len();
    proof {
        assert(line@.skip(0) =~= line@);
    }
    let mut i: usize = 0;
    while i < n && is_space_char(line.get_char(i))
        invariant
            0 <= i <= n,
            n == line@.len(),
            tokens(line@.skip(i as int)) == tokens(line@),
            forall|k: int| 0 <= k < i ==> is_space(#[trigger] line@[k]),
        decreases n - i,
    {
        proof {
            let cur = line@.skip(i as int);
            assert(cur[0] == line@[i as int]);
            assert(cur.drop_first() =~= line@.skip(i as int + 1));
        }
        i = i + 1;
    }
    if i == n {
        proof {
            assert(line@.skip(i as int) =~= Seq::<char>::empty());
        }
        return Vec::new();
    }
    let mut j: usize = i;
    while j < n && !is_space_char(line.get_char(j))
        invariant
            0 <= i <= j <= n,
            n == line@.len(),
            i < n,
            !is_space(line@[i as int]),
            forall|k: int| i <= k < j ==> !is_space(#[trigger] line@[k]),
        decreases n - j,
    {
        j = j + 1;
    }
    let tok: String = line.substring_char(i, j).to_owned();
    let rest_str = line.substring_char(j, n);
    proof {
        let cur = line@.skip(i as int);
        assert forall|k: int| 0 <= k < j - i implies !is_space(#[trigger] cur[k]) by {
            assert(cur[k] == line@[k + i]);
        }
        if j < n {
            assert(cur[j - i] == line@[j as int]);
        }
        lemma_first_space_is(cur, j - i);
        assert(cur.take(j - i) =~= line@.subrange(i as int, j as int));
        assert(cur.skip(j - i) =~= line@.subrange(j as int, n as int));
        assert(tokens(line@) == seq![tok@] + tokens(rest_str@));
    }
    let mut r = tokenize(rest_str);
    r.insert(0, tok);
    proof {
        assert(r.deep_view() =~= tokens(line@));
    }
    r
}

/// Joins tokens with single spaces, the inverse direction of [`tokenize`].
pub fn join_with_spaces(ts: &Vec<String>) -> (r: String)
    ensures
        r@ == join_tokens(ts.deep_view()),
{
    let r = join_from(ts, 0);
    proof {
        assert(ts.deep_view().skip(0) =~= ts.deep_view());
    }
    r
}

fn join_from(ts: &Vec<String>, i: usize) -> (r: String)
    requires
        i <= ts.len(),
    ensures
        r@ == join_tokens(ts.deep_view().skip(i as int)),
    decreases ts.len() - i,
{
    let dv = Ghost(ts.deep_view());
    if i == ts.len() {
        proof {
            assert(dv@.skip(i as int) =~= Seq::<Seq<char>>::empty());
        }
        String::new()
    } else if i + 1 == ts.len() {
        proof {
            assert(dv@.skip(i as int) =~= seq![dv@[i as int]]);
        }
        ts[i].clone()
    } else {
        let rest = join_from(ts, i + 1);
        let head: String = ts[i].clone();
        let head2 = head.concat(" ");
        let out = head2.concat(rest.as_str());
        proof {
            reveal_strlit(" ");
            assert(dv@.skip(i as int).drop_first() =~= dv@.skip(i as int + 1));
            assert(dv@.skip(i as int)[0] == dv@[i as int]);
            assert(out@ =~= join_tokens(dv@.skip(i as int)));
        }
        out
    }
}

} // verus!
