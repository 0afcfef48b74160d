//! Path strings: absolute/relative resolution, splitting a partial path for
//! completion, and the displayed name of a directory.

use vstd::prelude::*;

verus! {

/// A path string is absolute when it starts with the separator.
pub open spec fn is_absolute(s: Seq<char>) -> bool {
    s.len() > 0 && s[0] == '/'
}

/// `base` and `child` joined with a single separator.
pub open spec fn spec_join(base: Seq<char>, child: Seq<char>) -> Seq<char> {
    base + seq!['/'] + child
}

/// Where `raw` resolves to against the directory `base`: an absolute `raw`
/// stands for itself, a relative one for `base` extended by it. No
/// canonicalization happens here.
pub open spec fn spec_resolve(raw: Seq<char>, base: Seq<char>) -> Seq<char> {
    if is_absolute(raw) {
        raw
    } else {
        spec_join(base, raw)
    }
}

/// Executable mirror of [`spec_resolve`].
pub fn resolve(raw: &str, base: &str) -> (r: String)
    ensures
        r@ == spec_resolve(raw@, base@),
{
    let n = raw.unicode_len();
    if n > 0 && raw.get_char(0) == '/' {
        raw.to_owned()
    } else {
        let j = base.to_owned().concat("/");
        let r = j.concat(raw);
        proof {
            reveal_strlit("/");
            assert(r@ =~= spec_join(base@, raw@));
        }
        r
    }
}

/// Index of the last separator of `s`, or `-1` when `s` holds none.
pub open spec fn last_slash(s: Seq<char>) -> int
    decreases s.len(),
{
    if s.len() == 0 {
        -1
    } else if s.last() == '/' {
        s.len() - 1
    } else {
        last_slash(s.drop_last())
    }
}

pub proof fn lemma_last_slash_bounds(s: Seq<char>)
    ensures
        -1 <= last_slash(s) < s.len(),
        last_slash(s) >= 0 ==> s[last_slash(s)] == '/',
        forall|i: int| last_slash(s) < i < s.len() ==> s[i] != '/',
    decreases s.len(),
{
    if s.len() > 0 && s.last() != '/' {
        lemma_last_slash_bounds(s.drop_last());
        assert(forall|i: int| 0 <= i < s.len() - 1 ==> s[i] == s.drop_last()[i]);
    }
}

/// The last separator index is determined by its characterization.
pub proof fn lemma_last_slash_is(s: Seq<char>, k: int)
    requires
        -1 <= k < s.len(),
        k >= 0 ==> s[k] == '/',
        forall|i: int| k < i < s.len() ==> s[i] != '/',
    ensures
        last_slash(s) == k,
    decreases s.len(),
{
    if s.len() == 0 {
    } else if s.last() == '/' {
        assert(k == s.len() - 1);
    } else {
        assert(k < s.len() - 1);
        assert(forall|i: int| 0 <= i < s.len() - 1 ==> s.drop_last()[i] == s[i]);
        lemma_last_slash_is(s.drop_last(), k);
    }
}

/// Finds the last separator of `s`, `None` when there is none.
pub fn find_last_slash(s: &str) -> (r: Option<usize>)
    ensures
        match r {
            Some(k) => last_slash(s@) == k as int,
            None => last_slash(s@) == -1,
        },
{
    let n = s.unicode_len();
    let mut k: usize = n;
    while k > 0
        invariant
            0 <= k <= n,
            n == s@.len(),
            forall|i: int| k <= i < n ==> s@[i] != '/',
        decreases k,
    {
        if s.get_char(k - 1) == '/' {
            proof {
                lemma_last_slash_is(s@, k - 1);
            }
            return Some(k - 1);
        }
        k = k - 1;
    }
    proof {
        lemma_last_slash_is(s@, -1);
    }
    None
}

/// The directory part a partial path names: everything before the final
/// segment, the current directory when there is no separator, the root when
/// the only separator is the leading one.
pub open spec fn spec_dir_part(partial: Seq<char>) -> Seq<char> {
    if partial.len() == 0 {
        "."@
    } else if partial.last() == '/' {
        partial
    } else if last_slash(partial) == -1 {
        "."@
    } else if last_slash(partial) == 0 {
        "/"@
    } else {
        partial.take(last_slash(partial))
    }
}

/// The final segment of a partial path, the prefix completion matches
/// against; empty when the partial path is empty or ends in a separator.
pub open spec fn spec_name_prefix(partial: Seq<char>) -> Seq<char> {
    if partial.len() == 0 || partial.last() == '/' {
        Seq::empty()
    } else {
        partial.skip(last_slash(partial) + 1)
    }
}

/// Splits a partial path into the directory to list and the name prefix to
/// match, as [`spec_dir_part`] and [`spec_name_prefix`] describe.
pub fn split_partial(partial: &str) -> (r: (String, String))
    ensures
        r.0@ == spec_dir_part(partial@),
        r.1@ == spec_name_prefix(partial@),
{
    let n = partial.unicode_len();
    if n == 0 {
        let dot: String = ".".to_owned();
        return (dot, String::new());
    }
    if partial.get_char(n - 1) == '/' {
        return (partial.to_owned(), String::new());
    }
    match find_last_slash(partial) {
        None => {
            proof {
                lemma_last_slash_bounds(partial@);
                assert(partial@.skip(0) =~= partial@);
            }
            (".".to_owned(), partial.to_owned())
        },
        Some(k) => {
            proof {
                lemma_last_slash_bounds(partial@);
            }
            let prefix = partial.substring_char(k + 1, n).to_owned();
            proof {
                assert(partial@.subrange(k as int + 1, n as int) =~= partial@.skip(k as int + 1));
            }
            if k == 0 {
                ("/".to_owned(), prefix)
            } else {
                let dir = partial.substring_char(0, k).to_owned();
                proof {
                    assert(partial@.subrange(0, k as int) =~= partial@.take(k as int));
                }
                (dir, prefix)
            }
        },
    }
}

/// The name a prompt shows for a directory path: the segment after the last
/// separator, or a placeholder when there is none to show.
pub open spec fn spec_dir_name(path: Seq<char>) -> Seq<char> {
    if last_slash(path) == -1 {
        if path.len() == 0 {
            "?"@
        } else {
            path
        }
    } else if last_slash(path) == path.len() - 1 {
        "?"@
    } else {
        path.skip(last_slash(path) + 1)
    }
}

/// Executable mirror of [`spec_dir_name`].
pub fn dir_name_of(path: &str) -> (r: String)
    ensures
        r@ == spec_dir_name(path@),
{
    let n = path.unicode_len();
    match find_last_slash(path) {
        None => {
            if n == 0 {
                "?".to_owned()
            } else {
                path.to_owned()
            }
        },
        Some(k) => {
            proof {
                lemma_last_slash_bounds(path@);
            }
            if k + 1 == n {
                "?".to_owned()
            } else {
                let r = path.substring_char(k + 1, n).to_owned();
                proof {
                    assert(path@.subrange(k + 1, n as int) =~= path@.skip(k as int + 1));
                }
                r
            }
        },
    }
}

/// `p` is a prefix of `s`.
pub open spec fn is_prefix_of(p: Seq<char>, s: Seq<char>) -> bool {
    p.len() <= s.len() && s.take(p.len() as int) == p
}

/// Whether `s` starts with `p`.
pub fn starts_with(s: &str, p: &str) -> (r: bool)
    ensures
        r == is_prefix_of(p@, s@),
{
    let np = p.unicode_len();
    let ns = s.unicode_len();
    if np > ns {
        proof {
            assert(!is_prefix_of(p@, s@));
        }
        return false;
    }
    let mut i: usize = 0;
    while i < np
        invariant
            0 <= i <= np <= ns,
            np == p@.len(),
            ns == s@.len(),
            forall|k: int| 0 <= k < i ==> s@[k] == p@[k],
        decreases np - i,
    {
        if s.get_char(i) != p.get_char(i) {
            proof {
                assert(s@.take(np as int)[i as int] != p@[i as int]);
            }
            return false;
        }
        i = i + 1;
    }
    proof {
        assert(s@.take(np as int) =~= p@);
    }
    true
}

/// Whether `s` ends with a tab character.
pub fn ends_with_tab(s: &str) -> (r: bool)
    ensures
        r == (s@.len() > 0 && s@.last() == '\t'),
{
    let n = s.unicode_len();
    n > 0 && s.get_char(n - 1) == '\t'
}

/// Whether `s` ends with the path separator.
pub fn ends_with_slash(s: &str) -> (r: bool)
    ensures
        r == (s@.len() > 0 && s@.last() == '/'),
{
    let n = s.unicode_len();
    n > 0 && s.get_char(n - 1) == '/'
}

} // verus!
