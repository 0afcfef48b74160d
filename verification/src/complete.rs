//! Building tab-completion candidates for a partial path.

use vstd::prelude::*;
use crate::order::{lex_leq, lex_sorted, sort_strings};
use crate::path::{is_prefix_of, spec_dir_part, spec_name_prefix, split_partial, starts_with,
    ends_with_slash};
use crate::proto::DirEntry;

verus! {

/// The candidate string built for one matching entry: the reconstruction
/// keeps the shape of the original partial path, and a directory entry gets
/// a trailing separator.
pub open spec fn candidate_of(partial: Seq<char>, name: Seq<char>, is_dir: bool) -> Seq<char> {
    let dir_part = spec_dir_part(partial);
    let base = if dir_part == "."@ {
        name
    } else if partial.len() > 0 && partial.last() == '/' {
        partial + name
    } else {
        dir_part + seq!['/'] + name
    };
    if is_dir {
        base + seq!['/']
    } else {
        base
    }
}

/// An entry matches when its name starts with the partial path's final
/// segment; an empty segment matches everything.
pub open spec fn entry_matches(partial: Seq<char>, name: Seq<char>) -> bool {
    is_prefix_of(spec_name_prefix(partial), name)
}

/// The candidates for `partial` over the listed entries, in listing order,
/// before sorting.
pub open spec fn candidates_spec(partial: Seq<char>, entries: Seq<(Seq<char>, bool)>) -> Seq<
    Seq<char>,
>
    decreases entries.len(),
{
    if entries.len() == 0 {
        Seq::empty()
    } else {
        let rest = candidates_spec(partial, entries.drop_last());
        let e = entries.last();
        if entry_matches(partial, e.0) {
            rest.push(candidate_of(partial, e.0, e.1))
        } else {
            rest
        }
    }
}

/// Lists the completion candidates for `partial` over the entries of its
/// directory part, sorted lexicographically. The result holds exactly one
/// candidate for each entry whose name matches the final segment of
/// `partial`.
pub fn build_candidates(partial: &str, entries: &Vec<DirEntry>) -> (r: Vec<String>)
    ensures
        lex_sorted(r.deep_view()),
        r.deep_view() == candidates_spec(partial@, entries.deep_view()).sort_by(lex_leq()),
        r.deep_view().to_multiset() == candidates_spec(partial@, entries.deep_view()).to_multiset(),
{
    let (dir_part, prefix) = split_partial(partial);
    let dot_dir = dir_part.as_str().unicode_len() == 1 && dir_part.as_str().get_char(0) == '.';
    proof {
        reveal_strlit(".");
        assert(dot_dir == (dir_part@ =~= "."@));
    }
    let slash_end = ends_with_slash(partial);
    let ghost dv = entries.deep_view();
    let mut acc: Vec<String> = Vec::new();
    let mut i: usize = 0;
    proof {
        assert(acc.deep_view() =~= Seq::<Seq<char>>::empty());
        assert(dv.take(0) =~= Seq::<(Seq<char>, bool)>::empty());
    }
    while i < entries.len()
        invariant
            0 <= i <= entries.len(),
            dv == entries.deep_view(),
            dv.len() == entries.len(),
            dir_part@ == spec_dir_part(partial@),
            prefix@ == spec_name_prefix(partial@),
            dot_dir == (dir_part@ == "."@),
            slash_end == (partial@.len() > 0 && partial@.last() == '/'),
            acc.deep_view() == candidates_spec(partial@, dv.take(i as int)),
        decreases entries.len() - i,
    {
        let e = &entries[i];
        proof {
            assert(dv[i as int] == entries@[i as int].deep_view());
            assert(dv.take(i as int + 1).drop_last() =~= dv.take(i as int));
            assert(dv.take(i as int + 1).last() == dv[i as int]);
        }
        if starts_with(e.name.as_str(), prefix.as_str()) {
            let base: String = if dot_dir {
                e.name.clone()
            } else if slash_end {
                partial.to_owned().concat(e.name.as_str())
            } else {
                dir_part.clone().concat("/").concat(e.name.as_str())
            };
            let cand: String = if e.is_dir {
                base.concat("/")
            } else {
                base
            };
            proof {
                reveal_strlit("/");
                assert(cand@ =~= candidate_of(partial@, dv[i as int].0, dv[i as int].1));
            }
            acc.push(cand);
            proof {
                assert(acc.deep_view() =~= candidates_spec(partial@, dv.take(i as int + 1)));
            }
        } else {
            proof {
                assert(acc.deep_view() =~= candidates_spec(partial@, dv.take(i as int + 1)));
            }
        }
        i = i + 1;
    }
    proof {
        assert(dv.take(entries.len() as int) =~= dv);
    }
    let r = sort_strings(acc);
    proof {
        crate::order::lemma_lex_total_ordering();
        candidates_spec(partial@, dv).lemma_sort_by_ensures(lex_leq());
    }
    r
}

} // verus!
