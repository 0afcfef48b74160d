//! Rendering a directory listing: decorated names, sorted, in fixed-width
//! columns of four per row.

use vstd::prelude::*;
use crate::order::{lex_leq, sort_strings};
use crate::proto::DirEntry;

verus! {

/// A listed name: directories carry a trailing separator.
pub open spec fn decorated(e: (Seq<char>, bool)) -> Seq<char> {
    if e.1 {
        e.0 + seq!['/']
    } else {
        e.0
    }
}

/// The width every listing cell is padded to.
pub const CELL_WIDTH: usize = 20;

/// How many cells a listing row holds.
pub const CELLS_PER_ROW: usize = 4;

/// `n` spaces.
pub open spec fn spaces(n: nat) -> Seq<char> {
    Seq::new(n, |i: int| ' ')
}

/// A name padded with spaces to the cell width; longer names stay as they
/// are.
pub open spec fn spec_pad_cell(s: Seq<char>) -> Seq<char> {
    if s.len() >= CELL_WIDTH {
        s
    } else {
        s + spaces((CELL_WIDTH - s.len()) as nat)
    }
}

/// Pads `s` to the cell width.
pub fn pad_cell(s: &str) -> (r: String)
    ensures
        r@ == spec_pad_cell(s@),
{
    let n = s.unicode_len();
    let mut r = s.to_owned();
    if n >= CELL_WIDTH {
        return r;
    }
    let mut k: usize = n;
    while k < CELL_WIDTH
        invariant
            n <= k <= CELL_WIDTH,
            n == s@.len(),
            r@ == s@ + spaces((k - n) as nat),
        decreases CELL_WIDTH - k,
    {
        r.append(" ");
        proof {
            reveal_strlit(" ");
            assert(s@ + spaces((k - n) as nat) + " "@ =~= s@ + spaces((k + 1 - n) as nat));
        }
        k = k + 1;
    }
    proof {
        assert(s@ + spaces(0) =~= s@);
    }
    r
}

/// One row: the concatenation of the padded cells.
pub open spec fn spec_row(names: Seq<Seq<char>>) -> Seq<char>
    decreases names.len(),
{
    if names.len() == 0 {
        Seq::empty()
    } else {
        spec_row(names.drop_last()) + spec_pad_cell(names.last())
    }
}

/// The listing rows for the sorted names, four cells per row; a final
/// partial row holds the remainder.
pub open spec fn spec_rows(names: Seq<Seq<char>>) -> Seq<Seq<char>>
    decreases names.len(),
{
    if names.len() == 0 {
        Seq::empty()
    } else if names.len() <= CELLS_PER_ROW {
        seq![spec_row(names)]
    } else {
        seq![spec_row(names.take(CELLS_PER_ROW as int))] + spec_rows(
            names.skip(CELLS_PER_ROW as int),
        )
    }
}

/// Renders the names into rows of padded cells.
pub fn format_columns(names: &Vec<String>) -> (r: Vec<String>)
    ensures
        r.deep_view() == spec_rows(names.deep_view()),
{
    let ghost dv = names.deep_view();
    let mut out: Vec<String> = Vec::new();
    let mut i: usize = 0;
    proof {
        assert(dv.skip(0) =~= dv);
        assert(out.deep_view() =~= Seq::<Seq<char>>::empty());
        assert(out.deep_view() + spec_rows(dv.skip(0)) =~= spec_rows(dv));
    }
    while i < names.len()
        invariant
            0 <= i <= names.len(),
            dv == names.deep_view(),
            dv.len() == names.len(),
            spec_rows(dv) == out.deep_view() + spec_rows(dv.skip(i as int)),
        decreases names.len() - i,
    {
        let remaining = names.len() - i;
        let take = if remaining < CELLS_PER_ROW {
            remaining
        } else {
            CELLS_PER_ROW
        };
        let mut row = String::new();
        let mut j: usize = 0;
        proof {
            assert(dv.skip(i as int).take(0) =~= Seq::<Seq<char>>::empty());
            assert(row@ =~= spec_row(dv.skip(i as int).take(0)));
        }
        while j < take
            invariant
                0 <= j <= take,
                i + take <= names.len(),
                dv == names.deep_view(),
                dv.len() == names.len(),
                row@ == spec_row(dv.skip(i as int).take(j as int)),
            decreases take - j,
        {
            let cell = pad_cell(names[i + j].as_str());
            row.append(cell.as_str());
            proof {
                let part = dv.skip(i as int);
                assert(part.take(j as int + 1).drop_last() =~= part.take(j as int));
                assert(part.take(j as int + 1).last() == dv[i + j]);
                assert(dv[i + j] == names@[i + j]@);
            }
            j = j + 1;
        }
        out.push(row);
        proof {
            let part = dv.skip(i as int);
            if take == part.len() {
                assert(part.take(take as int) =~= part);
                assert(spec_rows(part) =~= seq![spec_row(part)]);
                assert(dv.skip(i as int + take as int) =~= Seq::<Seq<char>>::empty());
                assert(spec_rows(dv.skip(i as int + take as int)) =~= Seq::<Seq<char>>::empty());
            } else {
                assert(take == CELLS_PER_ROW && part.len() > CELLS_PER_ROW);
                assert(part.skip(CELLS_PER_ROW as int) =~= dv.skip(i as int + take as int));
            }
            assert(spec_rows(dv) =~= out.deep_view() + spec_rows(dv.skip(i as int + take as int)));
        }
        i = i + take;
    }
    proof {
        assert(dv.skip(i as int) =~= Seq::<Seq<char>>::empty());
        assert(spec_rows(dv) =~= out.deep_view());
    }
    out
}

/// The decorated names of the entries, in listing order.
pub open spec fn decorated_names(entries: Seq<(Seq<char>, bool)>) -> Seq<Seq<char>>
    decreases entries.len(),
{
    if entries.len() == 0 {
        Seq::empty()
    } else {
        decorated_names(entries.drop_last()).push(decorated(entries.last()))
    }
}

/// Decorates each entry name, a separator appended to directories.
pub fn decorate_entries(entries: &Vec<DirEntry>) -> (r: Vec<String>)
    ensures
        r.deep_view() == decorated_names(entries.deep_view()),
{
    let ghost dv = entries.deep_view();
    let mut out: Vec<String> = Vec::new();
    let mut i: usize = 0;
    while i < entries.len()
        invariant
            0 <= i <= entries.len(),
            dv == entries.deep_view(),
            dv.len() == entries.len(),
            out.deep_view() == decorated_names(dv.take(i as int)),
        decreases entries.len() - i,
    {
        let e = &entries[i];
        let name: String = if e.is_dir {
            e.name.clone().concat("/")
        } else {
            e.name.clone()
        };
        proof {
            reveal_strlit("/");
            assert(dv[i as int] == entries@[i as int].deep_view());
            assert(name@ =~= decorated(dv[i as int]));
        }
        out.push(name);
        proof {
            assert(dv.take(i as int + 1).drop_last() =~= dv.take(i as int));
            assert(dv.take(i as int + 1).last() == dv[i as int]);
            assert(out.deep_view() =~= decorated_names(dv.take(i as int + 1)));
        }
        i = i + 1;
    }
    proof {
        assert(dv.take(entries.len() as int) =~= dv);
    }
    out
}

/// The full listing for the entries: decorated names, sorted, in rows. This
/// is a function of the set of entries alone: the order the filesystem
/// returned them in does not matter.
pub open spec fn spec_ls_lines(entries: Seq<(Seq<char>, bool)>) -> Seq<Seq<char>> {
    spec_rows(decorated_names(entries).sort_by(lex_leq()))
}

/// Renders the listing: decorate, sort, lay out in columns.
pub fn ls_lines(entries: &Vec<DirEntry>) -> (r: Vec<String>)
    ensures
        r.deep_view() == spec_ls_lines(entries.deep_view()),
{
    let names = decorate_entries(entries);
    let sorted = sort_strings(names);
    format_columns(&sorted)
}


/// The listing is a function of which entries exist alone: two listings of
/// the same entries, however the filesystem ordered them, render the same
/// rows.
pub proof fn lemma_ls_order_canonical(a: Seq<(Seq<char>, bool)>, b: Seq<(Seq<char>, bool)>)
    requires
        decorated_names(a).to_multiset() == decorated_names(b).to_multiset(),
    ensures
        spec_ls_lines(a) == spec_ls_lines(b),
{
    crate::order::lemma_lex_total_ordering();
    decorated_names(a).lemma_sort_by_ensures(lex_leq());
    decorated_names(b).lemma_sort_by_ensures(lex_leq());
    vstd::seq_lib::lemma_sorted_unique(
        decorated_names(a).sort_by(lex_leq()),
        decorated_names(b).sort_by(lex_leq()),
        lex_leq(),
    );
}

} // verus!

