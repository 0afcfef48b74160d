//! Parsing the options of `rm`: `-f`, `-r`/`-R`, and everything else as
//! targets. A dash token is scanned character by character; an unknown flag
//! character is an error for the strict front end and ignored by the
//! lenient one.

use vstd::prelude::*;

verus! {

/// A token that is scanned as a bundle of flags.
pub open spec fn flag_token(t: Seq<char>) -> bool {
    t.len() > 0 && t[0] == '-'
}

/// A character the `rm` flag scanner accepts.
pub open spec fn valid_flag_char(c: char) -> bool {
    c == 'f' || c == 'r' || c == 'R'
}

/// Whether the flag characters of `t` (everything after the dash) include
/// `c`.
pub open spec fn token_has_flag(t: Seq<char>, c: char) -> bool {
    exists|i: int| 1 <= i < t.len() && t[i] == c
}

/// Whether any flag token of `args` carries the flag character `c`.
pub open spec fn args_have_flag(args: Seq<Seq<char>>, c: char) -> bool {
    exists|i: int|
        0 <= i < args.len() && flag_token(#[trigger] args[i]) && token_has_flag(args[i], c)
}

/// `-f` was given.
pub open spec fn rm_force(args: Seq<Seq<char>>) -> bool {
    args_have_flag(args, 'f')
}

/// `-r` or `-R` was given.
pub open spec fn rm_recursive(args: Seq<Seq<char>>) -> bool {
    args_have_flag(args, 'r') || args_have_flag(args, 'R')
}

/// The first unacceptable flag character of `t` at or after position `i`.
pub open spec fn token_invalid_from(t: Seq<char>, i: int) -> Option<char>
    decreases t.len() - i,
{
    if i < 1 || i >= t.len() {
        None
    } else if valid_flag_char(t[i]) {
        token_invalid_from(t, i + 1)
    } else {
        Some(t[i])
    }
}

/// The first unacceptable flag character over the flag tokens of `args`, in
/// scan order.
pub open spec fn rm_first_invalid(args: Seq<Seq<char>>) -> Option<char>
    decreases args.len(),
{
    if args.len() == 0 {
        None
    } else if flag_token(args[0]) && token_invalid_from(args[0], 1) is Some {
        token_invalid_from(args[0], 1)
    } else {
        rm_first_invalid(args.drop_first())
    }
}

/// The non-flag tokens of `args`, in order: the removal targets.
pub open spec fn rm_targets(args: Seq<Seq<char>>) -> Seq<Seq<char>>
    decreases args.len(),
{
    if args.len() == 0 {
        Seq::empty()
    } else {
        let rest = rm_targets(args.drop_last());
        if flag_token(args.last()) {
            rest
        } else {
            rest.push(args.last())
        }
    }
}

/// The parsed shape of an `rm` invocation.
pub struct RemoveOptions {
    pub force: bool,
    pub recursive: bool,
    pub targets: Vec<String>,
}

/// Scans one flag token. Returns the flags it sets and its first
/// unacceptable character, if any.
fn scan_flag_token(t: &str) -> (r: (bool, bool, Option<char>))
    requires
        t@.len() > 0,
        t@[0] == '-',
    ensures
        r.0 == token_has_flag(t@, 'f'),
        r.1 == (token_has_flag(t@, 'r') || token_has_flag(t@, 'R')),
        r.2 == token_invalid_from(t@, 1),
{
    let n = t.unicode_len();
    let mut force = false;
    let mut recursive = false;
    let mut bad: Option<char> = None;
    let mut j: usize = 1;
    while j < n
        invariant
            1 <= j <= n,
            n == t@.len(),
            force == (exists|i: int| 1 <= i < j && t@[i] == 'f'),
            recursive == (exists|i: int|
                1 <= i < j && (t@[i] == 'r' || t@[i] == 'R')),
            bad is Some ==> token_invalid_from(t@, 1) == bad,
            bad is None ==> (forall|i: int| 1 <= i < j ==> valid_flag_char(#[trigger] t@[i]))
                && token_invalid_from(t@, j as int) == token_invalid_from(t@, 1),
        decreases n - j,
    {
        let c = t.get_char(j);
        if c == 'f' {
            force = true;
        } else if c == 'r' || c == 'R' {
            recursive = true;
        } else if bad.is_none() {
            bad = Some(c);
            proof {
                assert(token_invalid_from(t@, j as int) == Some(c));
            }
        }
        j = j + 1;
    }
    proof {
        if bad is None {
            assert(token_invalid_from(t@, n as int) is None);
        }
        if force {
            assert(token_has_flag(t@, 'f'));
        }
        if !force {
            assert(!token_has_flag(t@, 'f'));
        }
    }
    (force, recursive, bad)
}

/// Parses the arguments of `rm`. When `strict` is set, scanning stops at
/// the first unknown flag character and that character is reported instead
/// of options; otherwise unknown flag characters are ignored.
pub fn parse_rm_args(args: &Vec<String>, strict: bool) -> (r: Result<RemoveOptions, char>)
    ensures
        match r {
            Result::Err(c) => strict && rm_first_invalid(args.deep_view()) == Some(c),
            Result::Ok(opts) => {
                &&& !(strict && rm_first_invalid(args.deep_view()) is Some)
                &&& opts.force == rm_force(args.deep_view())
                &&& opts.recursive == rm_recursive(args.deep_view())
                &&& opts.targets.deep_view() == rm_targets(args.deep_view())
            },
        },
{
    let ghost dv = args.deep_view();
    let mut force = false;
    let mut recursive = false;
    let mut targets: Vec<String> = Vec::new();
    let mut i: usize = 0;
    proof {
        assert(dv.take(0) =~= Seq::<Seq<char>>::empty());
        assert(targets.deep_view() =~= rm_targets(dv.take(0)));
    }
    while i < args.len()
        invariant
            0 <= i <= args.len(),
            dv == args.deep_view(),
            dv.len() == args.len(),
            force == args_have_flag(dv.take(i as int), 'f'),
            recursive == (args_have_flag(dv.take(i as int), 'r') || args_have_flag(
                dv.take(i as int),
                'R',
            )),
            targets.deep_view() == rm_targets(dv.take(i as int)),
            strict ==> forall|k: int|
                0 <= k < i && flag_token(#[trigger] dv[k]) ==> token_invalid_from(dv[k], 1) is None,
        decreases args.len() - i,
    {
        proof {
            assert(dv[i as int] == args@[i as int]@);
            assert(dv.take(i as int + 1).drop_last() =~= dv.take(i as int));
            assert(dv.take(i as int + 1).last() == dv[i as int]);
        }
        let t = &args[i];
        let n = t.as_str().unicode_len();
        if n > 0 && t.as_str().get_char(0) == '-' {
            let (f, rcv, bad) = scan_flag_token(t.as_str());
            if strict {
                if let Some(c) = bad {
                    proof {
                        lemma_first_invalid_here(dv, i as int, c);
                    }
                    return Result::Err(c);
                }
            }
            if f {
                force = true;
            }
            if rcv {
                recursive = true;
            }
            proof {
                lemma_flag_step(dv, i as int, 'f');
                lemma_flag_step(dv, i as int, 'r');
                lemma_flag_step(dv, i as int, 'R');
            }
        } else {
            targets.push(t.clone());
            proof {
                lemma_flag_step(dv, i as int, 'f');
                lemma_flag_step(dv, i as int, 'r');
                lemma_flag_step(dv, i as int, 'R');
                assert(targets.deep_view() =~= rm_targets(dv.take(i as int + 1)));
            }
        }
        i = i + 1;
    }
    proof {
        assert(dv.take(args.len() as int) =~= dv);
        if strict {
            lemma_no_invalid(dv);
        }
    }
    Result::Ok(RemoveOptions { force, recursive, targets })
}

/// Extending the scanned prefix by one token extends the flag predicate
/// pointwise.
proof fn lemma_flag_step(args: Seq<Seq<char>>, i: int, c: char)
    requires
        0 <= i < args.len(),
    ensures
        args_have_flag(args.take(i + 1), c) == (args_have_flag(args.take(i), c) || (flag_token(
            args[i],
        ) && token_has_flag(args[i], c))),
{
    let pre = args.take(i);
    let cur = args.take(i + 1);
    assert(cur[i] == args[i]);
    assert(forall|k: int| 0 <= k < i ==> cur[k] == #[trigger] pre[k]);
    if args_have_flag(cur, c) {
        let w = choose|w: int|
            0 <= w < cur.len() && flag_token(#[trigger] cur[w]) && token_has_flag(cur[w], c);
        if w < i {
            assert(flag_token(pre[w]) && token_has_flag(pre[w], c));
            assert(args_have_flag(pre, c));
        }
    }
    if args_have_flag(pre, c) {
        let w = choose|w: int|
            0 <= w < pre.len() && flag_token(#[trigger] pre[w]) && token_has_flag(pre[w], c);
        assert(flag_token(cur[w]) && token_has_flag(cur[w], c));
    }
    if flag_token(args[i]) && token_has_flag(args[i], c) {
        assert(flag_token(cur[i]) && token_has_flag(cur[i], c));
    }
}

/// When every earlier flag token scans clean and token `i` holds the first
/// bad character, that character is the overall first invalid one.
proof fn lemma_first_invalid_here(args: Seq<Seq<char>>, i: int, c: char)
    requires
        0 <= i < args.len(),
        forall|k: int|
            0 <= k < i && flag_token(#[trigger] args[k]) ==> token_invalid_from(args[k], 1) is None,
        flag_token(args[i]),
        token_invalid_from(args[i], 1) == Some(c),
    ensures
        rm_first_invalid(args) == Some(c),
    decreases i,
{
    if i == 0 {
    } else {
        assert(forall|k: int| 0 <= k < i - 1 ==> args.drop_first()[k] == args[k + 1]);
        lemma_first_invalid_here(args.drop_first(), i - 1, c);
    }
}

/// When every flag token scans clean there is no first invalid character.
proof fn lemma_no_invalid(args: Seq<Seq<char>>)
    requires
        forall|k: int|
            0 <= k < args.len() && flag_token(#[trigger] args[k]) ==> token_invalid_from(
                args[k],
                1,
            ) is None,
    ensures
        rm_first_invalid(args) is None,
    decreases args.len(),
{
    if args.len() > 0 {
        assert(forall|k: int|
            0 <= k < args.len() - 1 ==> args.drop_first()[k] == args[k + 1]);
        lemma_no_invalid(args.drop_first());
    }
}

} // verus!
