//! The shell session: state, command dispatch, and the event loop contract.

use vstd::prelude::*;
use crate::complete::{build_candidates, candidates_spec};
use crate::order::lex_leq;
use crate::lsfmt::{ls_lines, spec_ls_lines};
use crate::msgs;
use crate::path::{dir_name_of, ends_with_tab, resolve, spec_dir_name, spec_dir_part,
    spec_resolve, split_partial};
use crate::proto::{Action, CdDecision, DirectoryTrackingMode, Event, PathKind, RmDecision,
    RmdirDecision, cd_decide, cd_decision, mkdir_rejected, mkdir_rejects, rm_decide, rm_decision,
    rmdir_decide, rmdir_decision};
use crate::rmopts::{parse_rm_args, rm_first_invalid, rm_force, rm_recursive, rm_targets};
use crate::text::{tokenize, tokens};

verus! {

/// The most output lines a buffering front end keeps.
pub const OUTPUT_LIMIT: usize = 1000;

/// The output bound of the buffering front end: when the session owns its
/// directory (the windowed front end), only the last [`OUTPUT_LIMIT`] lines
/// are kept; the OS-managed front end streams and is unbounded.
pub open spec fn bounded_out(owned: bool, full: Seq<Seq<char>>) -> Seq<Seq<char>> {
    if owned && full.len() > OUTPUT_LIMIT {
        full.skip(full.len() - OUTPUT_LIMIT)
    } else {
        full
    }
}

/// The output after a step: the stated lines, with the buffering front
/// end's bound applied.
pub open spec fn out_is(pre: TerminalApp, post: TerminalApp, full: Seq<Seq<char>>) -> bool {
    post.out() == bounded_out(pre.owned_mode(), full)
}

/// What the session is waiting on from the front end, if anything.
pub enum Pending {
    /// No command is in flight.
    Idle,
    /// `cd` asked what its resolved path names.
    CdStat { raw: String, resolved: String },
    /// `cd` asked for the canonical form of its target.
    CdCanon { raw: String },
    /// `cd` asked the operating system to change the working directory.
    CdSet { raw: String },
    /// `cd` with a completion trigger asked for the directory listing.
    CdComplete { partial: String },
    /// `ls` asked for a directory listing. `shown` is the name error
    /// messages quote.
    Ls { shown: String },
    /// `mkdir` is working through its targets.
    Mkdir { targets: Vec<String>, idx: usize, waiting_op: bool },
    /// `rmdir` is working through its targets.
    Rmdir { targets: Vec<String>, idx: usize, waiting_op: bool },
    /// `rm` is working through its targets.
    Rm { force: bool, recursive: bool, targets: Vec<String>, idx: usize, waiting_op: bool },
    /// `pwd` asked the operating system for the working directory.
    PwdQuery,
    /// An external command is running.
    Extern { program: String },
}

/// The shell session: current directory, history, buffered output, and the
/// state of the command in flight.
pub struct TerminalApp {
    /// The text in the input field, as history navigation sets it.
    pub input: String,
    /// The buffered output lines.
    pub output: Vec<String>,
    /// The current directory. Authoritative in owned mode; the last answer
    /// the operating system gave in OS-managed mode.
    pub current_dir: String,
    /// Every non-empty line entered, in order.
    pub command_history: Vec<String>,
    /// The history navigation cursor, `0..=len`.
    pub history_index: usize,
    /// Whether the output view follows the newest line.
    pub auto_scroll: bool,
    /// Where `cd` with no argument goes.
    pub home_dir: String,
    /// How the current directory is tracked.
    pub mode: DirectoryTrackingMode,
    /// What the front end owes an event for.
    pub pending: Pending,
}

impl TerminalApp {
    /// The output lines as mathematical text.
    pub open spec fn out(self) -> Seq<Seq<char>> {
        self.output.deep_view()
    }

    /// The history as mathematical text.
    pub open spec fn hist(self) -> Seq<Seq<char>> {
        self.command_history.deep_view()
    }

    /// The session invariant: the history cursor stays in range and a
    /// command in flight points at a real target.
    pub open spec fn wf(self) -> bool {
        &&& self.history_index <= self.command_history.len()
        &&& match self.pending {
            Pending::Mkdir { targets, idx, .. } => idx < targets.len(),
            Pending::Rmdir { targets, idx, .. } => idx < targets.len(),
            Pending::Rm { targets, idx, .. } => idx < targets.len(),
            _ => true,
        }
    }

    /// Whether the session owns its current directory.
    pub open spec fn owned_mode(self) -> bool {
        self.mode is OwnedCanonicalized
    }

    /// Where a target path of a command resolves to before it is handed to
    /// the front end: against the owned current directory, or left to the
    /// operating system's working directory.
    pub open spec fn spec_target(self, raw: Seq<char>) -> Seq<char> {
        if self.owned_mode() {
            spec_resolve(raw, self.current_dir@)
        } else {
            raw
        }
    }

    /// Creates a session. The front end supplies the starting directory and
    /// the home directory, the two values only it can know.
    pub fn new(current_dir: String, home_dir: String, mode: DirectoryTrackingMode) -> (r:
        TerminalApp)
        ensures
            r.wf(),
            r.current_dir == current_dir,
            r.home_dir == home_dir,
            r.mode == mode,
            r.input@ == Seq::<char>::empty(),
            r.hist() == Seq::<Seq<char>>::empty(),
            r.history_index == 0,
            r.pending is Idle,
            r.out() == if mode is OwnedCanonicalized {
                msgs::startup_banner()
            } else {
                Seq::<Seq<char>>::empty()
            },
            r.auto_scroll,
    {
        let output: Vec<String> = match mode {
            DirectoryTrackingMode::OwnedCanonicalized => msgs::startup_banner_lines(),
            DirectoryTrackingMode::OsManaged => Vec::new(),
        };
        proof {
            if !(mode is OwnedCanonicalized) {
                assert(output.deep_view() =~= Seq::<Seq<char>>::empty());
            }
        }
        TerminalApp {
            input: String::new(),
            output,
            current_dir,
            command_history: Vec::new(),
            history_index: 0,
            auto_scroll: true,
            home_dir,
            mode,
            pending: Pending::Idle,
        }
    }

    /// The name the prompt shows for the current directory.
    pub fn get_dir_name(&self) -> (r: String)
        ensures
            r@ == spec_dir_name(self.current_dir@),
    {
        dir_name_of(self.current_dir.as_str())
    }

    /// Appends the usage summary to the output.
    pub fn show_help(&mut self)
        ensures
            final(self).out() == bounded_out(
                old(self).owned_mode(),
                old(self).out() + msgs::help_text(),
            ),
            unchanged_but_output(*old(self), *final(self)),
            final(self).pending == old(self).pending,
            final(self).wf() == old(self).wf(),
            old(self).owned_mode() ==> final(self).out().len() <= OUTPUT_LIMIT,
    {
        let lines = msgs::help_text_lines();
        extend_output(&mut self.output, lines);
        self.apply_output_bound();
    }

    /// Moves the history cursor one entry back and shows that entry; at the
    /// oldest entry nothing changes.
    pub fn history_up(&mut self)
        requires
            old(self).wf(),
        ensures
            final(self).wf(),
            final(self).history_index == hist_up_index(old(self).history_index as int),
            old(self).history_index > 0 ==> final(self).input@ == hist_shown(
                old(self).hist(),
                final(self).history_index as int,
            ),
            old(self).history_index == 0 ==> final(self).input == old(self).input,
            final(self).output == old(self).output,
            final(self).command_history == old(self).command_history,
            final(self).current_dir == old(self).current_dir,
            final(self).pending == old(self).pending,
            final(self).home_dir == old(self).home_dir,
            final(self).mode == old(self).mode,
            final(self).auto_scroll == old(self).auto_scroll,
    {
        if self.history_index > 0 {
            self.history_index = self.history_index - 1;
            self.input = self.command_history[self.history_index].clone();
            proof {
                assert(self.command_history@[self.history_index as int]@ == self.hist()[self.history_index as int]);
            }
        }
    }

    /// Moves the history cursor one entry forward; past the newest entry
    /// the input empties, and at the end nothing changes.
    pub fn history_down(&mut self)
        requires
            old(self).wf(),
        ensures
            final(self).wf(),
            final(self).history_index == hist_down_index(
                old(self).history_index as int,
                old(self).hist().len() as int,
            ),
            old(self).history_index < old(self).hist().len() ==> final(self).input@ == hist_shown(
                old(self).hist(),
                final(self).history_index as int,
            ),
            old(self).history_index >= old(self).hist().len() ==> final(self).input == old(
                self,
            ).input,
            final(self).output == old(self).output,
            final(self).command_history == old(self).command_history,
            final(self).current_dir == old(self).current_dir,
            final(self).pending == old(self).pending,
            final(self).home_dir == old(self).home_dir,
            final(self).mode == old(self).mode,
            final(self).auto_scroll == old(self).auto_scroll,
    {
        if self.history_index < self.command_history.len() {
            self.history_index = self.history_index + 1;
            if self.history_index == self.command_history.len() {
                self.input = String::new();
            } else {
                self.input = self.command_history[self.history_index].clone();
                proof {
                    assert(self.command_history@[self.history_index as int]@ == self.hist()[self.history_index as int]);
                }
            }
        }
    }

    /// Drops the oldest output lines until at most `keep` remain.
    pub fn trim_output(&mut self, keep: usize)
        ensures
            final(self).out() == if old(self).out().len() <= keep {
                old(self).out()
            } else {
                old(self).out().skip(old(self).out().len() - keep)
            },
            unchanged_but_output(*old(self), *final(self)),
            final(self).pending == old(self).pending,
            final(self).wf() == old(self).wf(),
    {
        let ghost dv0 = self.out();
        proof {
            assert(dv0.skip(0) =~= dv0);
            assert(self.out() == dv0.skip(0) && self.out().len() == dv0.len() - 0);
        }
        while self.output.len() > keep
            invariant
                dv0.len() <= keep ==> self.out() == dv0,
                dv0.len() > keep ==> exists|d: int|
                    0 <= d <= dv0.len() - keep && self.out() == #[trigger] dv0.skip(d)
                        && self.out().len() == dv0.len() - d,
                unchanged_but_output(*old(self), *self),
                self.pending == old(self).pending,
                self.command_history == old(self).command_history,
                self.history_index == old(self).history_index,
            decreases self.output.len(),
    {
            proof {
                let d = choose|d: int|
                    0 <= d <= dv0.len() - keep && self.out() == #[trigger] dv0.skip(d)
                        && self.out().len() == dv0.len() - d;
                assert(dv0.skip(d).remove(0) =~= dv0.skip(d + 1));
            }
            let ghost pre = self.out();
            self.output.remove(0);
            proof {
                assert(self.out() =~= pre.remove(0));
            }
        }
        proof {
            if dv0.len() > keep {
                let d = choose|d: int|
                    0 <= d <= dv0.len() - keep && self.out() == #[trigger] dv0.skip(d)
                        && self.out().len() == dv0.len() - d;
                assert(d == dv0.len() - keep);
            }
        }
    }

    /// Enforces the output bound of the buffering front end: in owned mode
    /// everything but the last [`OUTPUT_LIMIT`] lines is dropped.
    fn apply_output_bound(&mut self)
        ensures
            final(self).out() == bounded_out(old(self).owned_mode(), old(self).out()),
            unchanged_but_output(*old(self), *final(self)),
            final(self).pending == old(self).pending,
            final(self).owned_mode() ==> final(self).out().len() <= OUTPUT_LIMIT,
    {
        match self.mode {
            DirectoryTrackingMode::OwnedCanonicalized => {
                self.trim_output(OUTPUT_LIMIT);
            },
            DirectoryTrackingMode::OsManaged => {},
        }
    }

    /// Where a target path resolves before it is handed to the front end.
    pub fn resolve_target(&self, raw: &str) -> (r: String)
        ensures
            r@ == self.spec_target(raw@),
    {
        match self.mode {
            DirectoryTrackingMode::OwnedCanonicalized => resolve(raw, self.current_dir.as_str()),
            DirectoryTrackingMode::OsManaged => raw.to_owned(),
        }
    }

    /// Starts a plain directory change to `raw`.
    fn start_cd(&mut self, raw: String) -> (a: Action)
        requires
            old(self).wf(),
        ensures
            final(self).wf(),
            cd_plain_pending(*old(self), raw@, *final(self), a),
            final(self).output == old(self).output,
            final(self).current_dir == old(self).current_dir,
            final(self).command_history == old(self).command_history,
            final(self).history_index == old(self).history_index,
            fixed_fields(*old(self), *final(self)),
    {
        match self.mode {
            DirectoryTrackingMode::OwnedCanonicalized => {
                let resolved = resolve(raw.as_str(), self.current_dir.as_str());
                let path = resolved.clone();
                self.pending = Pending::CdStat { raw, resolved };
                Action::Stat { path }
            },
            DirectoryTrackingMode::OsManaged => {
                let path = raw.clone();
                self.pending = Pending::CdSet { raw };
                Action::SetCwd { path }
            },
        }
    }

    /// Processes one entered line: records it in the history, echoes the
    /// prompt when this front end buffers one, and dispatches on the first
    /// token. The returned action is what the front end must do next.
    pub fn execute_command(&mut self, command: String) -> (a: Action)
        requires
            old(self).wf(),
            old(self).pending is Idle,
        ensures
            final(self).wf(),
            after_history(*old(self), command@, *final(self)),
            fixed_fields(*old(self), *final(self)),
            final(self).current_dir == old(self).current_dir,
            dispatch_rel(*old(self), command@, *final(self), a),
            old(self).owned_mode() ==> final(self).out().len() <= OUTPUT_LIMIT,
    {
        let ghost pre = *self;
        if command.as_str().unicode_len() > 0 {
            self.command_history.push(command.clone());
            self.history_index = self.command_history.len();
            proof {
                assert(self.hist() =~= pre.hist().push(command@));
            }
        }
        let is_owned = match self.mode {
            DirectoryTrackingMode::OwnedCanonicalized => true,
            DirectoryTrackingMode::OsManaged => false,
        };
        if is_owned {
            let echo = msgs::prompt_line(self.current_dir.as_str(), command.as_str());
            self.output.push(echo);
        }
        proof {
            assert(self.out() =~= base_out(pre, command@));
        }
        let ghost base = base_out(pre, command@);
        let toks = tokenize(command.as_str());
        let a: Action = if toks.len() == 0 {
            Action::Done
        } else {
        let ghost args_spec = tokens(command@).drop_first();
        let head = toks[0].clone();
        proof {
            assert(head@ == tokens(command@)[0]);
        }
        if str_eq(head.as_str(), "exit") || str_eq(head.as_str(), "quit") {
            if is_owned {
                self.output.push(msgs::exit_hint_line());
                proof {
                    assert(self.out() =~= base.push(msgs::exit_hint()));
                }
                Action::Done
            } else {
                Action::Exit
            }
        } else if str_eq(head.as_str(), "pwd") {
            if is_owned {
                let line = self.current_dir.clone();
                self.output.push(line);
                proof {
                    assert(self.out() =~= base.push(pre.current_dir@));
                }
                Action::Done
            } else {
                self.pending = Pending::PwdQuery;
                Action::QueryCwd
            }
        } else if str_eq(head.as_str(), "clear") {
            if is_owned {
                self.output.clear();
                self.output.push(msgs::cleared_banner_line());
                proof {
                    assert(self.out() =~= seq![msgs::cleared_banner()]);
                }
                Action::Done
            } else {
                Action::ClearScreen
            }
        } else if str_eq(head.as_str(), "help") {
            let lines = msgs::help_text_lines();
            extend_output(&mut self.output, lines);
            Action::Done
        } else if str_eq(head.as_str(), "cd") {
            let args = tail_args(&toks, 1);
            proof {
                assert(args.deep_view() == args_spec);
            }
            if args.len() == 0 {
                let raw = self.home_dir.clone();
                self.start_cd(raw)
            } else if ends_with_tab(command.as_str()) {
                proof {
                    assert(args@[0]@ == args_spec[0]);
                }
                let partial = args[0].clone();
                let (dir_part, _prefix) = split_partial(partial.as_str());
                let listed = self.resolve_target(dir_part.as_str());
                self.pending = Pending::CdComplete { partial };
                Action::ReadDir { path: listed }
            } else {
                proof {
                    assert(args@[0]@ == args_spec[0]);
                }
                let raw = args[0].clone();
                self.start_cd(raw)
            }
        } else if str_eq(head.as_str(), "ls") {
            let args = tail_args(&toks, 1);
            proof {
                assert(args.deep_view() == args_spec);
            }
            let (shown, target) = if args.len() == 0 {
                if is_owned {
                    (self.current_dir.clone(), self.current_dir.clone())
                } else {
                    (".".to_owned(), ".".to_owned())
                }
            } else {
                proof {
                    assert(args@[0]@ == args_spec[0]);
                }
                let t = self.resolve_target(args[0].as_str());
                (args[0].clone(), t)
            };
            self.pending = Pending::Ls { shown };
            Action::ReadDir { path: target }
        } else if str_eq(head.as_str(), "mkdir") {
            let args = tail_args(&toks, 1);
            proof {
                assert(args.deep_view() == args_spec);
            }
            if args.len() == 0 {
                self.output.push(msgs::missing_operand_line("mkdir"));
                proof {
                    assert(self.out() =~= base.push(msgs::msg_missing_operand("mkdir"@)));
                }
                Action::Done
            } else {
                proof {
                    assert(args@[0]@ == args_spec[0]);
                }
                let target0 = self.resolve_target(args[0].as_str());
                self.pending = Pending::Mkdir { targets: args, idx: 0, waiting_op: false };
                Action::Stat { path: target0 }
            }
        } else if str_eq(head.as_str(), "rmdir") {
            let args = tail_args(&toks, 1);
            proof {
                assert(args.deep_view() == args_spec);
            }
            if args.len() == 0 {
                self.output.push(msgs::missing_operand_line("rmdir"));
                proof {
                    assert(self.out() =~= base.push(msgs::msg_missing_operand("rmdir"@)));
                }
                Action::Done
            } else {
                proof {
                    assert(args@[0]@ == args_spec[0]);
                }
                let target0 = self.resolve_target(args[0].as_str());
                self.pending = Pending::Rmdir { targets: args, idx: 0, waiting_op: false };
                Action::Stat { path: target0 }
            }
        } else if str_eq(head.as_str(), "rm") {
            let args = tail_args(&toks, 1);
            proof {
                assert(args.deep_view() == args_spec);
            }
            if args.len() == 0 {
                self.output.push(msgs::missing_operand_line("rm"));
                proof {
                    assert(self.out() =~= base.push(msgs::msg_missing_operand("rm"@)));
                }
                Action::Done
            } else {
            match parse_rm_args(&args, !is_owned) {
                Result::Err(c) => {
                    self.output.push(msgs::rm_invalid_option_line(c));
                    proof {
                        assert(self.out() =~= base.push(msgs::msg_rm_invalid_option(c)));
                    }
                    Action::Done
                },
                Result::Ok(opts) => {
                    if opts.targets.len() == 0 {
                        self.output.push(msgs::missing_operand_line("rm"));
                        proof {
                            assert(self.out() =~= base.push(msgs::msg_missing_operand("rm"@)));
                        }
                        Action::Done
                    } else {
                        proof {
                            assert(opts.targets@[0]@ == rm_targets(args_spec)[0]);
                        }
                        let target0 = self.resolve_target(opts.targets[0].as_str());
                        self.pending = Pending::Rm {
                            force: opts.force,
                            recursive: opts.recursive,
                            targets: opts.targets,
                            idx: 0,
                            waiting_op: false,
                        };
                        Action::Stat { path: target0 }
                    }
                },
            }
            }
        } else {
            let args = tail_args(&toks, 1);
            proof {
                assert(args.deep_view() == args_spec);
            }
            let program = head.clone();
            self.pending = Pending::Extern { program: head };
            if is_owned {
                Action::Run { program, args }
            } else {
                Action::RunInteractive { program, args }
            }
        }
        };
        self.apply_output_bound();
        a
    }
}

/// Whether two strings hold the same characters.
fn str_eq(a: &str, b: &str) -> (r: bool)
    ensures
        r == (a@ == b@),
{
    let na = a.unicode_len();
    let nb = b.unicode_len();
    if na != nb {
        return false;
    }
    let mut i: usize = 0;
    while i < na
        invariant
            0 <= i <= na,
            na == a@.len(),
            na == b@.len(),
            forall|k: int| 0 <= k < i ==> a@[k] == b@[k],
        decreases na - i,
    {
        if a.get_char(i) != b.get_char(i) {
            return false;
        }
        i = i + 1;
    }
    proof {
        assert(a@ =~= b@);
    }
    true
}

/// The tokens from position `from` on, as a vector of their own.
fn tail_args(toks: &Vec<String>, from: usize) -> (r: Vec<String>)
    requires
        from <= toks.len(),
    ensures
        r.deep_view() == toks.deep_view().skip(from as int),
{
    let ghost dv = toks.deep_view();
    let mut r: Vec<String> = Vec::new();
    let mut i: usize = from;
    proof {
        assert(r.deep_view() =~= dv.subrange(from as int, from as int));
    }
    while i < toks.len()
        invariant
            from <= i <= toks.len(),
            dv == toks.deep_view(),
            dv.len() == toks.len(),
            r.deep_view() == dv.subrange(from as int, i as int),
        decreases toks.len() - i,
    {
        let s = toks[i].clone();
        proof {
            assert(toks@[i as int]@ == dv[i as int]);
        }
        let ghost sv = s@;
        let ghost r0 = r.deep_view();
        let ghost rv0 = r@;
        r.push(s);
        proof {
            let rnew = r.deep_view();
            let tgt = dv.subrange(from as int, i as int + 1);
            assert(sv == dv[i as int]);
            assert(r@.last()@ == sv);
            assert(rnew.len() == r@.len());
            assert(r@.len() == rv0.len() + 1);
            assert(r0 == dv.subrange(from as int, i as int));
            assert(r0.len() == i - from);
            assert(rv0.len() == r0.len());
            assert(rv0.len() == i - from);
            assert(tgt.len() == i + 1 - from);
            assert forall|k: int| 0 <= k < rnew.len() implies rnew[k] == tgt[k] by {
                assert(rnew[k] == r@[k]@);
                assert(tgt[k] == dv[from + k]);
                if k < rnew.len() - 1 {
                    assert(r@[k] == rv0[k]);
                    assert(rv0[k]@ == r0[k]);
                    assert(r0[k] == dv.subrange(from as int, i as int)[k]);
                    assert(rnew[k] == r0[k]);
                } else {
                    assert(rnew[k] == sv);
                }
            }
            assert(rnew =~= tgt);
        }
        i = i + 1;
    }
    proof {
        assert(dv.subrange(from as int, dv.len() as int) =~= dv.skip(from as int));
    }
    r
}

/// Everything but the output and the pending state is the same.
pub open spec fn unchanged_but_output(pre: TerminalApp, post: TerminalApp) -> bool {
    &&& post.current_dir == pre.current_dir
    &&& post.command_history == pre.command_history
    &&& post.history_index == pre.history_index
    &&& post.input == pre.input
    &&& post.home_dir == pre.home_dir
    &&& post.mode == pre.mode
    &&& post.auto_scroll == pre.auto_scroll
}

/// Where one press of "up" moves the history cursor.
pub open spec fn hist_up_index(idx: int) -> int {
    if idx > 0 {
        idx - 1
    } else {
        idx
    }
}

/// Where one press of "down" moves the history cursor.
pub open spec fn hist_down_index(idx: int, len: int) -> int {
    if idx < len {
        idx + 1
    } else {
        idx
    }
}

/// What the input field shows at cursor position `idx`: the entry there, or
/// an empty line one past the newest entry.
pub open spec fn hist_shown(hist: Seq<Seq<char>>, idx: int) -> Seq<char> {
    if 0 <= idx < hist.len() {
        hist[idx]
    } else {
        Seq::empty()
    }
}

/// History navigation: after entering three commands in order, one "up"
/// press shows the third, a second press the second; one "down" press from
/// the newest entry shows an empty input line.
pub proof fn lemma_history_navigation(a: Seq<char>, b: Seq<char>, c: Seq<char>)
    ensures
        hist_up_index(3) == 2 && hist_shown(seq![a, b, c], 2) == c,
        hist_up_index(2) == 1 && hist_shown(seq![a, b, c], 1) == b,
        hist_down_index(2, 3) == 3 && hist_shown(seq![a, b, c], 3) == Seq::<char>::empty(),
{
}

/// Appends every line of `lines` to `output`.
fn extend_output(output: &mut Vec<String>, lines: Vec<String>)
    ensures
        final(output).deep_view() == old(output).deep_view() + lines.deep_view(),
{
    let ghost l0 = lines.deep_view();
    let ghost o0 = output.deep_view();
    let n = lines.len();
    let mut i: usize = 0;
    proof {
        assert(o0 + l0.take(0) =~= o0);
    }
    let mut lines = lines;
    while i < n
        invariant
            0 <= i <= n,
            lines.deep_view() == l0,
            l0.len() == n,
            lines.len() == n,
            output.deep_view() == o0 + l0.take(i as int),
        decreases n - i,
    {
        let s = lines[i].clone();
        proof {
            assert(lines@[i as int]@ == l0[i as int]);
        }
        output.push(s);
        proof {
            assert(o0 + l0.take(i as int) + seq![l0[i as int]] =~= o0 + l0.take(i as int + 1));
            assert(output.deep_view() =~= o0 + l0.take(i as int + 1));
        }
        i = i + 1;
    }
    proof {
        assert(o0 + l0.take(n as int) =~= o0 + l0);
    }
}


/// The output already holding the echoed prompt line, when this front end
/// echoes one.
pub open spec fn base_out(pre: TerminalApp, cmd: Seq<char>) -> Seq<Seq<char>> {
    if pre.owned_mode() {
        pre.out().push(msgs::msg_prompt(pre.current_dir@, cmd))
    } else {
        pre.out()
    }
}

/// A non-empty line is appended to the history and the cursor returns to
/// the end.
pub open spec fn after_history(pre: TerminalApp, cmd: Seq<char>, post: TerminalApp) -> bool {
    &&& post.hist() == if cmd.len() > 0 {
        pre.hist().push(cmd)
    } else {
        pre.hist()
    }
    &&& if cmd.len() > 0 {
        post.history_index == post.command_history.len()
    } else {
        post.history_index == pre.history_index
    }
}

/// The fields no command step touches.
pub open spec fn fixed_fields(pre: TerminalApp, post: TerminalApp) -> bool {
    &&& post.home_dir == pre.home_dir
    &&& post.mode == pre.mode
    &&& post.auto_scroll == pre.auto_scroll
    &&& post.input == pre.input
}

/// Starting a plain `cd` to `raw`: the owned front end first asks what the
/// resolved path names; the OS-managed one hands the path straight to the
/// operating system.
pub open spec fn cd_plain_rel(
    pre: TerminalApp,
    base: Seq<Seq<char>>,
    raw: Seq<char>,
    post: TerminalApp,
    a: Action,
) -> bool {
    &&& out_is(pre, post, base)
    &&& cd_plain_pending(pre, raw, post, a)
}

/// The pending state and action a plain `cd` sets up, apart from output.
pub open spec fn cd_plain_pending(pre: TerminalApp, raw: Seq<char>, post: TerminalApp, a: Action) -> bool {
    if pre.owned_mode() {
        &&& post.pending matches Pending::CdStat { raw: r0, resolved } && r0@ == raw
            && resolved@ == spec_resolve(raw, pre.current_dir@)
        &&& a matches Action::Stat { path } && path@ == spec_resolve(raw, pre.current_dir@)
    } else {
        &&& post.pending matches Pending::CdSet { raw: r0 } && r0@ == raw
        &&& a matches Action::SetCwd { path } && path@ == raw
    }
}

/// Starting `cd`: no argument goes home; a line ending in a literal tab,
/// the simulated completion trigger, asks for the listing of the argument's
/// directory part to complete against; anything else is a plain change.
pub open spec fn cd_start_rel(
    pre: TerminalApp,
    base: Seq<Seq<char>>,
    args: Seq<Seq<char>>,
    tab_trigger: bool,
    post: TerminalApp,
    a: Action,
) -> bool {
    if args.len() > 0 && tab_trigger {
        let partial = args[0];
        &&& out_is(pre, post, base)
        &&& post.pending matches Pending::CdComplete { partial: p } && p@ == partial
        &&& a matches Action::ReadDir { path } && path@ == pre.spec_target(
            spec_dir_part(partial),
        )
    } else {
        let raw = if args.len() == 0 {
            pre.home_dir@
        } else {
            args[0]
        };
        cd_plain_rel(pre, base, raw, post, a)
    }
}

/// Starting `ls`: the target defaults to the current directory, error
/// messages quote the name as given.
pub open spec fn ls_start_rel(
    pre: TerminalApp,
    base: Seq<Seq<char>>,
    args: Seq<Seq<char>>,
    post: TerminalApp,
    a: Action,
) -> bool {
    let shown = if args.len() == 0 {
        if pre.owned_mode() {
            pre.current_dir@
        } else {
            "."@
        }
    } else {
        args[0]
    };
    let target = if args.len() == 0 {
        shown
    } else {
        pre.spec_target(args[0])
    };
    &&& out_is(pre, post, base)
    &&& post.pending matches Pending::Ls { shown: s } && s@ == shown
    &&& a matches Action::ReadDir { path } && path@ == target
}

/// Starting `mkdir`: without operands it complains, otherwise it asks about
/// its first target.
pub open spec fn mkdir_start_rel(
    pre: TerminalApp,
    base: Seq<Seq<char>>,
    args: Seq<Seq<char>>,
    post: TerminalApp,
    a: Action,
) -> bool {
    if args.len() == 0 {
        &&& out_is(pre, post, base.push(msgs::msg_missing_operand("mkdir"@)))
        &&& post.pending is Idle
        &&& a is Done
    } else {
        &&& out_is(pre, post, base)
        &&& post.pending matches Pending::Mkdir { targets, idx, waiting_op }
            && targets.deep_view() == args && idx == 0 && !waiting_op
        &&& a matches Action::Stat { path } && path@ == pre.spec_target(args[0])
    }
}

/// Starting `rmdir`, in the same shape as `mkdir`.
pub open spec fn rmdir_start_rel(
    pre: TerminalApp,
    base: Seq<Seq<char>>,
    args: Seq<Seq<char>>,
    post: TerminalApp,
    a: Action,
) -> bool {
    if args.len() == 0 {
        &&& out_is(pre, post, base.push(msgs::msg_missing_operand("rmdir"@)))
        &&& post.pending is Idle
        &&& a is Done
    } else {
        &&& out_is(pre, post, base)
        &&& post.pending matches Pending::Rmdir { targets, idx, waiting_op }
            && targets.deep_view() == args && idx == 0 && !waiting_op
        &&& a matches Action::Stat { path } && path@ == pre.spec_target(args[0])
    }
}

/// Starting `rm`: options are parsed first; the strict front end aborts the
/// whole invocation on an unknown flag character before anything is
/// touched; then the first target is asked about.
pub open spec fn rm_start_rel(
    pre: TerminalApp,
    base: Seq<Seq<char>>,
    args: Seq<Seq<char>>,
    post: TerminalApp,
    a: Action,
) -> bool {
    if args.len() == 0 {
        &&& out_is(pre, post, base.push(msgs::msg_missing_operand("rm"@)))
        &&& post.pending is Idle
        &&& a is Done
    } else if !pre.owned_mode() && rm_first_invalid(args) is Some {
        &&& rm_first_invalid(args) matches Some(c) && out_is(
            pre,
            post,
            base.push(msgs::msg_rm_invalid_option(c)),
        )
        &&& post.pending is Idle
        &&& a is Done
    } else if rm_targets(args).len() == 0 {
        &&& out_is(pre, post, base.push(msgs::msg_missing_operand("rm"@)))
        &&& post.pending is Idle
        &&& a is Done
    } else {
        &&& out_is(pre, post, base)
        &&& post.pending matches Pending::Rm { force, recursive, targets, idx, waiting_op }
            && force == rm_force(args) && recursive == rm_recursive(args)
            && targets.deep_view() == rm_targets(args) && idx == 0 && !waiting_op
        &&& a matches Action::Stat { path } && path@ == pre.spec_target(rm_targets(args)[0])
    }
}

/// Starting an external command: the whole token list is handed to the
/// process loader, captured or interactive by mode.
pub open spec fn extern_start_rel(
    pre: TerminalApp,
    base: Seq<Seq<char>>,
    head: Seq<char>,
    args: Seq<Seq<char>>,
    post: TerminalApp,
    a: Action,
) -> bool {
    &&& out_is(pre, post, base)
    &&& post.pending matches Pending::Extern { program } && program@ == head
    &&& if pre.owned_mode() {
        a matches Action::Run { program, args: rargs } && program@ == head
            && rargs.deep_view() == args
    } else {
        a matches Action::RunInteractive { program, args: rargs } && program@ == head
            && rargs.deep_view() == args
    }
}

/// What one entered line does to the session, before any event comes back:
/// the dispatch contract of [`TerminalApp::execute_command`].
pub open spec fn dispatch_rel(pre: TerminalApp, cmd: Seq<char>, post: TerminalApp, a: Action) -> bool {
    let toks = tokens(cmd);
    let base = base_out(pre, cmd);
    if toks.len() == 0 {
        &&& out_is(pre, post, base)
        &&& post.pending is Idle
        &&& a is Done
    } else {
        let head = toks[0];
        let args = toks.drop_first();
        if head == "exit"@ || head == "quit"@ {
            if pre.owned_mode() {
                out_is(pre, post, base.push(msgs::exit_hint())) && post.pending is Idle && a is Done
            } else {
                out_is(pre, post, base) && post.pending is Idle && a is Exit
            }
        } else if head == "pwd"@ {
            if pre.owned_mode() {
                out_is(pre, post, base.push(pre.current_dir@)) && post.pending is Idle && a is Done
            } else {
                out_is(pre, post, base) && post.pending is PwdQuery && a is QueryCwd
            }
        } else if head == "clear"@ {
            if pre.owned_mode() {
                out_is(pre, post, seq![msgs::cleared_banner()]) && post.pending is Idle && a is Done
            } else {
                out_is(pre, post, base) && post.pending is Idle && a is ClearScreen
            }
        } else if head == "help"@ {
            out_is(pre, post, base + msgs::help_text()) && post.pending is Idle && a is Done
        } else if head == "cd"@ {
            cd_start_rel(pre, base, args, cmd.len() > 0 && cmd.last() == '\t', post, a)
        } else if head == "ls"@ {
            ls_start_rel(pre, base, args, post, a)
        } else if head == "mkdir"@ {
            mkdir_start_rel(pre, base, args, post, a)
        } else if head == "rmdir"@ {
            rmdir_start_rel(pre, base, args, post, a)
        } else if head == "rm"@ {
            rm_start_rel(pre, base, args, post, a)
        } else {
            extern_start_rel(pre, base, head, args, post, a)
        }
    }
}


/// The completion listing lines, one per candidate, indented.
pub open spec fn completion_items(cands: Seq<Seq<char>>) -> Seq<Seq<char>>
    decreases cands.len(),
{
    if cands.len() == 0 {
        Seq::empty()
    } else {
        completion_items(cands.drop_last()).push(msgs::msg_completion_item(cands.last()))
    }
}

/// Captured standard-error lines, each behind the error marker.
pub open spec fn stderr_marked(lines: Seq<Seq<char>>) -> Seq<Seq<char>>
    decreases lines.len(),
{
    if lines.len() == 0 {
        Seq::empty()
    } else {
        stderr_marked(lines.drop_last()).push(msgs::msg_stderr(lines.last()))
    }
}

/// Which events answer which pending state.
pub open spec fn event_fits(p: Pending, ev: Event) -> bool {
    match p {
        Pending::Idle => false,
        Pending::CdStat { .. } => ev is Kind,
        Pending::CdCanon { .. } => ev is CanonicalOk || ev is CanonicalErr,
        Pending::CdSet { .. } => ev is CwdOk || ev is CwdErr,
        Pending::CdComplete { .. } => ev is Entries || ev is DirError,
        Pending::Ls { .. } => ev is Entries || ev is DirError,
        Pending::Mkdir { waiting_op, .. } => if waiting_op {
            ev is OpOk || ev is OpErr
        } else {
            ev is Kind
        },
        Pending::Rmdir { waiting_op, .. } => if waiting_op {
            ev is OpOk || ev is OpErr
        } else {
            ev is Kind
        },
        Pending::Rm { waiting_op, .. } => if waiting_op {
            ev is OpOk || ev is OpErr
        } else {
            ev is Kind
        },
        Pending::PwdQuery => ev is CwdOk || ev is CwdErr,
        Pending::Extern { .. } => ev is RunOut || ev is RunExit || ev is RunErr,
    }
}

/// `cd` learns what its resolved path names. A directory moves on to
/// canonicalization; an existing non-directory and a missing path fail with
/// their own messages, and the current directory stays as it was.
pub open spec fn cd_stat_rel(
    pre: TerminalApp,
    raw: Seq<char>,
    resolved: Seq<char>,
    kind: PathKind,
    post: TerminalApp,
    a: Action,
) -> bool {
    match cd_decision(kind) {
        CdDecision::Proceed => {
            &&& out_is(pre, post, pre.out())
            &&& post.current_dir == pre.current_dir
            &&& post.pending matches Pending::CdCanon { raw: r0 } && r0@ == raw
            &&& a matches Action::Canonicalize { path } && path@ == resolved
        },
        CdDecision::ReportNotADirectory => {
            &&& out_is(pre, post, pre.out().push(msgs::msg_cd_not_dir(raw)))
            &&& post.current_dir == pre.current_dir
            &&& post.pending is Idle
            &&& a is Done
        },
        CdDecision::ReportNotFound => {
            &&& out_is(pre, post, pre.out().push(msgs::msg_cd_not_found(raw)))
            &&& post.current_dir == pre.current_dir
            &&& post.pending is Idle
            &&& a is Done
        },
    }
}

/// `cd` learns the canonical form of its target: on success it becomes the
/// current directory, on failure nothing changes but the report.
pub open spec fn cd_canon_rel(
    pre: TerminalApp,
    raw: Seq<char>,
    ev: Event,
    post: TerminalApp,
    a: Action,
) -> bool {
    &&& post.pending is Idle
    &&& a is Done
    &&& match ev {
        Event::CanonicalOk { path } => {
            &&& post.current_dir@ == path@
            &&& out_is(pre, post, pre.out().push(msgs::msg_changed_to(path@)))
        },
        Event::CanonicalErr { message } => {
            &&& post.current_dir == pre.current_dir
            &&& out_is(pre, post, pre.out().push(msgs::msg_cd_err(raw, message@)))
        },
        _ => false,
    }
}

/// The OS-managed `cd` hears back from the operating system: on success the
/// reported working directory is remembered, quietly; on failure the error
/// is reported and nothing changes.
pub open spec fn cd_set_rel(
    pre: TerminalApp,
    raw: Seq<char>,
    ev: Event,
    post: TerminalApp,
    a: Action,
) -> bool {
    &&& post.pending is Idle
    &&& a is Done
    &&& match ev {
        Event::CwdOk { path } => {
            &&& post.current_dir@ == path@
            &&& out_is(pre, post, pre.out())
        },
        Event::CwdErr { message } => {
            &&& post.current_dir == pre.current_dir
            &&& out_is(pre, post, pre.out().push(msgs::msg_cd_err(raw, message@)))
        },
        _ => false,
    }
}

/// Completion hears the listing: exactly one candidate is taken
/// automatically, several are listed and nothing changes, none changes
/// nothing; an unreadable directory fails silently.
pub open spec fn cd_complete_rel(
    pre: TerminalApp,
    partial: Seq<char>,
    ev: Event,
    post: TerminalApp,
    a: Action,
) -> bool {
    match ev {
        Event::Entries { entries } => {
            let cands = candidates_spec(partial, entries.deep_view()).sort_by(lex_leq());
            if cands.len() == 1 {
                &&& post.current_dir == pre.current_dir
                &&& cd_plain_rel(pre, pre.out(), cands[0], post, a)
            } else if cands.len() > 1 {
                &&& post.current_dir == pre.current_dir
                &&& out_is(pre, post, pre.out().push(msgs::completions_header()) + completion_items(
                    cands,
                ))
                &&& post.pending is Idle
                &&& a is Done
            } else {
                &&& post.current_dir == pre.current_dir
                &&& out_is(pre, post, pre.out())
                &&& post.pending is Idle
                &&& a is Done
            }
        },
        Event::DirError { message } => {
            &&& post.current_dir == pre.current_dir
            &&& out_is(pre, post, pre.out())
            &&& post.pending is Idle
            &&& a is Done
        },
        _ => false,
    }
}

/// `ls` hears the listing: the sorted, decorated, column-laid rows are
/// appended, or the one error line.
pub open spec fn ls_rel(
    pre: TerminalApp,
    shown: Seq<char>,
    ev: Event,
    post: TerminalApp,
    a: Action,
) -> bool {
    &&& post.current_dir == pre.current_dir
    &&& post.pending is Idle
    &&& a is Done
    &&& match ev {
        Event::Entries { entries } => out_is(pre, post, pre.out() + spec_ls_lines(
            entries.deep_view(),
        )),
        Event::DirError { message } => out_is(pre, post, pre.out().push(
            msgs::msg_ls_err(shown, message@),
        )),
        _ => false,
    }
}

/// `pwd` hears the working directory and shows it verbatim.
pub open spec fn pwd_rel(pre: TerminalApp, ev: Event, post: TerminalApp, a: Action) -> bool {
    &&& post.current_dir == pre.current_dir
    &&& post.pending is Idle
    &&& a is Done
    &&& match ev {
        Event::CwdOk { path } => out_is(pre, post, pre.out().push(path@)),
        Event::CwdErr { message } => out_is(pre, post, pre.out().push(msgs::msg_pwd_err(message@))),
        _ => false,
    }
}

/// After finishing one `mkdir` target: the next one is asked about, or the
/// command is done.
pub open spec fn mkdir_advance_rel(
    pre: TerminalApp,
    targets: Seq<Seq<char>>,
    idx: int,
    post: TerminalApp,
    a: Action,
) -> bool {
    if idx + 1 < targets.len() {
        &&& post.pending matches Pending::Mkdir { targets: t, idx: i2, waiting_op }
            && t.deep_view() == targets && i2 == idx + 1 && !waiting_op
        &&& a matches Action::Stat { path } && path@ == pre.spec_target(targets[idx + 1])
    } else {
        post.pending is Idle && a is Done
    }
}

/// `mkdir` learns what its target names: anything already there is refused
/// with `File exists` and that entry alone is skipped; a missing path is
/// created.
pub open spec fn mkdir_kind_rel(
    pre: TerminalApp,
    targets: Seq<Seq<char>>,
    idx: int,
    kind: PathKind,
    post: TerminalApp,
    a: Action,
) -> bool {
    &&& post.current_dir == pre.current_dir
    &&& if mkdir_rejected(kind) {
        &&& out_is(pre, post, pre.out().push(msgs::msg_mkdir_exists(targets[idx])))
        &&& mkdir_advance_rel(pre, targets, idx, post, a)
    } else {
        &&& out_is(pre, post, pre.out())
        &&& post.pending matches Pending::Mkdir { targets: t, idx: i2, waiting_op }
            && t.deep_view() == targets && i2 == idx && waiting_op
        &&& a matches Action::CreateDir { path } && path@ == pre.spec_target(targets[idx])
    }
}

/// `mkdir` hears how creating went: confirmation when this front end
/// confirms, the error line otherwise; either way the next target follows.
pub open spec fn mkdir_op_rel(
    pre: TerminalApp,
    targets: Seq<Seq<char>>,
    idx: int,
    ev: Event,
    post: TerminalApp,
    a: Action,
) -> bool {
    &&& post.current_dir == pre.current_dir
    &&& mkdir_advance_rel(pre, targets, idx, post, a)
    &&& match ev {
        Event::OpOk => out_is(pre, post, if pre.owned_mode() {
            pre.out().push(msgs::msg_created(targets[idx]))
        } else {
            pre.out()
        }),
        Event::OpErr { message } => out_is(pre, post, pre.out().push(
            msgs::msg_mkdir_err(targets[idx], message@),
        )),
        _ => false,
    }
}

/// After finishing one `rmdir` target.
pub open spec fn rmdir_advance_rel(
    pre: TerminalApp,
    targets: Seq<Seq<char>>,
    idx: int,
    post: TerminalApp,
    a: Action,
) -> bool {
    if idx + 1 < targets.len() {
        &&& post.pending matches Pending::Rmdir { targets: t, idx: i2, waiting_op }
            && t.deep_view() == targets && i2 == idx + 1 && !waiting_op
        &&& a matches Action::Stat { path } && path@ == pre.spec_target(targets[idx + 1])
    } else {
        post.pending is Idle && a is Done
    }
}

/// `rmdir` learns what its target names and applies the `rmdir` rule.
pub open spec fn rmdir_kind_rel(
    pre: TerminalApp,
    targets: Seq<Seq<char>>,
    idx: int,
    kind: PathKind,
    post: TerminalApp,
    a: Action,
) -> bool {
    &&& post.current_dir == pre.current_dir
    &&& match rmdir_decision(kind) {
        RmdirDecision::ReportMissing => {
            &&& out_is(pre, post, pre.out().push(msgs::msg_rmdir_missing(targets[idx])))
            &&& rmdir_advance_rel(pre, targets, idx, post, a)
        },
        RmdirDecision::ReportNotADirectory => {
            &&& out_is(pre, post, pre.out().push(msgs::msg_rmdir_not_dir(targets[idx])))
            &&& rmdir_advance_rel(pre, targets, idx, post, a)
        },
        RmdirDecision::RemoveDir => {
            &&& out_is(pre, post, pre.out())
            &&& post.pending matches Pending::Rmdir { targets: t, idx: i2, waiting_op }
                && t.deep_view() == targets && i2 == idx && waiting_op
            &&& a matches Action::RemoveDirAt { path } && path@ == pre.spec_target(targets[idx])
        },
    }
}

/// `rmdir` hears how removing went.
pub open spec fn rmdir_op_rel(
    pre: TerminalApp,
    targets: Seq<Seq<char>>,
    idx: int,
    ev: Event,
    post: TerminalApp,
    a: Action,
) -> bool {
    &&& post.current_dir == pre.current_dir
    &&& rmdir_advance_rel(pre, targets, idx, post, a)
    &&& match ev {
        Event::OpOk => out_is(pre, post, if pre.owned_mode() {
            pre.out().push(msgs::msg_removed_dir(targets[idx]))
        } else {
            pre.out()
        }),
        Event::OpErr { message } => out_is(pre, post, pre.out().push(
            msgs::msg_rmdir_err(targets[idx], message@),
        )),
        _ => false,
    }
}

/// After finishing one `rm` target: the options ride along unchanged.
pub open spec fn rm_advance_rel(
    pre: TerminalApp,
    force: bool,
    recursive: bool,
    targets: Seq<Seq<char>>,
    idx: int,
    post: TerminalApp,
    a: Action,
) -> bool {
    if idx + 1 < targets.len() {
        &&& post.pending matches Pending::Rm { force: f, recursive: r, targets: t, idx: i2, waiting_op }
            && f == force && r == recursive && t.deep_view() == targets && i2 == idx + 1
            && !waiting_op
        &&& a matches Action::Stat { path } && path@ == pre.spec_target(targets[idx + 1])
    } else {
        post.pending is Idle && a is Done
    }
}

/// `rm` learns what its target names and applies the `rm` rule: with `-f` a
/// missing target passes silently, without it the miss is reported; a
/// directory needs `-r`; files are removed.
pub open spec fn rm_kind_rel(
    pre: TerminalApp,
    force: bool,
    recursive: bool,
    targets: Seq<Seq<char>>,
    idx: int,
    kind: PathKind,
    post: TerminalApp,
    a: Action,
) -> bool {
    &&& post.current_dir == pre.current_dir
    &&& match rm_decision(force, recursive, kind) {
        RmDecision::ReportMissing => {
            &&& out_is(pre, post, pre.out().push(msgs::msg_rm_missing(targets[idx])))
            &&& rm_advance_rel(pre, force, recursive, targets, idx, post, a)
        },
        RmDecision::Skip => {
            &&& out_is(pre, post, pre.out())
            &&& rm_advance_rel(pre, force, recursive, targets, idx, post, a)
        },
        RmDecision::ReportIsDirectory => {
            &&& out_is(pre, post, pre.out().push(msgs::msg_rm_is_dir(targets[idx])))
            &&& rm_advance_rel(pre, force, recursive, targets, idx, post, a)
        },
        RmDecision::RemoveTree => {
            &&& out_is(pre, post, pre.out())
            &&& post.pending matches Pending::Rm { force: f, recursive: r, targets: t, idx: i2, waiting_op }
                && f == force && r == recursive && t.deep_view() == targets && i2 == idx
                && waiting_op
            &&& a matches Action::RemoveTreeAt { path } && path@ == pre.spec_target(targets[idx])
        },
        RmDecision::RemoveFile => {
            &&& out_is(pre, post, pre.out())
            &&& post.pending matches Pending::Rm { force: f, recursive: r, targets: t, idx: i2, waiting_op }
                && f == force && r == recursive && t.deep_view() == targets && i2 == idx
                && waiting_op
            &&& a matches Action::RemoveFileAt { path } && path@ == pre.spec_target(targets[idx])
        },
    }
}

/// `rm` hears how removing went: confirmation when this front end confirms;
/// an error is reported unless `-f` suppresses it.
pub open spec fn rm_op_rel(
    pre: TerminalApp,
    force: bool,
    recursive: bool,
    targets: Seq<Seq<char>>,
    idx: int,
    ev: Event,
    post: TerminalApp,
    a: Action,
) -> bool {
    &&& post.current_dir == pre.current_dir
    &&& rm_advance_rel(pre, force, recursive, targets, idx, post, a)
    &&& match ev {
        Event::OpOk => out_is(pre, post, if pre.owned_mode() {
            pre.out().push(msgs::msg_removed(targets[idx]))
        } else {
            pre.out()
        }),
        Event::OpErr { message } => out_is(pre, post, if force {
            pre.out()
        } else {
            pre.out().push(msgs::msg_rm_err(targets[idx], message@))
        }),
        _ => false,
    }
}

/// An external command finished: captured output is appended with
/// standard-error lines marked; an interactive run reports a non-zero exit
/// status; a launch failure names the command.
pub open spec fn extern_rel(
    pre: TerminalApp,
    program: Seq<char>,
    ev: Event,
    post: TerminalApp,
    a: Action,
) -> bool {
    &&& post.current_dir == pre.current_dir
    &&& post.pending is Idle
    &&& a is Done
    &&& match ev {
        Event::RunOut { stdout_lines, stderr_lines } => out_is(
            pre,
            post,
            pre.out() + stdout_lines.deep_view() + stderr_marked(stderr_lines.deep_view()),
        ),
        Event::RunExit { success, code } => {
            if !success && code is Some {
                code matches Some(c) && out_is(pre, post, pre.out().push(
                    msgs::msg_exit_status(c as int),
                ))
            } else {
                out_is(pre, post, pre.out())
            }
        },
        Event::RunErr { message } => out_is(pre, post, pre.out().push(
            msgs::msg_command_not_found(program, message@),
        )),
        _ => false,
    }
}

/// What one event does to the session: the contract of
/// [`TerminalApp::on_event`], case by case over the pending command.
pub open spec fn step_rel(pre: TerminalApp, ev: Event, post: TerminalApp, a: Action) -> bool {
    match pre.pending {
        Pending::Idle => false,
        Pending::CdStat { raw, resolved } => ev matches Event::Kind { kind } && cd_stat_rel(
            pre,
            raw@,
            resolved@,
            kind,
            post,
            a,
        ),
        Pending::CdCanon { raw } => cd_canon_rel(pre, raw@, ev, post, a),
        Pending::CdSet { raw } => cd_set_rel(pre, raw@, ev, post, a),
        Pending::CdComplete { partial } => cd_complete_rel(pre, partial@, ev, post, a),
        Pending::Ls { shown } => ls_rel(pre, shown@, ev, post, a),
        Pending::Mkdir { targets, idx, waiting_op } => if waiting_op {
            mkdir_op_rel(pre, targets.deep_view(), idx as int, ev, post, a)
        } else {
            ev matches Event::Kind { kind } && mkdir_kind_rel(
                pre,
                targets.deep_view(),
                idx as int,
                kind,
                post,
                a,
            )
        },
        Pending::Rmdir { targets, idx, waiting_op } => if waiting_op {
            rmdir_op_rel(pre, targets.deep_view(), idx as int, ev, post, a)
        } else {
            ev matches Event::Kind { kind } && rmdir_kind_rel(
                pre,
                targets.deep_view(),
                idx as int,
                kind,
                post,
                a,
            )
        },
        Pending::Rm { force, recursive, targets, idx, waiting_op } => if waiting_op {
            rm_op_rel(pre, force, recursive, targets.deep_view(), idx as int, ev, post, a)
        } else {
            ev matches Event::Kind { kind } && rm_kind_rel(
                pre,
                force,
                recursive,
                targets.deep_view(),
                idx as int,
                kind,
                post,
                a,
            )
        },
        Pending::PwdQuery => pwd_rel(pre, ev, post, a),
        Pending::Extern { program } => extern_rel(pre, program@, ev, post, a),
    }
}


impl TerminalApp {
    /// Moves to the next `mkdir` target, or finishes.
    fn mkdir_advance(&mut self, targets: Vec<String>, idx: usize) -> (a: Action)
        requires
            idx < targets.len(),
            old(self).wf(),
        ensures
            final(self).wf(),
            mkdir_advance_rel(*old(self), targets.deep_view(), idx as int, *final(self), a),
            final(self).output == old(self).output,
            final(self).current_dir == old(self).current_dir,
            final(self).command_history == old(self).command_history,
            final(self).history_index == old(self).history_index,
            fixed_fields(*old(self), *final(self)),
    {
        if idx + 1 < targets.len() {
            proof {
                assert(targets@[idx as int + 1]@ == targets.deep_view()[idx as int + 1]);
            }
            let path = self.resolve_target(targets[idx + 1].as_str());
            self.pending = Pending::Mkdir { targets, idx: idx + 1, waiting_op: false };
            Action::Stat { path }
        } else {
            self.pending = Pending::Idle;
            Action::Done
        }
    }

    /// Moves to the next `rmdir` target, or finishes.
    fn rmdir_advance(&mut self, targets: Vec<String>, idx: usize) -> (a: Action)
        requires
            idx < targets.len(),
            old(self).wf(),
        ensures
            final(self).wf(),
            rmdir_advance_rel(*old(self), targets.deep_view(), idx as int, *final(self), a),
            final(self).output == old(self).output,
            final(self).current_dir == old(self).current_dir,
            final(self).command_history == old(self).command_history,
            final(self).history_index == old(self).history_index,
            fixed_fields(*old(self), *final(self)),
    {
        if idx + 1 < targets.len() {
            proof {
                assert(targets@[idx as int + 1]@ == targets.deep_view()[idx as int + 1]);
            }
            let path = self.resolve_target(targets[idx + 1].as_str());
            self.pending = Pending::Rmdir { targets, idx: idx + 1, waiting_op: false };
            Action::Stat { path }
        } else {
            self.pending = Pending::Idle;
            Action::Done
        }
    }

    /// Moves to the next `rm` target, or finishes.
    fn rm_advance(&mut self, force: bool, recursive: bool, targets: Vec<String>, idx: usize) -> (a:
        Action)
        requires
            idx < targets.len(),
            old(self).wf(),
        ensures
            final(self).wf(),
            rm_advance_rel(
                *old(self),
                force,
                recursive,
                targets.deep_view(),
                idx as int,
                *final(self),
                a,
            ),
            final(self).output == old(self).output,
            final(self).current_dir == old(self).current_dir,
            final(self).command_history == old(self).command_history,
            final(self).history_index == old(self).history_index,
            fixed_fields(*old(self), *final(self)),
    {
        if idx + 1 < targets.len() {
            proof {
                assert(targets@[idx as int + 1]@ == targets.deep_view()[idx as int + 1]);
            }
            let path = self.resolve_target(targets[idx + 1].as_str());
            self.pending = Pending::Rm { force, recursive, targets, idx: idx + 1, waiting_op: false };
            Action::Stat { path }
        } else {
            self.pending = Pending::Idle;
            Action::Done
        }
    }

    /// Feeds the event the previous action asked for; returns what to do
    /// next.
    pub fn on_event(&mut self, ev: Event) -> (a: Action)
        requires
            old(self).wf(),
            event_fits(old(self).pending, ev),
        ensures
            final(self).wf(),
            step_rel(*old(self), ev, *final(self), a),
            fixed_fields(*old(self), *final(self)),
            final(self).command_history == old(self).command_history,
            final(self).history_index == old(self).history_index,
            old(self).owned_mode() ==> final(self).out().len() <= OUTPUT_LIMIT,
    {
        let mut p = Pending::Idle;
        core::mem::swap(&mut self.pending, &mut p);
        let a: Action = match p {
            Pending::Idle => {
                proof {
                    assert(false);
                }
                Action::Done
            },
            Pending::CdStat { raw, resolved } => {
                match ev {
                    Event::Kind { kind } => {
                        match cd_decide(kind) {
                            CdDecision::Proceed => {
                                self.pending = Pending::CdCanon { raw };
                                Action::Canonicalize { path: resolved }
                            },
                            CdDecision::ReportNotADirectory => {
                                let ghost pre_out = self.out();
                                self.output.push(msgs::cd_not_dir_line(raw.as_str()));
                                proof {
                                    assert(self.out() =~= pre_out.push(msgs::msg_cd_not_dir(raw@)));
                                }
                                Action::Done
                            },
                            CdDecision::ReportNotFound => {
                                let ghost pre_out = self.out();
                                self.output.push(msgs::cd_not_found_line(raw.as_str()));
                                proof {
                                    assert(self.out() =~= pre_out.push(
                                        msgs::msg_cd_not_found(raw@),
                                    ));
                                }
                                Action::Done
                            },
                        }
                    },
                    _ => {
                        proof {
                            assert(false);
                        }
                        Action::Done
                    },
                }
            },
            Pending::CdCanon { raw } => {
                match ev {
                    Event::CanonicalOk { path } => {
                        let ghost pre_out = self.out();
                        let line = msgs::changed_to_line(path.as_str());
                        self.current_dir = path;
                        self.output.push(line);
                        proof {
                            assert(self.out() =~= pre_out.push(
                                msgs::msg_changed_to(self.current_dir@),
                            ));
                        }
                        Action::Done
                    },
                    Event::CanonicalErr { message } => {
                        let ghost pre_out = self.out();
                        self.output.push(msgs::cd_err_line(raw.as_str(), message.as_str()));
                        proof {
                            assert(self.out() =~= pre_out.push(msgs::msg_cd_err(raw@, message@)));
                        }
                        Action::Done
                    },
                    _ => {
                        proof {
                            assert(false);
                        }
                        Action::Done
                    },
                }
            },
            Pending::CdSet { raw } => {
                match ev {
                    Event::CwdOk { path } => {
                        self.current_dir = path;
                        Action::Done
                    },
                    Event::CwdErr { message } => {
                        let ghost pre_out = self.out();
                        self.output.push(msgs::cd_err_line(raw.as_str(), message.as_str()));
                        proof {
                            assert(self.out() =~= pre_out.push(msgs::msg_cd_err(raw@, message@)));
                        }
                        Action::Done
                    },
                    _ => {
                        proof {
                            assert(false);
                        }
                        Action::Done
                    },
                }
            },
            Pending::CdComplete { partial } => {
                match ev {
                    Event::Entries { entries } => {
                        let cands = build_candidates(partial.as_str(), &entries);
                        if cands.len() == 1 {
                            proof {
                                assert(cands@[0]@ == cands.deep_view()[0]);
                            }
                            let raw = cands[0].clone();
                            self.start_cd(raw)
                        } else if cands.len() > 1 {
                            let ghost pre_out = self.out();
                            let ghost cdv = cands.deep_view();
                            self.output.push(msgs::completions_header_line());
                            let mut i: usize = 0;
                            proof {
                                assert(completion_items(cdv.take(0)) =~= Seq::<Seq<char>>::empty());
                                assert(self.out() =~= pre_out.push(msgs::completions_header())
                                    + completion_items(cdv.take(0)));
                            }
                            while i < cands.len()
                                invariant
                                    0 <= i <= cands.len(),
                                    cdv == cands.deep_view(),
                                    cdv.len() == cands.len(),
                                    self.out() == pre_out.push(msgs::completions_header())
                                        + completion_items(cdv.take(i as int)),
                                    unchanged_but_output(*old(self), *self),
                                    self.pending is Idle,
                                decreases cands.len() - i,
                            {
                                proof {
                                    assert(cands@[i as int]@ == cdv[i as int]);
                                }
                                let ghost mid_out = self.out();
                                self.output.push(msgs::completion_item_line(cands[i].as_str()));
                                proof {
                                    assert(cdv.take(i as int + 1).drop_last() =~= cdv.take(
                                        i as int,
                                    ));
                                    assert(cdv.take(i as int + 1).last() == cdv[i as int]);
                                    assert(self.out() =~= mid_out.push(
                                        msgs::msg_completion_item(cdv[i as int]),
                                    ));
                                    assert(self.out() =~= pre_out.push(msgs::completions_header())
                                        + completion_items(cdv.take(i as int + 1)));
                                }
                                i = i + 1;
                            }
                            proof {
                                assert(cdv.take(cands.len() as int) =~= cdv);
                            }
                            Action::Done
                        } else {
                            Action::Done
                        }
                    },
                    Event::DirError { message } => Action::Done,
                    _ => {
                        proof {
                            assert(false);
                        }
                        Action::Done
                    },
                }
            },
            Pending::Ls { shown } => {
                match ev {
                    Event::Entries { entries } => {
                        let lines = ls_lines(&entries);
                        extend_output(&mut self.output, lines);
                        Action::Done
                    },
                    Event::DirError { message } => {
                        let ghost pre_out = self.out();
                        self.output.push(msgs::ls_err_line(shown.as_str(), message.as_str()));
                        proof {
                            assert(self.out() =~= pre_out.push(msgs::msg_ls_err(shown@, message@)));
                        }
                        Action::Done
                    },
                    _ => {
                        proof {
                            assert(false);
                        }
                        Action::Done
                    },
                }
            },
            Pending::PwdQuery => {
                match ev {
                    Event::CwdOk { path } => {
                        let ghost pre_out = self.out();
                        let ghost pv = path@;
                        self.output.push(path);
                        proof {
                            assert(self.out() =~= pre_out.push(pv));
                        }
                        Action::Done
                    },
                    Event::CwdErr { message } => {
                        let ghost pre_out = self.out();
                        self.output.push(msgs::pwd_err_line(message.as_str()));
                        proof {
                            assert(self.out() =~= pre_out.push(msgs::msg_pwd_err(message@)));
                        }
                        Action::Done
                    },
                    _ => {
                        proof {
                            assert(false);
                        }
                        Action::Done
                    },
                }
            },
            Pending::Mkdir { targets, idx, waiting_op } => {
                proof {
                    assert(targets@[idx as int]@ == targets.deep_view()[idx as int]);
                }
                if !waiting_op {
                    match ev {
                        Event::Kind { kind } => {
                            if mkdir_rejects(kind) {
                                let ghost pre_out = self.out();
                                self.output.push(msgs::mkdir_exists_line(targets[idx].as_str()));
                                proof {
                                    assert(self.out() =~= pre_out.push(
                                        msgs::msg_mkdir_exists(targets.deep_view()[idx as int]),
                                    ));
                                }
                                self.mkdir_advance(targets, idx)
                            } else {
                                let path = self.resolve_target(targets[idx].as_str());
                                self.pending = Pending::Mkdir { targets, idx, waiting_op: true };
                                Action::CreateDir { path }
                            }
                        },
                        _ => {
                            proof {
                                assert(false);
                            }
                            Action::Done
                        },
                    }
                } else {
                    match ev {
                        Event::OpOk => {
                            let is_owned = match self.mode {
                                DirectoryTrackingMode::OwnedCanonicalized => true,
                                DirectoryTrackingMode::OsManaged => false,
                            };
                            if is_owned {
                                let ghost pre_out = self.out();
                                self.output.push(msgs::created_line(targets[idx].as_str()));
                                proof {
                                    assert(self.out() =~= pre_out.push(
                                        msgs::msg_created(targets.deep_view()[idx as int]),
                                    ));
                                }
                            }
                            self.mkdir_advance(targets, idx)
                        },
                        Event::OpErr { message } => {
                            let ghost pre_out = self.out();
                            self.output.push(
                                msgs::mkdir_err_line(targets[idx].as_str(), message.as_str()),
                            );
                            proof {
                                assert(self.out() =~= pre_out.push(
                                    msgs::msg_mkdir_err(
                                        targets.deep_view()[idx as int],
                                        message@,
                                    ),
                                ));
                            }
                            self.mkdir_advance(targets, idx)
                        },
                        _ => {
                            proof {
                                assert(false);
                            }
                            Action::Done
                        },
                    }
                }
            },
            Pending::Rmdir { targets, idx, waiting_op } => {
                proof {
                    assert(targets@[idx as int]@ == targets.deep_view()[idx as int]);
                }
                if !waiting_op {
                    match ev {
                        Event::Kind { kind } => {
                            match rmdir_decide(kind) {
                                RmdirDecision::ReportMissing => {
                                    let ghost pre_out = self.out();
                                    self.output.push(
                                        msgs::rmdir_missing_line(targets[idx].as_str()),
                                    );
                                    proof {
                                        assert(self.out() =~= pre_out.push(
                                            msgs::msg_rmdir_missing(
                                                targets.deep_view()[idx as int],
                                            ),
                                        ));
                                    }
                                    self.rmdir_advance(targets, idx)
                                },
                                RmdirDecision::ReportNotADirectory => {
                                    let ghost pre_out = self.out();
                                    self.output.push(
                                        msgs::rmdir_not_dir_line(targets[idx].as_str()),
                                    );
                                    proof {
                                        assert(self.out() =~= pre_out.push(
                                            msgs::msg_rmdir_not_dir(
                                                targets.deep_view()[idx as int],
                                            ),
                                        ));
                                    }
                                    self.rmdir_advance(targets, idx)
                                },
                                RmdirDecision::RemoveDir => {
                                    let path = self.resolve_target(targets[idx].as_str());
                                    self.pending = Pending::Rmdir {
                                        targets,
                                        idx,
                                        waiting_op: true,
                                    };
                                    Action::RemoveDirAt { path }
                                },
                            }
                        },
                        _ => {
                            proof {
                                assert(false);
                            }
                            Action::Done
                        },
                    }
                } else {
                    match ev {
                        Event::OpOk => {
                            let is_owned = match self.mode {
                                DirectoryTrackingMode::OwnedCanonicalized => true,
                                DirectoryTrackingMode::OsManaged => false,
                            };
                            if is_owned {
                                let ghost pre_out = self.out();
                                self.output.push(msgs::removed_dir_line(targets[idx].as_str()));
                                proof {
                                    assert(self.out() =~= pre_out.push(
                                        msgs::msg_removed_dir(targets.deep_view()[idx as int]),
                                    ));
                                }
                            }
                            self.rmdir_advance(targets, idx)
                        },
                        Event::OpErr { message } => {
                            let ghost pre_out = self.out();
                            self.output.push(
                                msgs::rmdir_err_line(targets[idx].as_str(), message.as_str()),
                            );
                            proof {
                                assert(self.out() =~= pre_out.push(
                                    msgs::msg_rmdir_err(
                                        targets.deep_view()[idx as int],
                                        message@,
                                    ),
                                ));
                            }
                            self.rmdir_advance(targets, idx)
                        },
                        _ => {
                            proof {
                                assert(false);
                            }
                            Action::Done
                        },
                    }
                }
            },
            Pending::Rm { force, recursive, targets, idx, waiting_op } => {
                proof {
                    assert(targets@[idx as int]@ == targets.deep_view()[idx as int]);
                }
                if !waiting_op {
                    match ev {
                        Event::Kind { kind } => {
                            match rm_decide(force, recursive, kind) {
                                RmDecision::ReportMissing => {
                                    let ghost pre_out = self.out();
                                    self.output.push(msgs::rm_missing_line(targets[idx].as_str()));
                                    proof {
                                        assert(self.out() =~= pre_out.push(
                                            msgs::msg_rm_missing(targets.deep_view()[idx as int]),
                                        ));
                                    }
                                    self.rm_advance(force, recursive, targets, idx)
                                },
                                RmDecision::Skip => {
                                    self.rm_advance(force, recursive, targets, idx)
                                },
                                RmDecision::ReportIsDirectory => {
                                    let ghost pre_out = self.out();
                                    self.output.push(msgs::rm_is_dir_line(targets[idx].as_str()));
                                    proof {
                                        assert(self.out() =~= pre_out.push(
                                            msgs::msg_rm_is_dir(targets.deep_view()[idx as int]),
                                        ));
                                    }
                                    self.rm_advance(force, recursive, targets, idx)
                                },
                                RmDecision::RemoveTree => {
                                    let path = self.resolve_target(targets[idx].as_str());
                                    self.pending = Pending::Rm {
                                        force,
                                        recursive,
                                        targets,
                                        idx,
                                        waiting_op: true,
                                    };
                                    Action::RemoveTreeAt { path }
                                },
                                RmDecision::RemoveFile => {
                                    let path = self.resolve_target(targets[idx].as_str());
                                    self.pending = Pending::Rm {
                                        force,
                                        recursive,
                                        targets,
                                        idx,
                                        waiting_op: true,
                                    };
                                    Action::RemoveFileAt { path }
                                },
                            }
                        },
                        _ => {
                            proof {
                                assert(false);
                            }
                            Action::Done
                        },
                    }
                } else {
                    match ev {
                        Event::OpOk => {
                            let is_owned = match self.mode {
                                DirectoryTrackingMode::OwnedCanonicalized => true,
                                DirectoryTrackingMode::OsManaged => false,
                            };
                            if is_owned {
                                let ghost pre_out = self.out();
                                self.output.push(msgs::removed_line(targets[idx].as_str()));
                                proof {
                                    assert(self.out() =~= pre_out.push(
                                        msgs::msg_removed(targets.deep_view()[idx as int]),
                                    ));
                                }
                            }
                            self.rm_advance(force, recursive, targets, idx)
                        },
                        Event::OpErr { message } => {
                            if !force {
                                let ghost pre_out = self.out();
                                self.output.push(
                                    msgs::rm_err_line(targets[idx].as_str(), message.as_str()),
                                );
                                proof {
                                    assert(self.out() =~= pre_out.push(
                                        msgs::msg_rm_err(
                                            targets.deep_view()[idx as int],
                                            message@,
                                        ),
                                    ));
                                }
                            }
                            self.rm_advance(force, recursive, targets, idx)
                        },
                        _ => {
                            proof {
                                assert(false);
                            }
                            Action::Done
                        },
                    }
                }
            },
            Pending::Extern { program } => {
                match ev {
                    Event::RunOut { stdout_lines, stderr_lines } => {
                        extend_output(&mut self.output, stdout_lines);
                        let marked = mark_stderr(&stderr_lines);
                        extend_output(&mut self.output, marked);
                        Action::Done
                    },
                    Event::RunExit { success, code } => {
                        if !success {
                            if let Some(c) = code {
                                let ghost pre_out = self.out();
                                self.output.push(msgs::exit_status_line(c));
                                proof {
                                    assert(self.out() =~= pre_out.push(
                                        msgs::msg_exit_status(c as int),
                                    ));
                                }
                            }
                        }
                        Action::Done
                    },
                    Event::RunErr { message } => {
                        let ghost pre_out = self.out();
                        self.output.push(
                            msgs::command_not_found_line(program.as_str(), message.as_str()),
                        );
                        proof {
                            assert(self.out() =~= pre_out.push(
                                msgs::msg_command_not_found(program@, message@),
                            ));
                        }
                        Action::Done
                    },
                    _ => {
                        proof {
                            assert(false);
                        }
                        Action::Done
                    },
                }
            },
        };
        self.apply_output_bound();
        a
    }
}

/// Marks each captured standard-error line.
fn mark_stderr(lines: &Vec<String>) -> (r: Vec<String>)
    ensures
        r.deep_view() == stderr_marked(lines.deep_view()),
{
    let ghost dv = lines.deep_view();
    let mut r: Vec<String> = Vec::new();
    let mut i: usize = 0;
    proof {
        assert(r.deep_view() =~= stderr_marked(dv.take(0)));
    }
    while i < lines.len()
        invariant
            0 <= i <= lines.len(),
            dv == lines.deep_view(),
            dv.len() == lines.len(),
            r.deep_view() == stderr_marked(dv.take(i as int)),
        decreases lines.len() - i,
    {
        proof {
            assert(lines@[i as int]@ == dv[i as int]);
        }
        r.push(msgs::stderr_line(lines[i].as_str()));
        proof {
            assert(dv.take(i as int + 1).drop_last() =~= dv.take(i as int));
            assert(dv.take(i as int + 1).last() == dv[i as int]);
            assert(r.deep_view() =~= stderr_marked(dv.take(i as int + 1)));
        }
        i = i + 1;
    }
    proof {
        assert(dv.take(lines.len() as int) =~= dv);
    }
    r
}


/// The output bound of the buffering front end is an invariant: whatever
/// lines a step states, an owned-mode session ends it holding at most the
/// last [`OUTPUT_LIMIT`] of them, oldest dropped first.
pub proof fn lemma_output_bounded(pre: TerminalApp, post: TerminalApp, full: Seq<Seq<char>>)
    requires
        pre.owned_mode(),
        out_is(pre, post, full),
    ensures
        post.out().len() <= OUTPUT_LIMIT,
        full.len() > OUTPUT_LIMIT ==> post.out() == full.skip(full.len() - OUTPUT_LIMIT),
        full.len() <= OUTPUT_LIMIT ==> post.out() == full,
{
}

/// `cd` into a path that exists but is a regular file: the attempt fails
/// with the not-a-directory report and the current directory is left
/// exactly as it was.
pub proof fn lemma_cd_into_file(
    pre: TerminalApp,
    raw: Seq<char>,
    resolved: Seq<char>,
    post: TerminalApp,
    a: Action,
)
    requires
        cd_stat_rel(pre, raw, resolved, PathKind::File, post, a),
    ensures
        post.current_dir == pre.current_dir,
        post.out().len() > 0,
        post.out().last() == msgs::msg_cd_not_dir(raw),
        post.pending is Idle,
        a is Done,
{
    let full = pre.out().push(msgs::msg_cd_not_dir(raw));
    assert(out_is(pre, post, full));
    assert(bounded_out(pre.owned_mode(), full).last() == full.last());
}

} // verus!




