use taminal::proto::{Action, DirEntry, DirectoryTrackingMode, Event, PathKind};
use taminal::terminal::TerminalApp;

fn cli() -> TerminalApp {
    TerminalApp::new("/start".to_string(), "/home/me".to_string(), DirectoryTrackingMode::OsManaged)
}

fn gui() -> TerminalApp {
    TerminalApp::new(
        "/base".to_string(),
        "/home/me".to_string(),
        DirectoryTrackingMode::OwnedCanonicalized,
    )
}

fn file(name: &str) -> DirEntry {
    DirEntry { name: name.to_string(), is_dir: false }
}

fn dir(name: &str) -> DirEntry {
    DirEntry { name: name.to_string(), is_dir: true }
}

fn kind(k: PathKind) -> Event {
    Event::Kind { kind: k }
}

#[test]
fn rm_force_missing_is_silent_and_touches_nothing() {
    let mut app = cli();
    let before = app.output.clone();
    let a = app.execute_command("rm -f ghost.txt".to_string());
    assert_eq!(a, Action::Stat { path: "ghost.txt".to_string() });
    let a = app.on_event(kind(PathKind::Missing));
    assert_eq!(a, Action::Done);
    assert_eq!(app.output, before);
}

#[test]
fn rm_missing_without_force_reports() {
    let mut app = cli();
    let a = app.execute_command("rm ghost.txt".to_string());
    assert_eq!(a, Action::Stat { path: "ghost.txt".to_string() });
    let a = app.on_event(kind(PathKind::Missing));
    assert_eq!(a, Action::Done);
    assert_eq!(
        app.output.last().unwrap(),
        "rm: cannot remove 'ghost.txt': No such file or directory"
    );
}

#[test]
fn rm_directory_without_recursive_refused() {
    let mut app = cli();
    let a = app.execute_command("rm somedir".to_string());
    assert_eq!(a, Action::Stat { path: "somedir".to_string() });
    let a = app.on_event(kind(PathKind::Dir));
    assert_eq!(a, Action::Done);
    assert_eq!(app.output.last().unwrap(), "rm: cannot remove 'somedir': Is a directory");
}

#[test]
fn rm_recursive_directory_removes_tree() {
    let mut app = cli();
    let a = app.execute_command("rm -r somedir".to_string());
    assert_eq!(a, Action::Stat { path: "somedir".to_string() });
    let a = app.on_event(kind(PathKind::Dir));
    assert_eq!(a, Action::RemoveTreeAt { path: "somedir".to_string() });
    let a = app.on_event(Event::OpOk);
    assert_eq!(a, Action::Done);
    assert!(app.output.is_empty());
}

#[test]
fn rm_invalid_option_aborts_strict_front_end() {
    let mut app = cli();
    let a = app.execute_command("rm -x file".to_string());
    assert_eq!(a, Action::Done);
    assert_eq!(app.output.last().unwrap(), "rm: invalid option -- 'x'");
}

#[test]
fn rm_invalid_option_ignored_by_lenient_front_end() {
    let mut app = gui();
    let a = app.execute_command("rm -x file".to_string());
    assert_eq!(a, Action::Stat { path: "/base/file".to_string() });
}

#[test]
fn rm_missing_operand() {
    let mut app = cli();
    let a = app.execute_command("rm".to_string());
    assert_eq!(a, Action::Done);
    assert_eq!(app.output.last().unwrap(), "rm: missing operand");
}

#[test]
fn rm_error_suppressed_by_force() {
    let mut app = cli();
    let a = app.execute_command("rm -f locked".to_string());
    assert_eq!(a, Action::Stat { path: "locked".to_string() });
    let a = app.on_event(kind(PathKind::File));
    assert_eq!(a, Action::RemoveFileAt { path: "locked".to_string() });
    let a = app.on_event(Event::OpErr { message: "Permission denied".to_string() });
    assert_eq!(a, Action::Done);
    assert!(app.output.is_empty());
}

#[test]
fn mkdir_twice_reports_file_exists_and_creates_nothing_again() {
    let mut app = cli();
    let a = app.execute_command("mkdir x".to_string());
    assert_eq!(a, Action::Stat { path: "x".to_string() });
    let a = app.on_event(kind(PathKind::Missing));
    assert_eq!(a, Action::CreateDir { path: "x".to_string() });
    let a = app.on_event(Event::OpOk);
    assert_eq!(a, Action::Done);
    assert!(app.output.is_empty());

    let a = app.execute_command("mkdir x".to_string());
    assert_eq!(a, Action::Stat { path: "x".to_string() });
    let a = app.on_event(kind(PathKind::Dir));
    assert_eq!(a, Action::Done);
    assert_eq!(app.output.last().unwrap(), "mkdir: cannot create directory 'x': File exists");
}

#[test]
fn mkdir_keeps_going_after_one_failure() {
    let mut app = cli();
    let a = app.execute_command("mkdir a b".to_string());
    assert_eq!(a, Action::Stat { path: "a".to_string() });
    let a = app.on_event(kind(PathKind::Dir));
    assert_eq!(a, Action::Stat { path: "b".to_string() });
    let a = app.on_event(kind(PathKind::Missing));
    assert_eq!(a, Action::CreateDir { path: "b".to_string() });
    let a = app.on_event(Event::OpOk);
    assert_eq!(a, Action::Done);
    assert_eq!(app.output.len(), 1);
    assert_eq!(app.output[0], "mkdir: cannot create directory 'a': File exists");
}

#[test]
fn rmdir_distinguishes_missing_and_non_directory() {
    let mut app = cli();
    let a = app.execute_command("rmdir gone here".to_string());
    assert_eq!(a, Action::Stat { path: "gone".to_string() });
    let a = app.on_event(kind(PathKind::Missing));
    assert_eq!(a, Action::Stat { path: "here".to_string() });
    let a = app.on_event(kind(PathKind::File));
    assert_eq!(a, Action::Done);
    assert_eq!(app.output[0], "rmdir: failed to remove 'gone': No such file or directory");
    assert_eq!(app.output[1], "rmdir: failed to remove 'here': Not a directory");
}

#[test]
fn rmdir_reports_not_empty_text_from_front_end() {
    let mut app = cli();
    let a = app.execute_command("rmdir full".to_string());
    assert_eq!(a, Action::Stat { path: "full".to_string() });
    let a = app.on_event(kind(PathKind::Dir));
    assert_eq!(a, Action::RemoveDirAt { path: "full".to_string() });
    let a = app.on_event(Event::OpErr { message: "Directory not empty".to_string() });
    assert_eq!(a, Action::Done);
    assert_eq!(app.output.last().unwrap(), "rmdir: failed to remove 'full': Directory not empty");
}

#[test]
fn ls_lists_sorted_whatever_the_filesystem_order() {
    let expected = format!("{:<20}{:<20}{:<20}{:<20}", "a", "b", "c", "d");
    for names in [["b", "a", "d", "c"], ["d", "c", "b", "a"]] {
        let mut app = cli();
        let a = app.execute_command("ls".to_string());
        assert_eq!(a, Action::ReadDir { path: ".".to_string() });
        let entries: Vec<DirEntry> = names.iter().map(|n| file(n)).collect();
        let a = app.on_event(Event::Entries { entries });
        assert_eq!(a, Action::Done);
        assert_eq!(app.output, vec![expected.clone()]);
    }
}

#[test]
fn ls_error_quotes_the_argument() {
    let mut app = cli();
    let a = app.execute_command("ls /nope".to_string());
    assert_eq!(a, Action::ReadDir { path: "/nope".to_string() });
    let a = app.on_event(Event::DirError { message: "Permission denied".to_string() });
    assert_eq!(a, Action::Done);
    assert_eq!(app.output.last().unwrap(), "ls: /nope: Permission denied");
}

#[test]
fn cd_into_regular_file_fails_and_keeps_directory() {
    let mut app = gui();
    let a = app.execute_command("cd somefile".to_string());
    assert_eq!(a, Action::Stat { path: "/base/somefile".to_string() });
    let a = app.on_event(kind(PathKind::File));
    assert_eq!(a, Action::Done);
    assert_eq!(app.output.last().unwrap(), "cd: somefile: Not a directory");
    assert_eq!(app.current_dir, "/base");
}

#[test]
fn cd_missing_path_reports_not_found() {
    let mut app = gui();
    let a = app.execute_command("cd nowhere".to_string());
    assert_eq!(a, Action::Stat { path: "/base/nowhere".to_string() });
    let a = app.on_event(kind(PathKind::Missing));
    assert_eq!(a, Action::Done);
    assert_eq!(app.output.last().unwrap(), "cd: nowhere: No such file or directory");
    assert_eq!(app.current_dir, "/base");
}

#[test]
fn cd_directory_canonicalizes_and_confirms() {
    let mut app = gui();
    let a = app.execute_command("cd sub".to_string());
    assert_eq!(a, Action::Stat { path: "/base/sub".to_string() });
    let a = app.on_event(kind(PathKind::Dir));
    assert_eq!(a, Action::Canonicalize { path: "/base/sub".to_string() });
    let a = app.on_event(Event::CanonicalOk { path: "/base/sub".to_string() });
    assert_eq!(a, Action::Done);
    assert_eq!(app.current_dir, "/base/sub");
    assert_eq!(app.output.last().unwrap(), "Changed to: /base/sub");
}

#[test]
fn cd_without_argument_goes_home() {
    let mut app = cli();
    let a = app.execute_command("cd".to_string());
    assert_eq!(a, Action::SetCwd { path: "/home/me".to_string() });
    let a = app.on_event(Event::CwdOk { path: "/home/me".to_string() });
    assert_eq!(a, Action::Done);
    assert_eq!(app.current_dir, "/home/me");
    assert!(app.output.is_empty());
}

#[test]
fn cd_os_error_is_reported() {
    let mut app = cli();
    let a = app.execute_command("cd /root/secret".to_string());
    assert_eq!(a, Action::SetCwd { path: "/root/secret".to_string() });
    let a = app.on_event(Event::CwdErr { message: "Permission denied".to_string() });
    assert_eq!(a, Action::Done);
    assert_eq!(app.output.last().unwrap(), "cd: /root/secret: Permission denied");
    assert_eq!(app.current_dir, "/start");
}

#[test]
fn completion_lists_two_candidates_sorted() {
    let mut app = cli();
    let a = app.execute_command("cd sr\t".to_string());
    assert_eq!(a, Action::ReadDir { path: ".".to_string() });
    let a = app.on_event(Event::Entries { entries: vec![file("srv.txt"), dir("src")] });
    assert_eq!(a, Action::Done);
    assert_eq!(
        app.output,
        vec![
            "Possible completions:".to_string(),
            "  src/".to_string(),
            "  srv.txt".to_string(),
        ]
    );
}

#[test]
fn completion_with_single_candidate_changes_directory() {
    let mut app = cli();
    let a = app.execute_command("cd sr\t".to_string());
    assert_eq!(a, Action::ReadDir { path: ".".to_string() });
    let a = app.on_event(Event::Entries { entries: vec![dir("src"), file("other")] });
    assert_eq!(a, Action::SetCwd { path: "src/".to_string() });
    assert!(app.output.is_empty());
    let a = app.on_event(Event::CwdOk { path: "/start/src".to_string() });
    assert_eq!(a, Action::Done);
    assert_eq!(app.current_dir, "/start/src");
}

#[test]
fn completion_with_no_candidates_is_silent() {
    let mut app = cli();
    let a = app.execute_command("cd zz\t".to_string());
    assert_eq!(a, Action::ReadDir { path: ".".to_string() });
    let a = app.on_event(Event::Entries { entries: vec![file("other")] });
    assert_eq!(a, Action::Done);
    assert!(app.output.is_empty());
}

#[test]
fn history_navigation_up_up_then_down() {
    let mut app = gui();
    for cmd in ["A", "B", "C"] {
        let a = app.execute_command(cmd.to_string());
        assert!(matches!(a, Action::Run { .. }));
        let a = app.on_event(Event::RunOut { stdout_lines: vec![], stderr_lines: vec![] });
        assert_eq!(a, Action::Done);
    }
    assert_eq!(app.command_history, vec!["A", "B", "C"]);
    app.history_up();
    assert_eq!(app.input, "C");
    app.history_up();
    assert_eq!(app.input, "B");
    app.history_down();
    assert_eq!(app.input, "C");
    app.history_down();
    assert_eq!(app.input, "");
}

#[test]
fn pwd_prints_current_directory() {
    let mut app = gui();
    let before = app.output.len();
    let a = app.execute_command("pwd".to_string());
    assert_eq!(a, Action::Done);
    assert_eq!(app.output.len(), before + 2);
    assert_eq!(app.output.last().unwrap(), "/base");
}

#[test]
fn pwd_asks_the_operating_system_when_os_managed() {
    let mut app = cli();
    let a = app.execute_command("pwd".to_string());
    assert_eq!(a, Action::QueryCwd);
    let a = app.on_event(Event::CwdOk { path: "/somewhere".to_string() });
    assert_eq!(a, Action::Done);
    assert_eq!(app.output.last().unwrap(), "/somewhere");
}

#[test]
fn clear_reseeds_the_buffer() {
    let mut app = gui();
    app.execute_command("pwd".to_string());
    let a = app.execute_command("clear".to_string());
    assert_eq!(a, Action::Done);
    assert_eq!(app.output, vec!["=== Terminal Cleared ===".to_string()]);
}

#[test]
fn clear_in_cli_mode_clears_the_real_screen() {
    let mut app = cli();
    let a = app.execute_command("clear".to_string());
    assert_eq!(a, Action::ClearScreen);
    assert!(app.output.is_empty());
}

#[test]
fn exit_hints_in_gui_and_exits_in_cli() {
    let mut app = gui();
    let a = app.execute_command("exit".to_string());
    assert_eq!(a, Action::Done);
    assert_eq!(app.output.last().unwrap(), "Use the window close button to exit");

    let mut app = cli();
    let a = app.execute_command("quit".to_string());
    assert_eq!(a, Action::Exit);
}

#[test]
fn help_appends_the_usage_summary() {
    let mut app = cli();
    let a = app.execute_command("help".to_string());
    assert_eq!(a, Action::Done);
    assert_eq!(app.output.first().unwrap(), "=== Available Commands ===");
    assert_eq!(app.output.len(), 21);
}

#[test]
fn external_command_output_is_captured_with_error_marker() {
    let mut app = gui();
    let a = app.execute_command("cat notes".to_string());
    assert_eq!(
        a,
        Action::Run { program: "cat".to_string(), args: vec!["notes".to_string()] }
    );
    let a = app.on_event(Event::RunOut {
        stdout_lines: vec!["first".to_string()],
        stderr_lines: vec!["oops".to_string()],
    });
    assert_eq!(a, Action::Done);
    let n = app.output.len();
    assert_eq!(app.output[n - 2], "first");
    assert_eq!(app.output[n - 1], "[ERROR] oops");
}

#[test]
fn external_command_nonzero_status_is_reported() {
    let mut app = cli();
    let a = app.execute_command("false".to_string());
    assert_eq!(
        a,
        Action::RunInteractive { program: "false".to_string(), args: vec![] }
    );
    let a = app.on_event(Event::RunExit { success: false, code: Some(3) });
    assert_eq!(a, Action::Done);
    assert_eq!(app.output.last().unwrap(), "Command exited with status: 3");
}

#[test]
fn external_command_launch_failure_names_it() {
    let mut app = cli();
    let a = app.execute_command("frobnicate".to_string());
    assert_eq!(
        a,
        Action::RunInteractive { program: "frobnicate".to_string(), args: vec![] }
    );
    let a = app.on_event(Event::RunErr { message: "No such file or directory".to_string() });
    assert_eq!(a, Action::Done);
    assert_eq!(
        app.output.last().unwrap(),
        "frobnicate: command not found (No such file or directory)"
    );
}

#[test]
fn gui_front_end_echoes_the_prompt() {
    let mut app = gui();
    let before = app.output.len();
    app.execute_command("pwd".to_string());
    assert_eq!(app.output[before], "base> pwd");
}

#[test]
fn trim_output_keeps_the_newest_lines() {
    let mut app = cli();
    app.execute_command("help".to_string());
    assert_eq!(app.output.len(), 21);
    let expected: Vec<String> = app.output[16..].to_vec();
    app.trim_output(5);
    assert_eq!(app.output, expected);
}

#[test]
fn get_dir_name_shows_the_last_segment() {
    let app = gui();
    assert_eq!(app.get_dir_name(), "base");
}

#[test]
fn show_help_appends_without_touching_state() {
    let mut app = cli();
    app.show_help();
    assert_eq!(app.output.len(), 21);
    assert_eq!(app.current_dir, "/start");
}

#[test]
fn empty_command_does_nothing_but_echo() {
    let mut app = cli();
    let a = app.execute_command("   ".to_string());
    assert_eq!(a, Action::Done);
    assert!(app.output.is_empty());
    assert_eq!(app.command_history, vec!["   "]);
}

#[test]
fn completion_after_separator_with_one_entry_auto_selects() {
    let mut app = cli();
    let a = app.execute_command("cd src/\t".to_string());
    assert_eq!(a, Action::ReadDir { path: "src/".to_string() });
    let a = app.on_event(Event::Entries { entries: vec![dir("sub")] });
    assert_eq!(a, Action::SetCwd { path: "src/sub/".to_string() });
    assert!(app.output.is_empty());
}

#[test]
fn ls_resolves_relative_argument_against_owned_directory() {
    let mut app = gui();
    let a = app.execute_command("ls docs".to_string());
    assert_eq!(a, Action::ReadDir { path: "/base/docs".to_string() });
}

#[test]
fn gui_output_is_bounded_to_the_last_thousand_lines() {
    let mut app = gui();
    // Each `help` adds one echoed prompt line and 21 help lines.
    for _ in 0..50 {
        let a = app.execute_command("help".to_string());
        assert_eq!(a, Action::Done);
        assert!(app.output.len() <= 1000);
    }
    assert_eq!(app.output.len(), 1000);
    assert_eq!(app.output.last().unwrap(), "  Enter         - Execute command");

    // The OS-managed front end streams and is not bounded by the session.
    let mut app = cli();
    for _ in 0..50 {
        let a = app.execute_command("help".to_string());
        assert_eq!(a, Action::Done);
    }
    assert_eq!(app.output.len(), 21 * 50);
}
