//! Every line the shell can emit, as spec-level text with executable
//! builders proved against it.

use vstd::prelude::*;
use crate::numfmt::{spec_int_str, status_to_string};
use crate::path::spec_dir_name;

verus! {

/// Relies on `String::push` from std: appends exactly the one character.
#[verifier::external_body]
pub fn push_char(s: &mut String, c: char)
    ensures
        final(s)@ == old(s)@ + seq![c],
{
    s.push(c);
}

pub open spec fn msg_prompt(dir: Seq<char>, cmd: Seq<char>) -> Seq<char> {
    spec_dir_name(dir) + "> "@ + cmd
}

pub fn prompt_line(dir: &str, cmd: &str) -> (r: String)
    ensures
        r@ == msg_prompt(dir@, cmd@),
{
    crate::path::dir_name_of(dir).concat("> ").concat(cmd)
}

pub open spec fn msg_changed_to(path: Seq<char>) -> Seq<char> {
    "Changed to: "@ + path
}

pub fn changed_to_line(path: &str) -> (r: String)
    ensures
        r@ == msg_changed_to(path@),
{
    "Changed to: ".to_owned().concat(path)
}

pub open spec fn msg_cd_not_dir(raw: Seq<char>) -> Seq<char> {
    "cd: "@ + raw + ": Not a directory"@
}

pub fn cd_not_dir_line(raw: &str) -> (r: String)
    ensures
        r@ == msg_cd_not_dir(raw@),
{
    "cd: ".to_owned().concat(raw).concat(": Not a directory")
}

pub open spec fn msg_cd_not_found(raw: Seq<char>) -> Seq<char> {
    "cd: "@ + raw + ": No such file or directory"@
}

pub fn cd_not_found_line(raw: &str) -> (r: String)
    ensures
        r@ == msg_cd_not_found(raw@),
{
    "cd: ".to_owned().concat(raw).concat(": No such file or directory")
}

pub open spec fn msg_cd_err(raw: Seq<char>, e: Seq<char>) -> Seq<char> {
    "cd: "@ + raw + ": "@ + e
}

pub fn cd_err_line(raw: &str, e: &str) -> (r: String)
    ensures
        r@ == msg_cd_err(raw@, e@),
{
    "cd: ".to_owned().concat(raw).concat(": ").concat(e)
}

pub open spec fn msg_ls_err(shown: Seq<char>, e: Seq<char>) -> Seq<char> {
    "ls: "@ + shown + ": "@ + e
}

pub fn ls_err_line(shown: &str, e: &str) -> (r: String)
    ensures
        r@ == msg_ls_err(shown@, e@),
{
    "ls: ".to_owned().concat(shown).concat(": ").concat(e)
}

pub open spec fn msg_pwd_err(e: Seq<char>) -> Seq<char> {
    "pwd: "@ + e
}

pub fn pwd_err_line(e: &str) -> (r: String)
    ensures
        r@ == msg_pwd_err(e@),
{
    "pwd: ".to_owned().concat(e)
}

pub open spec fn msg_mkdir_exists(d: Seq<char>) -> Seq<char> {
    "mkdir: cannot create directory '"@ + d + "': File exists"@
}

pub fn mkdir_exists_line(d: &str) -> (r: String)
    ensures
        r@ == msg_mkdir_exists(d@),
{
    "mkdir: cannot create directory '".to_owned().concat(d).concat("': File exists")
}

pub open spec fn msg_mkdir_err(d: Seq<char>, e: Seq<char>) -> Seq<char> {
    "mkdir: cannot create directory '"@ + d + "': "@ + e
}

pub fn mkdir_err_line(d: &str, e: &str) -> (r: String)
    ensures
        r@ == msg_mkdir_err(d@, e@),
{
    "mkdir: cannot create directory '".to_owned().concat(d).concat("': ").concat(e)
}

pub open spec fn msg_created(d: Seq<char>) -> Seq<char> {
    "Created directory: "@ + d
}

pub fn created_line(d: &str) -> (r: String)
    ensures
        r@ == msg_created(d@),
{
    "Created directory: ".to_owned().concat(d)
}

pub open spec fn msg_rmdir_missing(d: Seq<char>) -> Seq<char> {
    "rmdir: failed to remove '"@ + d + "': No such file or directory"@
}

pub fn rmdir_missing_line(d: &str) -> (r: String)
    ensures
        r@ == msg_rmdir_missing(d@),
{
    "rmdir: failed to remove '".to_owned().concat(d).concat("': No such file or directory")
}

pub open spec fn msg_rmdir_not_dir(d: Seq<char>) -> Seq<char> {
    "rmdir: failed to remove '"@ + d + "': Not a directory"@
}

pub fn rmdir_not_dir_line(d: &str) -> (r: String)
    ensures
        r@ == msg_rmdir_not_dir(d@),
{
    "rmdir: failed to remove '".to_owned().concat(d).concat("': Not a directory")
}

pub open spec fn msg_rmdir_err(d: Seq<char>, e: Seq<char>) -> Seq<char> {
    "rmdir: failed to remove '"@ + d + "': "@ + e
}

pub fn rmdir_err_line(d: &str, e: &str) -> (r: String)
    ensures
        r@ == msg_rmdir_err(d@, e@),
{
    "rmdir: failed to remove '".to_owned().concat(d).concat("': ").concat(e)
}

pub open spec fn msg_removed_dir(d: Seq<char>) -> Seq<char> {
    "Removed directory: "@ + d
}

pub fn removed_dir_line(d: &str) -> (r: String)
    ensures
        r@ == msg_removed_dir(d@),
{
    "Removed directory: ".to_owned().concat(d)
}

pub open spec fn msg_rm_missing(f: Seq<char>) -> Seq<char> {
    "rm: cannot remove '"@ + f + "': No such file or directory"@
}

pub fn rm_missing_line(f: &str) -> (r: String)
    ensures
        r@ == msg_rm_missing(f@),
{
    "rm: cannot remove '".to_owned().concat(f).concat("': No such file or directory")
}

pub open spec fn msg_rm_is_dir(f: Seq<char>) -> Seq<char> {
    "rm: cannot remove '"@ + f + "': Is a directory"@
}

pub fn rm_is_dir_line(f: &str) -> (r: String)
    ensures
        r@ == msg_rm_is_dir(f@),
{
    "rm: cannot remove '".to_owned().concat(f).concat("': Is a directory")
}

pub open spec fn msg_rm_err(f: Seq<char>, e: Seq<char>) -> Seq<char> {
    "rm: cannot remove '"@ + f + "': "@ + e
}

pub fn rm_err_line(f: &str, e: &str) -> (r: String)
    ensures
        r@ == msg_rm_err(f@, e@),
{
    "rm: cannot remove '".to_owned().concat(f).concat("': ").concat(e)
}

pub open spec fn msg_removed(f: Seq<char>) -> Seq<char> {
    "Removed: "@ + f
}

pub fn removed_line(f: &str) -> (r: String)
    ensures
        r@ == msg_removed(f@),
{
    "Removed: ".to_owned().concat(f)
}

pub open spec fn msg_rm_invalid_option(c: char) -> Seq<char> {
    "rm: invalid option -- '"@ + seq![c] + "'"@
}

pub fn rm_invalid_option_line(c: char) -> (r: String)
    ensures
        r@ == msg_rm_invalid_option(c),
{
    let mut s: String = "rm: invalid option -- '".to_owned();
    push_char(&mut s, c);
    s.concat("'")
}

pub open spec fn msg_missing_operand(cmd: Seq<char>) -> Seq<char> {
    cmd + ": missing operand"@
}

pub fn missing_operand_line(cmd: &str) -> (r: String)
    ensures
        r@ == msg_missing_operand(cmd@),
{
    cmd.to_owned().concat(": missing operand")
}

pub open spec fn msg_command_not_found(program: Seq<char>, e: Seq<char>) -> Seq<char> {
    program + ": command not found ("@ + e + ")"@
}

pub fn command_not_found_line(program: &str, e: &str) -> (r: String)
    ensures
        r@ == msg_command_not_found(program@, e@),
{
    program.to_owned().concat(": command not found (").concat(e).concat(")")
}

pub open spec fn msg_exit_status(code: int) -> Seq<char> {
    "Command exited with status: "@ + spec_int_str(code)
}

pub fn exit_status_line(code: i32) -> (r: String)
    ensures
        r@ == msg_exit_status(code as int),
{
    "Command exited with status: ".to_owned().concat(status_to_string(code).as_str())
}

pub open spec fn msg_stderr(line: Seq<char>) -> Seq<char> {
    "[ERROR] "@ + line
}

pub fn stderr_line(line: &str) -> (r: String)
    ensures
        r@ == msg_stderr(line@),
{
    "[ERROR] ".to_owned().concat(line)
}

pub open spec fn cleared_banner() -> Seq<char> {
    "=== Terminal Cleared ==="@
}

pub fn cleared_banner_line() -> (r: String)
    ensures
        r@ == cleared_banner(),
{
    "=== Terminal Cleared ===".to_owned()
}

pub open spec fn exit_hint() -> Seq<char> {
    "Use the window close button to exit"@
}

pub fn exit_hint_line() -> (r: String)
    ensures
        r@ == exit_hint(),
{
    "Use the window close button to exit".to_owned()
}

pub open spec fn completions_header() -> Seq<char> {
    "Possible completions:"@
}

pub fn completions_header_line() -> (r: String)
    ensures
        r@ == completions_header(),
{
    "Possible completions:".to_owned()
}

pub open spec fn msg_completion_item(c: Seq<char>) -> Seq<char> {
    "  "@ + c
}

pub fn completion_item_line(c: &str) -> (r: String)
    ensures
        r@ == msg_completion_item(c@),
{
    "  ".to_owned().concat(c)
}

/// The lines `help` prints, in order.
pub open spec fn help_text() -> Seq<Seq<char>> {
    seq![
        "=== Available Commands ==="@,
        ""@,
        "File and Directory Operations:"@,
        "  ls [dir]      - List directory contents"@,
        "  cd [dir]      - Change directory"@,
        "  pwd           - Print working directory"@,
        "  mkdir <dir>   - Create directory"@,
        "  rmdir <dir>   - Remove empty directory"@,
        "  rm <file>     - Remove file"@,
        "    -f          - Force removal"@,
        "    -r          - Remove directories recursively"@,
        ""@,
        "Terminal Control:"@,
        "  clear         - Clear terminal"@,
        "  help          - Show this help"@,
        "  exit/quit     - Exit the terminal"@,
        ""@,
        "Shortcuts:"@,
        "  Up/Down       - Navigate command history"@,
        "  Ctrl+L        - Clear terminal"@,
        "  Enter         - Execute command"@,
    ]
}

/// Builds the help text.
pub fn help_text_lines() -> (r: Vec<String>)
    ensures
        r.deep_view() == help_text(),
{
    let mut v: Vec<String> = Vec::new();
    v.push("=== Available Commands ===".to_owned());
    v.push("".to_owned());
    v.push("File and Directory Operations:".to_owned());
    v.push("  ls [dir]      - List directory contents".to_owned());
    v.push("  cd [dir]      - Change directory".to_owned());
    v.push("  pwd           - Print working directory".to_owned());
    v.push("  mkdir <dir>   - Create directory".to_owned());
    v.push("  rmdir <dir>   - Remove empty directory".to_owned());
    v.push("  rm <file>     - Remove file".to_owned());
    v.push("    -f          - Force removal".to_owned());
    v.push("    -r          - Remove directories recursively".to_owned());
    v.push("".to_owned());
    v.push("Terminal Control:".to_owned());
    v.push("  clear         - Clear terminal".to_owned());
    v.push("  help          - Show this help".to_owned());
    v.push("  exit/quit     - Exit the terminal".to_owned());
    v.push("".to_owned());
    v.push("Shortcuts:".to_owned());
    v.push("  Up/Down       - Navigate command history".to_owned());
    v.push("  Ctrl+L        - Clear terminal".to_owned());
    v.push("  Enter         - Execute command".to_owned());
    proof {
        assert(v.deep_view() =~= help_text());
    }
    v
}

/// The lines a fresh session starts with.
pub open spec fn startup_banner() -> Seq<Seq<char>> {
    seq![
        "=== Taminal GUI Terminal ==="@,
        "Type 'help' for available commands"@,
        ""@,
    ]
}

/// Builds the startup banner.
pub fn startup_banner_lines() -> (r: Vec<String>)
    ensures
        r.deep_view() == startup_banner(),
{
    let mut v: Vec<String> = Vec::new();
    v.push("=== Taminal GUI Terminal ===".to_owned());
    v.push("Type 'help' for available commands".to_owned());
    v.push("".to_owned());
    proof {
        assert(v.deep_view() =~= startup_banner());
    }
    v
}

} // verus!
