use vstd::prelude::*;

use crate::paths::{file_name_of, path_file_name};
use crate::text::{opt_str_view, str_eq};

verus! {

/// The options of `rw run`: the command and its arguments.
pub struct Args {
    pub cmd: Vec<String>,
}

/// The process exit status for a command's exit code: the code itself when
/// it fits in a byte, else 1.
pub open spec fn exit_byte_of(code: i32) -> u8 {
    if 0 <= code <= 255 {
        code as u8
    } else {
        1
    }
}

/// The process exit status for a command's exit code.
pub fn exit_code_to_process_code(code: i32) -> (r: u8)
    ensures
        r == exit_byte_of(code),
{
    if 0 <= code && code <= 255 {
        code as u8
    } else {
        1
    }
}

/// The switches a shell is started with to run one command as an
/// interactive shell would (so that aliases work).
pub open spec fn shell_flag_of(name: Seq<char>) -> Seq<char> {
    if name == "zsh"@ {
        "-isc"@
    } else if name == "fish"@ {
        "-c"@
    } else {
        "-ic"@
    }
}

/// The switches for a shell of the given name.
pub fn shell_flag(name: &str) -> (r: &'static str)
    ensures
        r@ == shell_flag_of(name@),
{
    if str_eq(name, "zsh") {
        "-isc"
    } else if str_eq(name, "fish") {
        "-c"
    } else {
        "-ic"
    }
}

/// The shell a command is run with: `$SHELL`, else `sh`.
pub open spec fn shell_program_of(shell_var: Option<Seq<char>>) -> Seq<char> {
    match shell_var {
        Some(s) => s,
        None => "sh"@,
    }
}

/// The kind of that shell: `$REWIND_SHELL_HOOK_SHELL`, else the program's
/// file name, else `sh`.
pub open spec fn shell_kind_of(shell_var: Option<Seq<char>>, hook_shell: Option<Seq<char>>) -> Seq<char> {
    match hook_shell {
        Some(h) => h,
        None => match file_name_of(shell_program_of(shell_var)) {
            Some(n) => n,
            None => "sh"@,
        },
    }
}

/// How a command is run: the shell program and the switches before the
/// command, from `$SHELL` and `$REWIND_SHELL_HOOK_SHELL`.
pub fn shell_invocation(shell_var: Option<&str>, hook_shell: Option<&str>) -> (r: (String, &'static str))
    ensures
        r.0@ == shell_program_of(opt_str_view(shell_var)),
        r.1@ == shell_flag_of(shell_kind_of(opt_str_view(shell_var), opt_str_view(hook_shell))),
{
    let program = match shell_var {
        Some(s) => s.to_owned(),
        None => String::from_str("sh"),
    };
    let kind = match hook_shell {
        Some(h) => h.to_owned(),
        None => match path_file_name(program.as_str()) {
            Some(n) => n,
            None => String::from_str("sh"),
        },
    };
    let flag = shell_flag(kind.as_str());
    (program, flag)
}

/// The exit code of a command that ended without one (killed by a signal).
pub const SIGNALLED_EXIT_CODE: i32 = 1;

/// A command's exit code: its own, or 1 when it has none.
pub fn exit_code_or_failure(code: Option<i32>) -> (r: i32)
    ensures
        r == match code {
            Some(c) => c,
            None => SIGNALLED_EXIT_CODE,
        },
{
    match code {
        Some(c) => c,
        None => SIGNALLED_EXIT_CODE,
    }
}

/// A run's duration in whole milliseconds, saturated at the largest `i64`.
pub fn elapsed_millis(ms: u128) -> (r: i64)
    ensures
        r == if ms <= i64::MAX as u128 {
            ms as i64
        } else {
            i64::MAX
        },
{
    if ms <= i64::MAX as u128 {
        ms as i64
    } else {
        i64::MAX
    }
}

} // verus!
