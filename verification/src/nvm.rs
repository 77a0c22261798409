//! Construction of version-manager invocations and version decisions.
//!
//! Running the external version manager is the unverified outer layer's
//! job; this module builds the exact command such a run must execute and
//! decides what its output means.

use crate::shell::ShellType;
use crate::text::{contains_str, has_substring, str_eq, strip_leading, strip_leading_str, trim_str,
    trimmed};
use vstd::prelude::*;
use vstd::string::StrSliceExecFns;
use vstd::string::StringExecFns;

verus! {

/// The program that runs a version-manager command for a dialect.
pub open spec fn spec_nvm_program(shell: ShellType) -> Seq<char> {
    match shell {
        ShellType::Bash => "bash"@,
        ShellType::Zsh => "zsh"@,
        ShellType::Fish => "fish"@,
        ShellType::PowerShell => "powershell"@,
    }
}

/// The flag that makes that program run a command string.
pub open spec fn spec_nvm_flag(shell: ShellType) -> Seq<char> {
    match shell {
        ShellType::PowerShell => "-Command"@,
        _ => "-c"@,
    }
}

/// The command string handed to the program: Bash and Zsh must source the
/// version manager's script first, Fish and PowerShell call it directly.
pub open spec fn spec_nvm_script(shell: ShellType, args: Seq<char>) -> Seq<char> {
    match shell {
        ShellType::Bash | ShellType::Zsh => "source ~/.nvm/nvm.sh && nvm "@ + args,
        ShellType::Fish | ShellType::PowerShell => "nvm "@ + args,
    }
}

/// One invocation of the external version manager: run `program` with the
/// two arguments `flag` and `command`.
pub struct NvmInvocation {
    /// The shell program to start.
    pub program: String,
    /// Its run-a-command flag.
    pub flag: String,
    /// The command string to run.
    pub command: String,
}

/// Build the version-manager invocation for `shell` with the given
/// version-manager arguments (for example `use 18.17.0`).
pub fn build_nvm_command(shell: ShellType, nvm_args: &str) -> (r: NvmInvocation)
    ensures
        r.program@ == spec_nvm_program(shell),
        r.flag@ == spec_nvm_flag(shell),
        r.command@ == spec_nvm_script(shell, nvm_args@),
{
    match shell {
        ShellType::Bash => {
            let mut command = "source ~/.nvm/nvm.sh && nvm ".to_owned();
            command.append(nvm_args);
            NvmInvocation { program: "bash".to_owned(), flag: "-c".to_owned(), command }
        },
        ShellType::Zsh => {
            let mut command = "source ~/.nvm/nvm.sh && nvm ".to_owned();
            command.append(nvm_args);
            NvmInvocation { program: "zsh".to_owned(), flag: "-c".to_owned(), command }
        },
        ShellType::Fish => {
            let mut command = "nvm ".to_owned();
            command.append(nvm_args);
            NvmInvocation { program: "fish".to_owned(), flag: "-c".to_owned(), command }
        },
        ShellType::PowerShell => {
            let mut command = "nvm ".to_owned();
            command.append(nvm_args);
            NvmInvocation { program: "powershell".to_owned(), flag: "-Command".to_owned(), command }
        },
    }
}

/// Whether the version manager's `list` output names `version`: an exact
/// substring test, as the listing prints each installed version verbatim.
pub fn version_listed(list_output: &str, version: &str) -> (r: bool)
    ensures
        r == has_substring(list_output@, version@),
{
    contains_str(list_output, version)
}

/// The message for a failed switch: the diagnostic stream when it is
/// non-empty, the regular stream otherwise, trimmed either way.
pub fn switch_failure_message(stderr_output: &str, stdout_output: &str) -> (r: String)
    ensures
        stderr_output@.len() > 0 ==> r@ == trimmed(stderr_output@),
        stderr_output@.len() == 0 ==> r@ == trimmed(stdout_output@),
{
    if stderr_output.unicode_len() > 0 {
        trim_str(stderr_output).to_owned()
    } else {
        trim_str(stdout_output).to_owned()
    }
}

/// Whether the active version satisfies the required one: equal after
/// stripping any leading `v`s, or a keyword requirement that any active
/// version satisfies.
pub open spec fn spec_versions_match(current: Seq<char>, required: Seq<char>) -> bool {
    ||| strip_leading(current, 'v') == strip_leading(required, 'v')
    ||| required == "lts"@
    ||| required == "stable"@
    ||| required == "latest"@
}

/// Compare the active version against the required one.
pub fn versions_match(current: &str, required: &str) -> (r: bool)
    ensures
        r == spec_versions_match(current@, required@),
{
    let cc = strip_leading_str(current, 'v');
    let rc = strip_leading_str(required, 'v');
    str_eq(cc, rc) || str_eq(required, "lts") || str_eq(required, "stable") || str_eq(
        required,
        "latest",
    )
}

} // verus!
