//! Shell dialect detection and per-dialect startup-file location.

use crate::text::{contains_str, has_substring};
use crate::AutoNvmError;
use vstd::prelude::*;
use vstd::string::StrSliceExecFns;
use vstd::string::StringExecFns;

verus! {

/// The supported shell dialects: a closed set, derived once per invocation
/// from an environment signal and never persisted.
#[derive(Debug, Clone, Copy, PartialEq, Eq, Structural)]
pub enum ShellType {
    Bash,
    Zsh,
    Fish,
    PowerShell,
}

/// The dialect named by a shell-identity signal: `fish` anywhere in the
/// signal wins, then `zsh`; everything else falls back to Bash.
pub open spec fn spec_shell_of_signal(s: Seq<char>) -> ShellType {
    if has_substring(s, "fish"@) {
        ShellType::Fish
    } else if has_substring(s, "zsh"@) {
        ShellType::Zsh
    } else {
        ShellType::Bash
    }
}

/// Map the shell-identity signal (the shell path from the environment,
/// handed in by the caller) to a dialect; an absent signal falls back to
/// Bash.  On a platform whose native shell is PowerShell the caller picks
/// [`ShellType::PowerShell`] without consulting any signal.
pub fn detect_shell(signal: &Option<String>) -> (r: ShellType)
    ensures
        signal is None ==> r == ShellType::Bash,
        signal matches Some(s) ==> r == spec_shell_of_signal(s@),
{
    match signal {
        Option::None => ShellType::Bash,
        Option::Some(s) => {
            if contains_str(s.as_str(), "fish") {
                ShellType::Fish
            } else if contains_str(s.as_str(), "zsh") {
                ShellType::Zsh
            } else {
                ShellType::Bash
            }
        },
    }
}

/// The canonical startup-file path of a dialect under the given home
/// directory.  The file need not exist on disk.
pub open spec fn spec_config_path(shell: ShellType, home: Seq<char>) -> Seq<char> {
    match shell {
        ShellType::Bash => home + "/.bashrc"@,
        ShellType::Zsh => home + "/.zshrc"@,
        ShellType::Fish => home + "/.config/fish/config.fish"@,
        ShellType::PowerShell => home + "/.config/powershell/Microsoft.PowerShell_profile.ps1"@,
    }
}

/// Build the startup-file path of `shell` under `home`.
pub fn config_path_for(shell: ShellType, home: &str) -> (r: String)
    ensures
        r@ == spec_config_path(shell, home@),
{
    let mut p = home.to_owned();
    match shell {
        ShellType::Bash => p.append("/.bashrc"),
        ShellType::Zsh => p.append("/.zshrc"),
        ShellType::Fish => p.append("/.config/fish/config.fish"),
        ShellType::PowerShell => p.append(
            "/.config/powershell/Microsoft.PowerShell_profile.ps1",
        ),
    }
    p
}

/// Relies on `dirs::home_dir`: resolves the user's home directory from the
/// process environment; `None` when it cannot be determined.  The result
/// depends on ambient state, so nothing is promised of it.
#[verifier::external_body]
fn home_dir_string() -> (r: Option<String>) {
    dirs::home_dir().map(|p| p.to_string_lossy().into_owned())
}

/// Resolve the startup-file path for `shell` under the current user's home
/// directory; fails only when the home directory cannot be resolved.
pub fn get_config_file_path(shell: ShellType) -> (r: Result<String, AutoNvmError>)
    ensures
        r matches Ok(p) ==> exists|h: Seq<char>| p@ == spec_config_path(shell, h),
        r matches Err(e) ==> e == AutoNvmError::HomeDirUnavailable,
{
    match home_dir_string() {
        Option::None => Result::Err(AutoNvmError::HomeDirUnavailable),
        Option::Some(home) => {
            let p = config_path_for(shell, home.as_str());
            proof {
                assert(p@ == spec_config_path(shell, home@));
            }
            Result::Ok(p)
        },
    }
}

} // verus!
