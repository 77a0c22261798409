//! Uninstall orchestration: the confirmation gate and the aggregate
//! result of the three independent removal steps.
//!
//! The three steps (shell integration, binary, PATH entries) are run by
//! the unverified outer layer, which performs the file operations; no
//! step's failure blocks another.  This module decides whether the
//! operator's confirmation allows the run, and what the per-step outcomes
//! add up to.

use crate::config::Config;
use crate::text::trimmed;
use vstd::prelude::*;
use vstd::string::StrSliceExecFns;

verus! {

/// Per-step outcome tally of one uninstall run; constructed fresh per
/// invocation.
#[derive(Debug, Clone, Copy, PartialEq, Eq, Structural)]
pub struct UninstallResult {
    /// The shell-integration block was removed (or was not present).
    pub shell_integration_removed: bool,
    /// The binary was removed (or was not found).
    pub binary_removed: bool,
    /// The PATH entries were removed (or none were found).
    pub path_entries_removed: bool,
}

/// How many of the three steps succeeded.
pub open spec fn spec_success_count(r: UninstallResult) -> int {
    (if r.shell_integration_removed {
        1int
    } else {
        0
    }) + (if r.binary_removed {
        1int
    } else {
        0
    }) + (if r.path_entries_removed {
        1int
    } else {
        0
    })
}

impl UninstallResult {
    /// Tally the three step outcomes.
    pub fn new(
        shell_integration_removed: bool,
        binary_removed: bool,
        path_entries_removed: bool,
    ) -> (r: Self)
        ensures
            r.shell_integration_removed == shell_integration_removed,
            r.binary_removed == binary_removed,
            r.path_entries_removed == path_entries_removed,
    {
        UninstallResult { shell_integration_removed, binary_removed, path_entries_removed }
    }

    /// The number of steps that succeeded.
    pub fn success_count(&self) -> (n: u32)
        ensures
            n == spec_success_count(*self),
    {
        let mut n: u32 = 0;
        if self.shell_integration_removed {
            n = n + 1;
        }
        if self.binary_removed {
            n = n + 1;
        }
        if self.path_entries_removed {
            n = n + 1;
        }
        n
    }

    /// The number of steps that ran.
    pub fn total_count(&self) -> (n: u32)
        ensures
            n == 3,
    {
        3
    }

    /// Every step succeeded.
    pub fn is_complete(&self) -> (r: bool)
        ensures
            r == (spec_success_count(*self) == 3),
    {
        self.shell_integration_removed && self.binary_removed && self.path_entries_removed
    }

    /// Some step failed.  A partial result is reported, never raised as a
    /// fatal error: the operator is told which steps to retry by hand.
    pub fn is_partial(&self) -> (r: bool)
        ensures
            r == (spec_success_count(*self) < 3),
    {
        !self.is_complete()
    }
}

/// ASCII lowercasing of one character.
pub open spec fn lower_char(c: char) -> char {
    if 'A' <= c && c <= 'Z' {
        ((c as u8) + 32) as char
    } else {
        c
    }
}

/// Runtime counterpart of [`lower_char`].
fn lower_char_exec(c: char) -> (r: char)
    ensures
        r == lower_char(c),
{
    if c >= 'A' && c <= 'Z' {
        ((c as u8) + 32) as char
    } else {
        c
    }
}

/// An operator's reply affirms the uninstall: after trimming and ASCII
/// lowercasing it reads `y` or `yes`.  Anything else aborts with no side
/// effects.
pub open spec fn spec_confirm_accepts(input: Seq<char>) -> bool {
    let low = trimmed(input).map_values(|c: char| lower_char(c));
    low == "y"@ || low == "yes"@
}

/// Decide whether an operator's reply affirms the uninstall.
pub fn confirm_response_accepts(input: &str) -> (r: bool)
    ensures
        r == spec_confirm_accepts(input@),
{
    let t = crate::text::trim_str(input);
    let n = t.unicode_len();
    let ghost low = trimmed(input@).map_values(|c: char| lower_char(c));
    proof {
        reveal_strlit("y");
        reveal_strlit("yes");
        assert(low.len() == t@.len());
    }
    if n == 1 {
        let c0 = lower_char_exec(t.get_char(0));
        let r = c0 == 'y';
        proof {
            if r {
                assert(low =~= "y"@);
            } else {
                assert(low[0] != 'y');
            }
        }
        r
    } else if n == 3 {
        let c0 = lower_char_exec(t.get_char(0));
        let c1 = lower_char_exec(t.get_char(1));
        let c2 = lower_char_exec(t.get_char(2));
        let r = c0 == 'y' && c1 == 'e' && c2 == 's';
        proof {
            if r {
                assert(low =~= "yes"@);
            } else {
                if c0 != 'y' {
                    assert(low[0] != "yes"@[0]);
                } else if c1 != 'e' {
                    assert(low[1] != "yes"@[1]);
                } else {
                    assert(low[2] != "yes"@[2]);
                }
                assert(low != "yes"@);
            }
        }
        r
    } else {
        false
    }
}

/// Coordinates the removal of every component.  The outer layer runs the
/// three steps and the confirmation prompt; their decisions live here.
pub struct UninstallManager {
    /// The invocation's configuration.
    pub config: Config,
}

impl UninstallManager {
    /// Create a manager for one uninstall run.
    pub fn new(config: Config) -> (r: Self)
        ensures
            r.config == config,
    {
        UninstallManager { config }
    }

    /// Whether the operator must be asked before anything is removed: in
    /// quiet mode the run proceeds without a prompt.
    pub fn needs_confirmation(&self) -> (r: bool)
        ensures
            r == !self.config.quiet,
    {
        !self.config.is_quiet()
    }
}

} // verus!
