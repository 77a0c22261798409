//! Identification of this tool's own binary for removal.
//!
//! Locating and deleting the file on disk is the unverified outer layer's
//! job; this module decides the candidate locations and whether a file
//! name is the tool's binary name.

use crate::text::str_eq;
use vstd::prelude::*;
use vstd::string::StringExecFns;

verus! {

/// The file name of the tool's binary on the given platform family.
pub fn binary_file_name(windows: bool) -> (r: &'static str)
    ensures
        windows ==> r@ == "auto-nvm.exe"@,
        !windows ==> r@ == "auto-nvm"@,
{
    if windows {
        "auto-nvm.exe"
    } else {
        "auto-nvm"
    }
}

/// Whether a file name is the tool's binary name.  Callers additionally
/// check existence and (on Unix) the executable permission bits on disk
/// before deleting anything.
pub fn is_auto_nvm_binary_name(name: &str) -> (r: bool)
    ensures
        r == (name@ == "auto-nvm"@ || name@ == "auto-nvm.exe"@),
{
    str_eq(name, "auto-nvm") || str_eq(name, "auto-nvm.exe")
}

/// Append `suffix` to `home`.
fn home_join(home: &str, suffix: &str) -> (r: String)
    ensures
        r@ == home@ + suffix@,
{
    let mut p = home.to_owned();
    p.append(suffix);
    p
}

/// The locations the tool's binary may have been installed to: the
/// per-user directories (with the environment-override directory when the
/// caller read one) and the system-wide ones.
pub fn get_possible_binary_locations(home: &str, override_dir: &Option<String>) -> (r: Vec<String>)
    ensures
        override_dir is None ==> r.deep_view() == seq![
            home@ + "/.local/bin"@,
            home@ + "/bin"@,
            home@ + "/.bin"@,
            "/usr/local/bin"@,
            "/usr/bin"@,
        ],
        override_dir matches Some(d) ==> r.deep_view() == seq![
            home@ + "/.local/bin"@,
            d@,
            home@ + "/bin"@,
            home@ + "/.bin"@,
            "/usr/local/bin"@,
            "/usr/bin"@,
        ],
{
    let mut r: Vec<String> = Vec::new();
    r.push(home_join(home, "/.local/bin"));
    match override_dir {
        Option::Some(d) => {
            r.push(d.clone());
        },
        Option::None => {},
    }
    r.push(home_join(home, "/bin"));
    r.push(home_join(home, "/.bin"));
    r.push("/usr/local/bin".to_owned());
    r.push("/usr/bin".to_owned());
    proof {
        if override_dir is None {
            assert(r.deep_view() =~~= seq![
                home@ + "/.local/bin"@,
                home@ + "/bin"@,
                home@ + "/.bin"@,
                "/usr/local/bin"@,
                "/usr/bin"@,
            ]);
        } else {
            let d = override_dir.unwrap();
            assert(r.deep_view() =~~= seq![
                home@ + "/.local/bin"@,
                d@,
                home@ + "/bin"@,
                home@ + "/.bin"@,
                "/usr/local/bin"@,
                "/usr/bin"@,
            ]);
        }
    }
    r
}

} // verus!
