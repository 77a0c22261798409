//! Parsing and validation of version declarations.
//!
//! A declaration file names the wanted runtime version on its first line.
//! Accepted version formats: exact or major versions with an optional `v`
//! prefix (`18.17.0`, `v18`), and the keywords `lts`, `node`, `stable` and
//! `latest`.

use crate::text::{
    all_digits, chars_of, is_digit, split_on, split_str, str_eq, strip_leading, strip_leading_str,
    trim_str, trimmed,
};
use crate::AutoNvmError;
use vstd::prelude::*;
use vstd::string::StrSliceExecFns;

verus! {

/// The declared version inside a file's content: the first line, with
/// surrounding ASCII whitespace removed.
pub open spec fn spec_declared_version(content: Seq<char>) -> Seq<char> {
    trimmed(split_on(content, '\n')[0])
}

/// Extract the version specification from a declaration file's content:
/// the trimmed first line, or an error when that line is empty or blank.
pub fn parse_nvmrc(content: &str) -> (r: Result<String, AutoNvmError>)
    ensures
        spec_declared_version(content@).len() == 0 ==> r == Result::<
            String,
            AutoNvmError,
        >::Err(AutoNvmError::EmptyVersion),
        spec_declared_version(content@).len() > 0 ==> (r matches Ok(v) && v@
            == spec_declared_version(content@)),
{
    let lines = split_str(content, '\n');
    let first = trim_str(lines[0].as_str());
    if first.unicode_len() == 0 {
        Result::Err(AutoNvmError::EmptyVersion)
    } else {
        Result::Ok(first.to_owned())
    }
}

/// A version whose `v` prefix is already stripped is numeric when it is one
/// to three dot-separated runs of digits.
pub open spec fn spec_numeric_version(s: Seq<char>) -> bool {
    let parts = split_on(s, '.');
    &&& parts.len() <= 3
    &&& forall|i: int|
        0 <= i < parts.len() ==> (#[trigger] parts[i]).len() > 0 && all_digits(parts[i])
}

/// One of the version keywords.
pub open spec fn spec_keyword(s: Seq<char>) -> bool {
    ||| s == "lts"@
    ||| s == "node"@
    ||| s == "stable"@
    ||| s == "latest"@
}

/// A valid version specification: after stripping leading `v`s, one of the
/// keywords `lts`, `node`, `stable`, `latest`, or a numeric version.
pub open spec fn spec_valid_version(v: Seq<char>) -> bool {
    let cleaned = strip_leading(v, 'v');
    ||| spec_keyword(cleaned)
    ||| spec_numeric_version(cleaned)
}

/// Validate a version specification's format.  The empty specification is
/// rejected as empty; everything that is neither a keyword nor a numeric
/// version is rejected as invalid.
pub fn validate_version(version: &str) -> (r: Result<(), AutoNvmError>)
    ensures
        r is Ok <==> spec_valid_version(version@),
        version@.len() == 0 ==> r == Result::<(), AutoNvmError>::Err(AutoNvmError::EmptyVersion),
        version@.len() > 0 && !spec_valid_version(version@) ==> r == Result::<
            (),
            AutoNvmError,
        >::Err(AutoNvmError::InvalidVersion),
{
    if version.unicode_len() == 0 {
        proof {
            reveal_strlit("lts");
            reveal_strlit("node");
            reveal_strlit("stable");
            reveal_strlit("latest");
            assert(strip_leading(version@, 'v') == version@);
            let parts = split_on(version@, '.');
            assert(parts[0].len() == 0);
        }
        return Result::Err(AutoNvmError::EmptyVersion);
    }
    let cleaned = strip_leading_str(version, 'v');
    if str_eq(cleaned, "lts") || str_eq(cleaned, "node") || str_eq(cleaned, "stable") || str_eq(
        cleaned,
        "latest",
    ) {
        return Result::Ok(());
    }
    let parts = split_str(cleaned, '.');
    let ghost pd = parts.deep_view();
    proof {
        assert(pd.len() == parts@.len());
    }
    if parts.len() > 3 {
        proof {
            assert(!spec_keyword(strip_leading(version@, 'v')));
            assert(!spec_numeric_version(strip_leading(version@, 'v')));
            assert(!spec_valid_version(version@));
        }
        return Result::Err(AutoNvmError::InvalidVersion);
    }
    let mut i: usize = 0;
    while i < parts.len()
        invariant
            i <= pd.len(),
            pd == parts.deep_view(),
            pd == split_on(strip_leading(version@, 'v'), '.'),
            pd.len() <= 3,
            version@.len() > 0,
            !spec_keyword(strip_leading(version@, 'v')),
            forall|k: int| 0 <= k < i ==> (#[trigger] pd[k]).len() > 0 && all_digits(pd[k]),
        decreases pd.len() - i,
    {
        let pc = chars_of(parts[i].as_str());
        proof {
            assert(pd[i as int] == parts@[i as int]@);
        }
        if pc.len() == 0 {
            proof {
                assert(pd[i as int].len() == 0);
                assert(!spec_numeric_version(strip_leading(version@, 'v')));
            }
            return Result::Err(AutoNvmError::InvalidVersion);
        }
        let mut j: usize = 0;
        while j < pc.len()
            invariant
                j <= pc@.len(),
                pc@ == pd[i as int],
                i < pd.len(),
                pd == split_on(strip_leading(version@, 'v'), '.'),
                version@.len() > 0,
                !spec_keyword(strip_leading(version@, 'v')),
                forall|k: int| 0 <= k < j ==> is_digit(#[trigger] pc@[k]),
            decreases pc@.len() - j,
        {
            let ch = pc[j];
            if !(ch >= '0' && ch <= '9') {
                proof {
                    assert(!is_digit(pd[i as int][j as int]));
                    assert(!all_digits(pd[i as int]));
                    assert(!spec_numeric_version(strip_leading(version@, 'v')));
                }
                return Result::Err(AutoNvmError::InvalidVersion);
            }
            j = j + 1;
        }
        assert(all_digits(pd[i as int]));
        i = i + 1;
    }
    Result::Ok(())
}

} // verus!
