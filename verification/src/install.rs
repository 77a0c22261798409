//! Block installer and remover: append the integration block to a startup
//! file's content, strip it out again, and plan the backup that must be
//! written before any mutation.
//!
//! All functions here work on file *content*; reading and writing the
//! actual files is the unverified outer layer's job.  That layer must
//! write the planned backup before the new content, and must write the new
//! content atomically (write to a temporary file, then rename).

use crate::codec::{
    begin_marker, block_lines, check_already_configured, end_marker, extract_block_span,
    generate_integration_script, lemma_block_lines_wf, lemma_script_first, lemma_split_script,
    spec_begin_idx, spec_end_idx, spec_integration_script,
};
use crate::shell::ShellType;
use crate::text::{
    find_line, has_substring, join_lines, join_on, lemma_find_line, lemma_has_substring_extend,
    lemma_join_split, lemma_prefix_has_substring, lemma_split_app, lemma_split_ends_sep,
    lemma_split_len, lemma_split_piece_contained, split_on, split_str,
};
use crate::AutoNvmError;
use vstd::prelude::*;
use vstd::string::StrSliceExecFns;
use vstd::string::StringExecFns;

verus! {

/// `script` appended to `c`, preceded by a blank separator line when `c` is
/// non-empty (and by the newline that ends `c`'s last line when missing).
pub open spec fn spec_append_sep(c: Seq<char>, script: Seq<char>) -> Seq<char> {
    if c.len() == 0 {
        script
    } else if c.last() == '\n' {
        c + seq!['\n'] + script
    } else {
        c + seq!['\n', '\n'] + script
    }
}

/// The content of a startup file after installing the block for `shell`:
/// unchanged when the block is already present, otherwise the script is
/// appended behind a blank separator line.
pub open spec fn spec_installed(c: Seq<char>, shell: ShellType) -> Seq<char> {
    if has_substring(c, begin_marker()) {
        c
    } else {
        spec_append_sep(c, spec_integration_script(shell))
    }
}

/// Append `script` to `content` behind a blank separator line.
pub fn append_to_config_file(content: &str, script: &str) -> (r: String)
    ensures
        r@ == spec_append_sep(content@, script@),
{
    let n = content.unicode_len();
    if n == 0 {
        return script.to_owned();
    }
    let mut out = content.to_owned();
    if content.get_char(n - 1) == '\n' {
        out.append("\n");
    } else {
        out.append("\n\n");
    }
    out.append(script);
    proof {
        reveal_strlit("\n");
        reveal_strlit("\n\n");
        assert("\n"@ =~= seq!['\n']);
        assert("\n\n"@ =~= seq!['\n', '\n']);
    }
    out
}

/// What an installation must do to the startup file: the backup to write
/// first (if any), and the content to write afterwards.
pub struct InstallPlan {
    /// The block is already present; nothing may be written.
    pub already_configured: bool,
    /// Exact content to store beside the file before mutating it; `None`
    /// when the file did not previously exist or nothing will be written.
    pub backup: Option<String>,
    /// The content the startup file must hold afterwards.
    pub new_content: String,
}

/// Plan the installation of the integration block for `shell` into a
/// startup file whose current content is `existing` (`None`: the file does
/// not exist yet and is treated as empty).  A pre-existing file that will
/// be mutated is always backed up, and the backup equals the pre-install
/// content exactly.
pub fn install_integration(existing: &Option<String>, shell: ShellType) -> (r: InstallPlan)
    ensures
        existing is None ==> {
            &&& !r.already_configured
            &&& r.backup is None
            &&& r.new_content@ == spec_integration_script(shell)
        },
        existing matches Some(c) ==> {
            &&& has_substring(c@, begin_marker()) ==> {
                &&& r.already_configured
                &&& r.backup is None
                &&& r.new_content@ == c@
            }
            &&& !has_substring(c@, begin_marker()) ==> {
                &&& !r.already_configured
                &&& (r.backup matches Some(bk) && bk@ == c@)
                &&& r.new_content@ == spec_installed(c@, shell)
            }
        },
{
    match existing {
        Option::None => {
            let script = generate_integration_script(shell);
            InstallPlan { already_configured: false, backup: Option::None, new_content: script }
        },
        Option::Some(c) => {
            if check_already_configured(c.as_str()) {
                InstallPlan {
                    already_configured: true,
                    backup: Option::None,
                    new_content: c.clone(),
                }
            } else {
                let script = generate_integration_script(shell);
                let new_content = append_to_config_file(c.as_str(), script.as_str());
                InstallPlan {
                    already_configured: false,
                    backup: Option::Some(c.clone()),
                    new_content,
                }
            }
        },
    }
}

/// The sibling path that the pre-mutation copy of `path` is written to.
/// Backups are never deleted by this crate.
pub fn backup_file_path(path: &str) -> (r: String)
    ensures
        r@ == path@ + ".backup"@,
{
    let mut p = path.to_owned();
    p.append(".backup");
    p
}

/// Line index where removal starts: the begin-marker line, or the blank
/// separator line directly before it when one is present.
pub open spec fn spec_remove_start(c: Seq<char>) -> int {
    let ls = split_on(c, '\n');
    let b = spec_begin_idx(c);
    if b > 0 && ls[b - 1].len() == 0 {
        b - 1
    } else {
        b
    }
}

/// The content after deleting the lines from the begin marker (and a blank
/// separator line directly before it) through the end marker, inclusive.
pub open spec fn spec_removed(c: Seq<char>) -> Seq<char> {
    let ls = split_on(c, '\n');
    join_on(ls.take(spec_remove_start(c)) + ls.skip(spec_end_idx(c) + 1), '\n')
}

/// Strip the integration block out of `content`.  Returns the new content
/// and whether anything was removed: `(content, false)` when no begin
/// marker occurs, and an error when a begin marker occurs without a
/// begin-marker line followed by an end-marker line.
pub fn remove_integration_from_config(content: &str) -> (r: Result<(String, bool), AutoNvmError>)
    ensures
        !has_substring(content@, begin_marker()) ==> (r matches Ok(p) && p.0@ == content@ && p.1
            == false),
        has_substring(content@, begin_marker()) && (spec_begin_idx(content@) == -1 || spec_end_idx(
            content@,
        ) == -1) ==> r == Result::<(String, bool), AutoNvmError>::Err(AutoNvmError::CorruptMarkers),
        has_substring(content@, begin_marker()) && spec_begin_idx(content@) != -1 && spec_end_idx(
            content@,
        ) != -1 ==> (r matches Ok(p) && p.0@ == spec_removed(content@) && p.1 == true),
{
    if !check_already_configured(content) {
        return Result::Ok((content.to_owned(), false));
    }
    match extract_block_span(content) {
        Option::None => Result::Err(AutoNvmError::CorruptMarkers),
        Option::Some((b, e)) => {
            let lines = split_str(content, '\n');
            let ghost ls = lines.deep_view();
            let start = if b > 0 && lines[b - 1].as_str().unicode_len() == 0 {
                b - 1
            } else {
                b
            };
            proof {
                assert(start as int == spec_remove_start(content@));
            }
            let mut out: Vec<String> = Vec::new();
            let mut i: usize = 0;
            proof {
                assert(out.deep_view() =~~= ls.take(0));
            }
            while i < start
                invariant
                    i <= start,
                    start <= ls.len(),
                    ls == lines.deep_view(),
                    out.deep_view() == ls.take(i as int),
                decreases start - i,
            {
                let ghost prev = out.deep_view();
                out.push(lines[i].clone());
                proof {
                    assert(out.deep_view() =~~= prev.push(ls[i as int]));
                    assert(out.deep_view() =~~= ls.take(i as int + 1));
                }
                i = i + 1;
            }
            let mut j: usize = e + 1;
            while j < lines.len()
                invariant
                    e + 1 <= j <= ls.len(),
                    start <= ls.len(),
                    ls == lines.deep_view(),
                    out.deep_view() == ls.take(start as int) + ls.subrange(e + 1, j as int),
                decreases ls.len() - j,
            {
                let ghost prev = out.deep_view();
                out.push(lines[j].clone());
                proof {
                    assert(out.deep_view() =~~= prev.push(ls[j as int]));
                    assert(out.deep_view() =~~= ls.take(start as int) + ls.subrange(
                        e + 1,
                        j as int + 1,
                    ));
                }
                j = j + 1;
            }
            proof {
                assert(out.deep_view() =~~= ls.take(start as int) + ls.skip(e as int + 1));
            }
            let joined = join_lines(&out);
            Result::Ok((joined, true))
        },
    }
}

/// Installing is idempotent: installing into content that already holds the
/// block (in particular, into the result of an earlier installation)
/// changes nothing.
pub proof fn lemma_install_idempotent(c: Seq<char>, shell: ShellType)
    ensures
        spec_installed(spec_installed(c, shell), shell) == spec_installed(c, shell),
{
    if !has_substring(c, begin_marker()) {
        let script = spec_integration_script(shell);
        lemma_block_lines_wf(shell);
        lemma_script_first(block_lines(shell));
        lemma_prefix_has_substring(script, begin_marker());
        let inst = spec_installed(c, shell);
        if c.len() == 0 {
            assert(has_substring(inst, begin_marker()));
        } else if c.last() == '\n' {
            lemma_has_substring_extend(
                c + seq!['\n'],
                script,
                Seq::<char>::empty(),
                begin_marker(),
            );
            assert((c + seq!['\n']) + script + Seq::<char>::empty() =~= inst);
        } else {
            lemma_has_substring_extend(
                c + seq!['\n', '\n'],
                script,
                Seq::<char>::empty(),
                begin_marker(),
            );
            assert((c + seq!['\n', '\n']) + script + Seq::<char>::empty() =~= inst);
        }
        assert(has_substring(inst, begin_marker()));
    }
}

/// Removing after installing restores the original content byte for byte,
/// for content that holds no begin marker and is empty or newline
/// terminated (content whose last line lacks its newline gains one from
/// the line-based removal, so it is excluded here).
pub proof fn lemma_install_remove_round_trip(c: Seq<char>, shell: ShellType)
    requires
        !has_substring(c, begin_marker()),
        c.len() == 0 || c.last() == '\n',
    ensures
        ({
            let inst = spec_installed(c, shell);
            &&& has_substring(inst, begin_marker())
            &&& spec_begin_idx(inst) != -1
            &&& spec_end_idx(inst) != -1
            &&& spec_removed(inst) == c
        }),
{
    lemma_block_lines_wf(shell);
    let bl = block_lines(shell);
    let k = bl.len() as int;
    let script = spec_integration_script(shell);
    lemma_script_first(bl);
    lemma_prefix_has_substring(script, begin_marker());
    lemma_split_script(bl);
    let inst = spec_installed(c, shell);
    if c.len() == 0 {
        assert(inst == script);
        assert(has_substring(inst, begin_marker()));
        let ls = split_on(inst, '\n');
        assert(ls =~~= bl.push(Seq::<char>::empty()));
        assert(ls[0] == begin_marker());
        assert(find_line(ls, begin_marker()) == 0);
        assert(spec_begin_idx(inst) == 0);
        assert(ls.skip(0) =~~= ls);
        lemma_find_line(ls, end_marker());
        let f = find_line(ls, end_marker());
        assert(ls[k - 1] == end_marker());
        if f == -1 {
            assert(ls[k - 1] != end_marker());
        }
        assert(f >= 0);
        if f < k - 1 {
            if f == 0 {
                assert(ls[0] == begin_marker());
            } else {
                assert(ls[f] == bl[f]);
            }
            assert(false);
        }
        if f > k - 1 {
            assert(ls[k - 1] != end_marker());
            assert(false);
        }
        assert(spec_end_idx(inst) == k - 1);
        assert(spec_remove_start(inst) == 0);
        assert(ls.take(0) + ls.skip(k) =~~= seq![Seq::<char>::empty()]);
        assert(join_on(seq![Seq::<char>::empty()], '\n') == Seq::<char>::empty());
        assert(spec_removed(inst) =~= c);
    } else {
        assert(inst =~= c + seq!['\n'] + script);
        lemma_has_substring_extend(c + seq!['\n'], script, Seq::<char>::empty(), begin_marker());
        assert((c + seq!['\n']) + script + Seq::<char>::empty() =~= inst);
        assert(has_substring(inst, begin_marker()));
        lemma_split_app(c, script, '\n');
        let big = split_on(c + seq!['\n'] + script, '\n');
        let ls = split_on(inst, '\n');
        assert(ls == big);
        let bigl = split_on(c, '\n');
        lemma_split_len(c, '\n');
        let m = bigl.len() as int;
        assert(ls =~~= bigl + bl.push(Seq::<char>::empty()));
        assert forall|i: int| 0 <= i < m implies bigl[i] != begin_marker() by {
            if bigl[i] == begin_marker() {
                lemma_split_piece_contained(c, '\n', i);
            }
        }
        lemma_find_line(ls, begin_marker());
        let b = find_line(ls, begin_marker());
        assert(ls[m] == begin_marker());
        if b == -1 {
            assert(ls[m] != begin_marker());
        }
        assert(b >= 0);
        if b < m {
            assert(ls[b] == bigl[b]);
            assert(false);
        }
        if b > m {
            assert(ls[m] != begin_marker());
            assert(false);
        }
        assert(spec_begin_idx(inst) == m);
        let tail = ls.skip(m);
        assert(tail =~~= bl.push(Seq::<char>::empty()));
        lemma_find_line(tail, end_marker());
        let f = find_line(tail, end_marker());
        assert(tail[k - 1] == end_marker());
        if f == -1 {
            assert(tail[k - 1] != end_marker());
        }
        assert(f >= 0);
        if f < k - 1 {
            if f == 0 {
                assert(tail[0] == begin_marker());
            } else {
                assert(tail[f] == bl[f]);
            }
            assert(false);
        }
        if f > k - 1 {
            assert(tail[k - 1] != end_marker());
            assert(false);
        }
        let e = m + k - 1;
        assert(spec_end_idx(inst) == e);
        lemma_split_ends_sep(c, '\n');
        let head = split_on(c.take(c.len() - 1), '\n');
        assert(bigl == head + seq![Seq::<char>::empty()]);
        assert(m - 1 == head.len());
        assert(ls[m - 1] == Seq::<char>::empty());
        assert(spec_remove_start(inst) == m - 1);
        assert(ls.take(m - 1) =~~= head);
        assert(ls.skip(e + 1) =~~= seq![Seq::<char>::empty()]);
        assert(ls.take(m - 1) + ls.skip(e + 1) =~~= bigl);
        lemma_join_split(c, '\n');
        assert(spec_removed(inst) == c);
    }
}

} // verus!
