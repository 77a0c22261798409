//! PATH-entry scanning and removal across shell startup files.
//!
//! Uninstalling must clean every shell's startup file, not only the
//! detected shell's, so the scan runs over all candidate files.  A line
//! qualifies by a heuristic substring test (not shell parsing): this can
//! false-positive on unrelated lines that contain `PATH=`, which is a
//! documented design limit, not a defect.

use crate::text::{
    contains_str, has_substring, join_lines, join_on, split_on, split_str, str_eq, trim_str,
    trimmed,
};
use vstd::prelude::*;
use vstd::string::StrSliceExecFns;
use vstd::string::StringExecFns;

verus! {

/// Spec-level image of a located PATH-export line.
pub ghost struct PathEntryModel {
    pub file_path: Seq<char>,
    pub line_number: int,
    pub line_content: Seq<char>,
    pub install_dir: Seq<char>,
}

/// A located PATH-export occurrence: the startup file it sits in, its
/// 1-based line number, the raw line text, and the install directory
/// string the line references.  Recomputed on every run; never persisted.
#[derive(Debug, Clone)]
pub struct PathEntry {
    pub file_path: String,
    pub line_number: usize,
    pub line_content: String,
    pub install_dir: String,
}

impl View for PathEntry {
    type V = PathEntryModel;

    open spec fn view(&self) -> PathEntryModel {
        PathEntryModel {
            file_path: self.file_path@,
            line_number: self.line_number as int,
            line_content: self.line_content@,
            install_dir: self.install_dir@,
        }
    }
}

impl DeepView for PathEntry {
    type V = PathEntryModel;

    open spec fn deep_view(&self) -> PathEntryModel {
        self@
    }
}

/// Spec-level image of a startup file's path and content.
pub ghost struct ConfigFileModel {
    pub path: Seq<char>,
    pub content: Seq<char>,
}

/// A startup file's path together with its content, as read (or about to
/// be written) by the outer layer.
#[derive(Debug, Clone)]
pub struct ConfigFileData {
    pub path: String,
    pub content: String,
}

impl View for ConfigFileData {
    type V = ConfigFileModel;

    open spec fn view(&self) -> ConfigFileModel {
        ConfigFileModel { path: self.path@, content: self.content@ }
    }
}

impl DeepView for ConfigFileData {
    type V = ConfigFileModel;

    open spec fn deep_view(&self) -> ConfigFileModel {
        self@
    }
}

/// A line is a PATH-export statement: not a comment, and holding one of
/// the known export patterns (a heuristic substring test).
pub open spec fn spec_is_path_export_line(l: Seq<char>) -> bool {
    let t = trimmed(l);
    &&& !(t.len() > 0 && t[0] == '#')
    &&& {
        ||| has_substring(t, "export PATH="@)
        ||| has_substring(t, "PATH="@)
        ||| has_substring(t, "set -gx PATH"@)
        ||| has_substring(t, "set PATH"@)
    }
}

/// Check whether a line is a PATH-export statement.
pub fn is_path_export_line(line: &str) -> (r: bool)
    ensures
        r == spec_is_path_export_line(line@),
{
    let t = trim_str(line);
    if t.unicode_len() > 0 {
        if t.get_char(0) == '#' {
            return false;
        }
    }
    if contains_str(t, "export PATH=") {
        return true;
    }
    if contains_str(t, "PATH=") {
        return true;
    }
    if contains_str(t, "set -gx PATH") {
        return true;
    }
    if contains_str(t, "set PATH") {
        return true;
    }
    false
}

/// A line yields an entry: non-blank, no comment, a PATH-export statement,
/// and it references one of the install directories.
pub open spec fn line_qualifies(l: Seq<char>, dirs: Seq<Seq<char>>) -> bool {
    &&& trimmed(l).len() > 0
    &&& trimmed(l)[0] != '#'
    &&& spec_is_path_export_line(l)
    &&& exists|j: int| 0 <= j < dirs.len() && has_substring(trimmed(l), #[trigger] dirs[j])
}

/// The first install directory of `dirs` that `t` references; a line
/// yields at most one entry, for this directory.
pub open spec fn first_dir(t: Seq<char>, dirs: Seq<Seq<char>>) -> Seq<char>
    decreases dirs.len(),
{
    if dirs.len() == 0 {
        Seq::empty()
    } else if has_substring(t, dirs[0]) {
        dirs[0]
    } else {
        first_dir(t, dirs.skip(1))
    }
}

/// `first_dir` returns `dirs[j]` when `j` is the first index whose
/// directory `t` references.
pub proof fn lemma_first_dir(t: Seq<char>, dirs: Seq<Seq<char>>, j: int)
    requires
        0 <= j < dirs.len(),
        has_substring(t, dirs[j]),
        forall|k: int| 0 <= k < j ==> !has_substring(t, #[trigger] dirs[k]),
    ensures
        first_dir(t, dirs) == dirs[j],
    decreases j,
{
    if j == 0 {
    } else {
        assert(forall|k: int| 0 <= k < j - 1 ==> dirs.skip(1)[k] == dirs[k + 1]);
        lemma_first_dir(t, dirs.skip(1), j - 1);
    }
}

/// The entries that a scan of `lines` (1-indexed) in the file at `path`
/// yields, given the known install directories.
pub open spec fn spec_entries(path: Seq<char>, lines: Seq<Seq<char>>, dirs: Seq<Seq<char>>) -> Seq<
    PathEntryModel,
>
    decreases lines.len(),
{
    if lines.len() == 0 {
        Seq::empty()
    } else {
        let front = spec_entries(path, lines.drop_last(), dirs);
        let l = lines.last();
        if line_qualifies(l, dirs) {
            front.push(
                PathEntryModel {
                    file_path: path,
                    line_number: lines.len() as int,
                    line_content: l,
                    install_dir: first_dir(trimmed(l), dirs),
                },
            )
        } else {
            front
        }
    }
}

/// Index of the first install directory that `t` references.
fn first_matching_dir(t: &str, install_dirs: &Vec<String>) -> (r: Option<usize>)
    ensures
        r is None ==> forall|k: int|
            0 <= k < install_dirs.deep_view().len() ==> !has_substring(
                t@,
                #[trigger] install_dirs.deep_view()[k],
            ),
        r matches Some(j) ==> {
            &&& j < install_dirs.deep_view().len()
            &&& has_substring(t@, install_dirs.deep_view()[j as int])
            &&& forall|k: int|
                0 <= k < j ==> !has_substring(t@, #[trigger] install_dirs.deep_view()[k])
        },
{
    let ghost dirs = install_dirs.deep_view();
    let mut j: usize = 0;
    while j < install_dirs.len()
        invariant
            j <= dirs.len(),
            dirs == install_dirs.deep_view(),
            forall|k: int| 0 <= k < j ==> !has_substring(t@, #[trigger] dirs[k]),
        decreases dirs.len() - j,
    {
        proof {
            assert(dirs[j as int] == install_dirs@[j as int]@);
        }
        if contains_str(t, install_dirs[j].as_str()) {
            return Option::Some(j);
        }
        j = j + 1;
    }
    Option::None
}

/// Scan one file's content for PATH-export lines that reference one of the
/// given install directories; one entry per qualifying line, carrying the
/// first referenced directory.
pub fn find_path_entries_in_file(
    file_path: &str,
    content: &str,
    install_dirs: &Vec<String>,
) -> (r: Vec<PathEntry>)
    ensures
        r.deep_view() == spec_entries(file_path@, split_on(content@, '\n'), install_dirs.deep_view()),
{
    let lines = split_str(content, '\n');
    let ghost ls = lines.deep_view();
    let ghost dirs = install_dirs.deep_view();
    let mut r: Vec<PathEntry> = Vec::new();
    let mut i: usize = 0;
    proof {
        assert(r.deep_view() =~~= spec_entries(file_path@, ls.take(0), dirs));
    }
    while i < lines.len()
        invariant
            i <= ls.len(),
            ls == lines.deep_view(),
            dirs == install_dirs.deep_view(),
            r.deep_view() == spec_entries(file_path@, ls.take(i as int), dirs),
        decreases ls.len() - i,
    {
        proof {
            assert(ls.take(i as int + 1).drop_last() =~~= ls.take(i as int));
            assert(ls.take(i as int + 1).last() == ls[i as int]);
            assert(ls[i as int] == lines@[i as int]@);
        }
        let line = lines[i].as_str();
        let t = trim_str(line);
        let mut qualifies = false;
        if t.unicode_len() > 0 {
            if t.get_char(0) != '#' {
                if is_path_export_line(line) {
                    qualifies = true;
                }
            }
        }
        if qualifies {
            match first_matching_dir(t, install_dirs) {
                Option::Some(j) => {
                    let ghost prev = r.deep_view();
                    let entry = PathEntry {
                        file_path: file_path.to_owned(),
                        line_number: i + 1,
                        line_content: lines[i].clone(),
                        install_dir: install_dirs[j].clone(),
                    };
                    r.push(entry);
                    proof {
                        assert(dirs[j as int] == install_dirs@[j as int]@);
                        lemma_first_dir(trimmed(ls[i as int]), dirs, j as int);
                        assert(line_qualifies(ls[i as int], dirs));
                        assert(r.deep_view() =~~= prev.push(
                            PathEntryModel {
                                file_path: file_path@,
                                line_number: i + 1,
                                line_content: ls[i as int],
                                install_dir: first_dir(trimmed(ls[i as int]), dirs),
                            },
                        ));
                    }
                },
                Option::None => {
                    proof {
                        assert(!line_qualifies(ls[i as int], dirs));
                    }
                },
            }
        } else {
            proof {
                assert(!line_qualifies(ls[i as int], dirs));
            }
        }
        i = i + 1;
    }
    proof {
        assert(ls.take(ls.len() as int) =~~= ls);
    }
    r
}

/// The entries that a scan of all given files yields, in file order.
pub open spec fn spec_all_entries(files: Seq<ConfigFileModel>, dirs: Seq<Seq<char>>) -> Seq<
    PathEntryModel,
>
    decreases files.len(),
{
    if files.len() == 0 {
        Seq::empty()
    } else {
        spec_all_entries(files.drop_last(), dirs) + spec_entries(
            files.last().path,
            split_on(files.last().content, '\n'),
            dirs,
        )
    }
}

/// Scan the given startup files (every dialect's, as handed in by the
/// caller; files missing on disk are simply not passed) for PATH-export
/// lines referencing one of the install directories.
pub fn find_path_entries(files: &Vec<ConfigFileData>, install_dirs: &Vec<String>) -> (r: Vec<
    PathEntry,
>)
    ensures
        r.deep_view() == spec_all_entries(files.deep_view(), install_dirs.deep_view()),
{
    let ghost fs = files.deep_view();
    let ghost dirs = install_dirs.deep_view();
    let mut r: Vec<PathEntry> = Vec::new();
    let mut i: usize = 0;
    proof {
        assert(r.deep_view() =~~= spec_all_entries(fs.take(0), dirs));
    }
    while i < files.len()
        invariant
            i <= fs.len(),
            fs == files.deep_view(),
            dirs == install_dirs.deep_view(),
            r.deep_view() == spec_all_entries(fs.take(i as int), dirs),
        decreases fs.len() - i,
    {
        let ghost prev = r.deep_view();
        proof {
            assert(fs.take(i as int + 1).drop_last() =~~= fs.take(i as int));
            assert(fs.take(i as int + 1).last() == fs[i as int]);
            assert(fs[i as int] == files@[i as int]@);
        }
        let mut fe = find_path_entries_in_file(
            files[i].path.as_str(),
            files[i].content.as_str(),
            install_dirs,
        );
        let ghost fed = fe.deep_view();
        r.append(&mut fe);
        proof {
            assert(r.deep_view() =~~= prev + fed);
        }
        i = i + 1;
    }
    proof {
        assert(fs.take(fs.len() as int) =~~= fs);
    }
    r
}

/// Some entry names the 1-based line number `n`.
pub open spec fn line_listed(entries: Seq<PathEntryModel>, n: int) -> bool {
    exists|j: int| 0 <= j < entries.len() && (#[trigger] entries[j]).line_number == n
}

/// The lines that survive a removal: exactly those whose 1-based number no
/// entry names, in their original order.
pub open spec fn keep_lines(lines: Seq<Seq<char>>, entries: Seq<PathEntryModel>) -> Seq<Seq<char>>
    decreases lines.len(),
{
    if lines.len() == 0 {
        Seq::empty()
    } else {
        let front = keep_lines(lines.drop_last(), entries);
        if line_listed(entries, lines.len() as int) {
            front
        } else {
            front.push(lines.last())
        }
    }
}

/// Does some entry name line number `n`?
fn is_listed(entries: &Vec<PathEntry>, n: usize) -> (r: bool)
    ensures
        r == line_listed(entries.deep_view(), n as int),
{
    let ghost ed = entries.deep_view();
    let mut j: usize = 0;
    while j < entries.len()
        invariant
            j <= ed.len(),
            ed == entries.deep_view(),
            forall|k: int| 0 <= k < j ==> (#[trigger] ed[k]).line_number != n,
        decreases ed.len() - j,
    {
        proof {
            assert(ed[j as int] == entries@[j as int]@);
        }
        if entries[j].line_number == n {
            return true;
        }
        j = j + 1;
    }
    false
}

/// Delete the lines that `entries` name (1-based) from `content` and join
/// what remains with newlines.  The result has no guaranteed trailing
/// newline; entries whose line number lies past the end name no line and
/// change nothing.
pub fn remove_path_entries_from_file(content: &str, entries: &Vec<PathEntry>) -> (r: String)
    ensures
        r@ == join_on(keep_lines(split_on(content@, '\n'), entries.deep_view()), '\n'),
{
    let lines = split_str(content, '\n');
    let ghost ls = lines.deep_view();
    let ghost ed = entries.deep_view();
    let mut out: Vec<String> = Vec::new();
    let mut i: usize = 0;
    proof {
        assert(out.deep_view() =~~= keep_lines(ls.take(0), ed));
    }
    while i < lines.len()
        invariant
            i <= ls.len(),
            ls == lines.deep_view(),
            ed == entries.deep_view(),
            out.deep_view() == keep_lines(ls.take(i as int), ed),
        decreases ls.len() - i,
    {
        proof {
            assert(ls.take(i as int + 1).drop_last() =~~= ls.take(i as int));
            assert(ls.take(i as int + 1).last() == ls[i as int]);
            assert(ls[i as int] == lines@[i as int]@);
        }
        if !is_listed(entries, i + 1) {
            let ghost prev = out.deep_view();
            out.push(lines[i].clone());
            proof {
                assert(out.deep_view() =~~= prev.push(ls[i as int]));
            }
        }
        i = i + 1;
    }
    proof {
        assert(ls.take(ls.len() as int) =~~= ls);
    }
    join_lines(&out)
}

/// The entries that name the file at `path`, in their original order.
pub open spec fn entries_for(entries: Seq<PathEntryModel>, path: Seq<char>) -> Seq<PathEntryModel>
    decreases entries.len(),
{
    if entries.len() == 0 {
        Seq::empty()
    } else {
        let front = entries_for(entries.drop_last(), path);
        if entries.last().file_path == path {
            front.push(entries.last())
        } else {
            front
        }
    }
}

/// The files a removal rewrites: each given file with at least one entry,
/// with that file's listed lines deleted.  Files with no entry are left
/// untouched (they do not appear in the result and must not be rewritten).
pub open spec fn spec_removed_files(files: Seq<ConfigFileModel>, entries: Seq<PathEntryModel>) -> Seq<
    ConfigFileModel,
>
    decreases files.len(),
{
    if files.len() == 0 {
        Seq::empty()
    } else {
        let front = spec_removed_files(files.drop_last(), entries);
        let f = files.last();
        let fe = entries_for(entries, f.path);
        if fe.len() > 0 {
            front.push(
                ConfigFileModel {
                    path: f.path,
                    content: join_on(keep_lines(split_on(f.content, '\n'), fe), '\n'),
                },
            )
        } else {
            front
        }
    }
}

/// Copy one entry field by field.
fn clone_entry(e: &PathEntry) -> (r: PathEntry)
    ensures
        r@ == e@,
{
    PathEntry {
        file_path: e.file_path.clone(),
        line_number: e.line_number,
        line_content: e.line_content.clone(),
        install_dir: e.install_dir.clone(),
    }
}

/// Group `entries` by file and rewrite each named file with its listed
/// lines deleted; returns the new content of exactly the files that had
/// entries, in the order of `files`.
pub fn remove_path_entries(files: &Vec<ConfigFileData>, entries: &Vec<PathEntry>) -> (r: Vec<
    ConfigFileData,
>)
    ensures
        r.deep_view() == spec_removed_files(files.deep_view(), entries.deep_view()),
{
    let ghost fs = files.deep_view();
    let ghost ed = entries.deep_view();
    let mut r: Vec<ConfigFileData> = Vec::new();
    let mut i: usize = 0;
    proof {
        assert(r.deep_view() =~~= spec_removed_files(fs.take(0), ed));
    }
    while i < files.len()
        invariant
            i <= fs.len(),
            fs == files.deep_view(),
            ed == entries.deep_view(),
            r.deep_view() == spec_removed_files(fs.take(i as int), ed),
        decreases fs.len() - i,
    {
        proof {
            assert(fs.take(i as int + 1).drop_last() =~~= fs.take(i as int));
            assert(fs.take(i as int + 1).last() == fs[i as int]);
            assert(fs[i as int] == files@[i as int]@);
        }
        let mut filtered: Vec<PathEntry> = Vec::new();
        let mut j: usize = 0;
        proof {
            assert(filtered.deep_view() =~~= entries_for(ed.take(0), fs[i as int].path));
        }
        while j < entries.len()
            invariant
                j <= ed.len(),
                i < fs.len(),
                fs == files.deep_view(),
                ed == entries.deep_view(),
                filtered.deep_view() == entries_for(ed.take(j as int), fs[i as int].path),
            decreases ed.len() - j,
        {
            proof {
                assert(ed.take(j as int + 1).drop_last() =~~= ed.take(j as int));
                assert(ed.take(j as int + 1).last() == ed[j as int]);
                assert(ed[j as int] == entries@[j as int]@);
                assert(fs[i as int] == files@[i as int]@);
            }
            if str_eq(entries[j].file_path.as_str(), files[i].path.as_str()) {
                let ghost prev = filtered.deep_view();
                filtered.push(clone_entry(&entries[j]));
                proof {
                    assert(filtered.deep_view() =~~= prev.push(ed[j as int]));
                }
            }
            j = j + 1;
        }
        proof {
            assert(ed.take(ed.len() as int) =~~= ed);
        }
        if filtered.len() > 0 {
            let new_content = remove_path_entries_from_file(files[i].content.as_str(), &filtered);
            let ghost prev = r.deep_view();
            r.push(ConfigFileData { path: files[i].path.clone(), content: new_content });
            proof {
                assert(r.deep_view() =~~= prev.push(
                    ConfigFileModel {
                        path: fs[i as int].path,
                        content: join_on(
                            keep_lines(
                                split_on(fs[i as int].content, '\n'),
                                entries_for(ed, fs[i as int].path),
                            ),
                            '\n',
                        ),
                    },
                ));
            }
        } else {
            proof {
                assert(entries_for(ed, fs[i as int].path).len() == 0);
            }
        }
        i = i + 1;
    }
    proof {
        assert(fs.take(fs.len() as int) =~~= fs);
    }
    r
}

/// Append `suffix` to `home`.
fn home_join(home: &str, suffix: &str) -> (r: String)
    ensures
        r@ == home@ + suffix@,
{
    let mut p = home.to_owned();
    p.append(suffix);
    p
}

/// The directories this tool may have been installed to: the default
/// install directory, the environment-override directory when the caller
/// read one, and the other common per-user binary directories.
pub fn get_possible_install_dirs(home: &str, override_dir: &Option<String>) -> (r: Vec<String>)
    ensures
        override_dir is None ==> r.deep_view() == seq![
            home@ + "/.local/bin"@,
            home@ + "/bin"@,
            home@ + "/.bin"@,
        ],
        override_dir matches Some(d) ==> r.deep_view() == seq![
            home@ + "/.local/bin"@,
            d@,
            home@ + "/bin"@,
            home@ + "/.bin"@,
        ],
{
    let mut r: Vec<String> = Vec::new();
    r.push(home_join(home, "/.local/bin"));
    match override_dir {
        Option::Some(d) => {
            r.push(d.clone());
        },
        Option::None => {},
    }
    r.push(home_join(home, "/bin"));
    r.push(home_join(home, "/.bin"));
    proof {
        if override_dir is None {
            assert(r.deep_view() =~~= seq![home@ + "/.local/bin"@, home@ + "/bin"@, home@ + "/.bin"@]);
        } else {
            let d = override_dir.unwrap();
            assert(r.deep_view() =~~= seq![
                home@ + "/.local/bin"@,
                d@,
                home@ + "/bin"@,
                home@ + "/.bin"@,
            ]);
        }
    }
    r
}

/// The candidate startup files of every dialect under `home`: uninstall
/// cleans each shell's configuration, whichever shell is active.
pub fn get_shell_config_files(home: &str) -> (r: Vec<String>)
    ensures
        r.deep_view() == seq![
            home@ + "/.bashrc"@,
            home@ + "/.bash_profile"@,
            home@ + "/.profile"@,
            home@ + "/.zshrc"@,
            home@ + "/.zprofile"@,
            home@ + "/.config/fish/config.fish"@,
        ],
{
    let mut r: Vec<String> = Vec::new();
    r.push(home_join(home, "/.bashrc"));
    r.push(home_join(home, "/.bash_profile"));
    r.push(home_join(home, "/.profile"));
    r.push(home_join(home, "/.zshrc"));
    r.push(home_join(home, "/.zprofile"));
    r.push(home_join(home, "/.config/fish/config.fish"));
    proof {
        assert(r.deep_view() =~~= seq![
            home@ + "/.bashrc"@,
            home@ + "/.bash_profile"@,
            home@ + "/.profile"@,
            home@ + "/.zshrc"@,
            home@ + "/.zprofile"@,
            home@ + "/.config/fish/config.fish"@,
        ]);
    }
    r
}

} // verus!
