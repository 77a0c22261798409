//! Marker-block codec: generates the integration snippet for each dialect
//! and recognizes it inside a startup file's content.
//!
//! The snippet is a sequence of newline-terminated lines whose first line is
//! the begin marker and whose last line is the end marker.  The markers are
//! assumed never to appear in user-authored content, so presence is an exact
//! substring test and the block span is an exact marker-line-to-marker-line
//! range.

use crate::text::{
    contains_str, find_line, find_line_from, has_substring, join_on, lemma_split_app,
    lemma_split_len, lemma_split_no_sep, no_sep, split_on, split_str,
};
use vstd::prelude::*;
use vstd::string::StrSliceExecFns;
use vstd::string::StringExecFns;

use crate::shell::ShellType;

verus! {

/// The line that opens an integration block.
pub open spec fn begin_marker() -> Seq<char> {
    "# >>> auto-nvm >>>"@
}

/// The line that closes an integration block.
pub open spec fn end_marker() -> Seq<char> {
    "# <<< auto-nvm <<<"@
}

/// The begin marker as a string slice.
pub fn begin_marker_str() -> (r: &'static str)
    ensures
        r@ == begin_marker(),
{
    "# >>> auto-nvm >>>"
}

/// The end marker as a string slice.
pub fn end_marker_str() -> (r: &'static str)
    ensures
        r@ == end_marker(),
{
    "# <<< auto-nvm <<<"
}

/// The lines of the integration block of a dialect, markers included.
pub open spec fn block_lines(shell: ShellType) -> Seq<Seq<char>> {
    match shell {
        ShellType::Bash => seq![
            begin_marker(),
            "auto_nvm_hook() {"@,
            "  if [ -f \".nvmrc\" ]; then"@,
            "    eval \"$(auto-nvm switch --quiet)\""@,
            "  fi"@,
            "}"@,
            "cd() { builtin cd \"$@\" && auto_nvm_hook; }"@,
            "auto_nvm_hook"@,
            end_marker(),
        ],
        ShellType::Zsh => seq![
            begin_marker(),
            "auto_nvm_hook() {"@,
            "  if [ -f \".nvmrc\" ]; then"@,
            "    eval \"$(auto-nvm switch --quiet)\""@,
            "  fi"@,
            "}"@,
            "autoload -U add-zsh-hook"@,
            "add-zsh-hook chpwd auto_nvm_hook"@,
            "auto_nvm_hook"@,
            end_marker(),
        ],
        ShellType::Fish => seq![
            begin_marker(),
            "function auto_nvm_hook --on-variable PWD"@,
            "  if test -f \".nvmrc\""@,
            "    eval (auto-nvm switch --quiet)"@,
            "  end"@,
            "end"@,
            "auto_nvm_hook"@,
            end_marker(),
        ],
        ShellType::PowerShell => seq![
            begin_marker(),
            "function Invoke-AutoNvmHook {"@,
            "  if (Test-Path \".nvmrc\") {"@,
            "    auto-nvm switch --quiet | Invoke-Expression"@,
            "  }"@,
            "}"@,
            "Invoke-AutoNvmHook"@,
            end_marker(),
        ],
    }
}

/// The byte sequence of a block: every line followed by one newline.
pub open spec fn script_of_lines(ls: Seq<Seq<char>>) -> Seq<char>
    decreases ls.len(),
{
    if ls.len() == 0 {
        Seq::empty()
    } else {
        ls[0] + seq!['\n'] + script_of_lines(ls.skip(1))
    }
}

/// The full integration snippet of a dialect.
pub open spec fn spec_integration_script(shell: ShellType) -> Seq<char> {
    script_of_lines(block_lines(shell))
}

/// Well-formedness of a block's line list: it opens with the begin marker,
/// closes with the end marker, no line holds a newline, and no line between
/// the markers equals a marker.
pub open spec fn wf_block(ls: Seq<Seq<char>>) -> bool {
    &&& ls.len() >= 2
    &&& ls[0] == begin_marker()
    &&& ls.last() == end_marker()
    &&& begin_marker() != end_marker()
    &&& forall|i: int| 0 <= i < ls.len() ==> no_sep(#[trigger] ls[i], '\n')
    &&& forall|i: int| 0 < i < ls.len() - 1 ==> #[trigger] ls[i] != end_marker()
}

/// Appending one more line appends its text and a newline to the block.
pub proof fn lemma_script_snoc(ls: Seq<Seq<char>>, x: Seq<char>)
    ensures
        script_of_lines(ls.push(x)) == script_of_lines(ls) + x + seq!['\n'],
    decreases ls.len(),
{
    if ls.len() == 0 {
        let p = ls.push(x);
        assert(p.skip(1) =~~= Seq::<Seq<char>>::empty());
        assert(script_of_lines(p.skip(1)) == Seq::<char>::empty());
        assert(p[0] == x);
        assert(script_of_lines(p) == p[0] + seq!['\n'] + script_of_lines(p.skip(1)));
        assert(script_of_lines(ls.push(x)) =~= script_of_lines(ls) + x + seq!['\n']);
    } else {
        lemma_script_snoc(ls.skip(1), x);
        assert(ls.push(x).skip(1) =~~= ls.skip(1).push(x));
        assert(script_of_lines(ls.push(x)) =~= script_of_lines(ls) + x + seq!['\n']);
    }
}

/// Splitting a newline-free line followed by a newline peels off that line.
pub proof fn lemma_split_line(l: Seq<char>, rest: Seq<char>)
    requires
        no_sep(l, '\n'),
    ensures
        split_on(l + seq!['\n'] + rest, '\n') == seq![l] + split_on(rest, '\n'),
{
    lemma_split_app(l, rest, '\n');
    lemma_split_no_sep(l, '\n');
    assert(split_on(l + seq!['\n'] + rest, '\n') =~~= seq![l] + split_on(rest, '\n'));
}

/// Splitting a block of newline-terminated, newline-free lines yields those
/// lines followed by one final empty piece.
pub proof fn lemma_split_script(ls: Seq<Seq<char>>)
    requires
        forall|i: int| 0 <= i < ls.len() ==> no_sep(#[trigger] ls[i], '\n'),
    ensures
        split_on(script_of_lines(ls), '\n') == ls.push(Seq::<char>::empty()),
    decreases ls.len(),
{
    if ls.len() == 0 {
        assert(split_on(script_of_lines(ls), '\n') =~~= ls.push(Seq::<char>::empty()));
    } else {
        assert(forall|i: int|
            0 <= i < ls.skip(1).len() ==> no_sep(#[trigger] ls.skip(1)[i], '\n'));
        lemma_split_script(ls.skip(1));
        lemma_split_line(ls[0], script_of_lines(ls.skip(1)));
        assert(split_on(script_of_lines(ls), '\n') =~~= ls.push(Seq::<char>::empty()));
    }
}

/// The first line of a block is a prefix of its script.
pub proof fn lemma_script_first(ls: Seq<Seq<char>>)
    requires
        ls.len() >= 1,
    ensures
        script_of_lines(ls).len() >= ls[0].len() + 1,
        script_of_lines(ls).take(ls[0].len() as int) == ls[0],
{
    assert(script_of_lines(ls).take(ls[0].len() as int) =~= ls[0]);
}

/// Every dialect's block is well formed.
pub proof fn lemma_block_lines_wf(shell: ShellType)
    ensures
        wf_block(block_lines(shell)),
{
    reveal_strlit("# >>> auto-nvm >>>");
    reveal_strlit("# <<< auto-nvm <<<");
    assert(begin_marker()[2] == '>');
    assert(end_marker()[2] == '<');
    let ls = block_lines(shell);
    match shell {
        ShellType::Bash => {
            reveal_strlit("auto_nvm_hook() {");
            reveal_strlit("  if [ -f \".nvmrc\" ]; then");
            reveal_strlit("    eval \"$(auto-nvm switch --quiet)\"");
            reveal_strlit("  fi");
            reveal_strlit("}");
            reveal_strlit("cd() { builtin cd \"$@\" && auto_nvm_hook; }");
            reveal_strlit("auto_nvm_hook");
            assert(no_sep(ls[0], '\n'));
            assert(no_sep(ls[1], '\n'));
            assert(no_sep(ls[2], '\n'));
            assert(no_sep(ls[3], '\n'));
            assert(no_sep(ls[4], '\n'));
            assert(no_sep(ls[5], '\n'));
            assert(no_sep(ls[6], '\n'));
            assert(no_sep(ls[7], '\n'));
            assert(no_sep(ls[8], '\n'));
            assert(ls[1][0] == 'a' && ls[2][0] == ' ' && ls[3][0] == ' ' && ls[4][0] == ' '
                && ls[5][0] == '}' && ls[6][0] == 'c' && ls[7][0] == 'a');
            assert(end_marker()[0] == '#');
        },
        ShellType::Zsh => {
            reveal_strlit("auto_nvm_hook() {");
            reveal_strlit("  if [ -f \".nvmrc\" ]; then");
            reveal_strlit("    eval \"$(auto-nvm switch --quiet)\"");
            reveal_strlit("  fi");
            reveal_strlit("}");
            reveal_strlit("autoload -U add-zsh-hook");
            reveal_strlit("add-zsh-hook chpwd auto_nvm_hook");
            reveal_strlit("auto_nvm_hook");
            assert(no_sep(ls[0], '\n'));
            assert(no_sep(ls[1], '\n'));
            assert(no_sep(ls[2], '\n'));
            assert(no_sep(ls[3], '\n'));
            assert(no_sep(ls[4], '\n'));
            assert(no_sep(ls[5], '\n'));
            assert(no_sep(ls[6], '\n'));
            assert(no_sep(ls[7], '\n'));
            assert(no_sep(ls[8], '\n'));
            assert(no_sep(ls[9], '\n'));
            assert(ls[1][0] == 'a' && ls[2][0] == ' ' && ls[3][0] == ' ' && ls[4][0] == ' '
                && ls[5][0] == '}' && ls[6][0] == 'a' && ls[7][0] == 'a' && ls[8][0] == 'a');
            assert(end_marker()[0] == '#');
        },
        ShellType::Fish => {
            reveal_strlit("function auto_nvm_hook --on-variable PWD");
            reveal_strlit("  if test -f \".nvmrc\"");
            reveal_strlit("    eval (auto-nvm switch --quiet)");
            reveal_strlit("  end");
            reveal_strlit("end");
            reveal_strlit("auto_nvm_hook");
            assert(no_sep(ls[0], '\n'));
            assert(no_sep(ls[1], '\n'));
            assert(no_sep(ls[2], '\n'));
            assert(no_sep(ls[3], '\n'));
            assert(no_sep(ls[4], '\n'));
            assert(no_sep(ls[5], '\n'));
            assert(no_sep(ls[6], '\n'));
            assert(no_sep(ls[7], '\n'));
            assert(ls[1][0] == 'f' && ls[2][0] == ' ' && ls[3][0] == ' ' && ls[4][0] == ' '
                && ls[5][0] == 'e' && ls[6][0] == 'a');
            assert(end_marker()[0] == '#');
        },
        ShellType::PowerShell => {
            reveal_strlit("function Invoke-AutoNvmHook {");
            reveal_strlit("  if (Test-Path \".nvmrc\") {");
            reveal_strlit("    auto-nvm switch --quiet | Invoke-Expression");
            reveal_strlit("  }");
            reveal_strlit("}");
            reveal_strlit("Invoke-AutoNvmHook");
            assert(no_sep(ls[0], '\n'));
            assert(no_sep(ls[1], '\n'));
            assert(no_sep(ls[2], '\n'));
            assert(no_sep(ls[3], '\n'));
            assert(no_sep(ls[4], '\n'));
            assert(no_sep(ls[5], '\n'));
            assert(no_sep(ls[6], '\n'));
            assert(no_sep(ls[7], '\n'));
            assert(ls[1][0] == 'f' && ls[2][0] == ' ' && ls[3][0] == ' ' && ls[4][0] == ' '
                && ls[5][0] == '}' && ls[6][0] == 'I');
            assert(end_marker()[0] == '#');
        },
    }
}

/// The block lines of a dialect as runtime string slices.
pub fn block_lines_vec(shell: ShellType) -> (r: Vec<&'static str>)
    ensures
        r.deep_view() == block_lines(shell),
{
    let mut r: Vec<&'static str> = Vec::new();
    match shell {
        ShellType::Bash => {
            r.push("# >>> auto-nvm >>>");
            r.push("auto_nvm_hook() {");
            r.push("  if [ -f \".nvmrc\" ]; then");
            r.push("    eval \"$(auto-nvm switch --quiet)\"");
            r.push("  fi");
            r.push("}");
            r.push("cd() { builtin cd \"$@\" && auto_nvm_hook; }");
            r.push("auto_nvm_hook");
            r.push("# <<< auto-nvm <<<");
        },
        ShellType::Zsh => {
            r.push("# >>> auto-nvm >>>");
            r.push("auto_nvm_hook() {");
            r.push("  if [ -f \".nvmrc\" ]; then");
            r.push("    eval \"$(auto-nvm switch --quiet)\"");
            r.push("  fi");
            r.push("}");
            r.push("autoload -U add-zsh-hook");
            r.push("add-zsh-hook chpwd auto_nvm_hook");
            r.push("auto_nvm_hook");
            r.push("# <<< auto-nvm <<<");
        },
        ShellType::Fish => {
            r.push("# >>> auto-nvm >>>");
            r.push("function auto_nvm_hook --on-variable PWD");
            r.push("  if test -f \".nvmrc\"");
            r.push("    eval (auto-nvm switch --quiet)");
            r.push("  end");
            r.push("end");
            r.push("auto_nvm_hook");
            r.push("# <<< auto-nvm <<<");
        },
        ShellType::PowerShell => {
            r.push("# >>> auto-nvm >>>");
            r.push("function Invoke-AutoNvmHook {");
            r.push("  if (Test-Path \".nvmrc\") {");
            r.push("    auto-nvm switch --quiet | Invoke-Expression");
            r.push("  }");
            r.push("}");
            r.push("Invoke-AutoNvmHook");
            r.push("# <<< auto-nvm <<<");
        },
    }
    proof {
        assert(r.deep_view() =~~= block_lines(shell));
    }
    r
}

/// Build the integration snippet for `shell`: the dialect's block lines,
/// each terminated by a newline.
pub fn generate_integration_script(shell: ShellType) -> (r: String)
    ensures
        r@ == spec_integration_script(shell),
{
    let lines = block_lines_vec(shell);
    let mut out = String::new();
    let mut i: usize = 0;
    let ghost d = lines.deep_view();
    proof {
        assert(script_of_lines(d.take(0)) =~= Seq::<char>::empty());
    }
    while i < lines.len()
        invariant
            i <= lines@.len(),
            d == lines.deep_view(),
            out@ == script_of_lines(d.take(i as int)),
        decreases lines@.len() - i,
    {
        out.append(lines[i]);
        out.append("\n");
        proof {
            lemma_script_snoc(d.take(i as int), d[i as int]);
            assert(d.take(i as int + 1) =~~= d.take(i as int).push(d[i as int]));
            reveal_strlit("\n");
            assert("\n"@ =~= seq!['\n']);
        }
        i = i + 1;
    }
    proof {
        assert(d.take(d.len() as int) =~~= d);
    }
    out
}

/// True iff the begin marker occurs verbatim in the content.
pub fn check_already_configured(content: &str) -> (r: bool)
    ensures
        r == has_substring(content@, begin_marker()),
{
    contains_str(content, begin_marker_str())
}

/// Index of the first line equal to the begin marker, or `-1`.
pub open spec fn spec_begin_idx(c: Seq<char>) -> int {
    find_line(split_on(c, '\n'), begin_marker())
}

/// Index of the first line at or after the begin-marker line that equals
/// the end marker, or `-1` when either marker line is missing.
pub open spec fn spec_end_idx(c: Seq<char>) -> int {
    let b = spec_begin_idx(c);
    if b == -1 {
        -1
    } else {
        let r = find_line(split_on(c, '\n').skip(b), end_marker());
        if r == -1 {
            -1
        } else {
            b + r
        }
    }
}

/// Locate the begin- and end-marker lines of the integration block,
/// as 0-based inclusive line indices; `None` when the markers are absent
/// or unbalanced (a begin without an end).
pub fn extract_block_span(content: &str) -> (r: Option<(usize, usize)>)
    ensures
        r is None <==> (spec_begin_idx(content@) == -1 || spec_end_idx(content@) == -1),
        r matches Some(span) ==> {
            &&& span.0 == spec_begin_idx(content@)
            &&& span.1 == spec_end_idx(content@)
            &&& span.0 <= span.1 < split_on(content@, '\n').len()
        },
{
    let lines = split_str(content, '\n');
    let b = match find_line_from(&lines, begin_marker_str(), 0) {
        Option::None => {
            proof {
                assert(lines.deep_view().skip(0) =~~= lines.deep_view());
            }
            return Option::None;
        },
        Option::Some(b) => b,
    };
    proof {
        assert(lines.deep_view().skip(0) =~~= lines.deep_view());
    }
    match find_line_from(&lines, end_marker_str(), b) {
        Option::None => Option::None,
        Option::Some(e) => Option::Some((b, e)),
    }
}

} // verus!
