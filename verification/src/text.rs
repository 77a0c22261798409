//! Character-level text model shared by the whole crate.
//!
//! File contents are modelled as `Seq<char>` (the view of `&str` / `String`).
//! This module gives the spec-level vocabulary (substring containment,
//! splitting into lines, joining, trimming) together with verified
//! executable counterparts.

use vstd::prelude::*;
use vstd::string::StrSliceExecFns;

verus! {

/// `n` occurs in `h` starting exactly at index `i`.
pub open spec fn matches_at(h: Seq<char>, n: Seq<char>, i: int) -> bool {
    0 <= i && i + n.len() <= h.len() && h.subrange(i, i + n.len()) == n
}

/// `n` occurs somewhere in `h` as a contiguous run of characters.
pub open spec fn has_substring(h: Seq<char>, n: Seq<char>) -> bool {
    exists|i: int| matches_at(h, n, i)
}

/// Collect the characters of `s` into a vector.
pub fn chars_of(s: &str) -> (r: Vec<char>)
    ensures
        r@ == s@,
{
    let n = s.unicode_len();
    let mut r: Vec<char> = Vec::new();
    let mut i: usize = 0;
    while i < n
        invariant
            i <= n,
            n == s@.len(),
            r@ == s@.take(i as int),
        decreases n - i,
    {
        r.push(s.get_char(i));
        i = i + 1;
        assert(r@ =~= s@.take(i as int));
    }
    assert(s@.take(n as int) =~= s@);
    r
}

/// Check whether `n` occurs in `h` starting at index `i`.
fn occurs_at(h: &Vec<char>, n: &Vec<char>, i: usize) -> (r: bool)
    requires
        i + n@.len() <= h@.len(),
    ensures
        r == matches_at(h@, n@, i as int),
{
    let hl = h.len();
    let nl = n.len();
    let mut j: usize = 0;
    while j < nl
        invariant
            j <= nl,
            nl == n@.len(),
            hl == h@.len(),
            i + nl <= hl,
            forall|k: int| 0 <= k < j ==> h@[i + k] == n@[k],
        decreases nl - j,
    {
        if h[i + j] != n[j] {
            assert(!matches_at(h@, n@, i as int)) by {
                if matches_at(h@, n@, i as int) {
                    assert(h@.subrange(i as int, i + n@.len())[j as int] == n@[j as int]);
                }
            }
            return false;
        }
        j = j + 1;
    }
    assert(h@.subrange(i as int, i + n@.len()) =~= n@);
    true
}

/// Substring test over already-collected character vectors.
pub fn contains_chars(h: &Vec<char>, n: &Vec<char>) -> (r: bool)
    ensures
        r == has_substring(h@, n@),
{
    if n.len() > h.len() {
        assert(!has_substring(h@, n@));
        return false;
    }
    let end = h.len() - n.len();
    let mut i: usize = 0;
    while i <= end
        invariant
            i <= end,
            end + n@.len() == h@.len(),
            forall|k: int| 0 <= k < i ==> !matches_at(h@, n@, k),
        decreases end - i,
    {
        if occurs_at(h, n, i) {
            return true;
        }
        if i == end {
            assert(forall|k: int| matches_at(h@, n@, k) ==> 0 <= k <= end);
            return false;
        }
        i = i + 1;
    }
    assert(forall|k: int| matches_at(h@, n@, k) ==> 0 <= k <= end);
    false
}

/// Substring test on string slices: does `n` occur contiguously in `h`?
pub fn contains_str(h: &str, n: &str) -> (r: bool)
    ensures
        r == has_substring(h@, n@),
{
    let hc = chars_of(h);
    let nc = chars_of(n);
    contains_chars(&hc, &nc)
}

/// No character of `s` equals the separator `sep`.
pub open spec fn no_sep(s: Seq<char>, sep: char) -> bool {
    forall|i: int| 0 <= i < s.len() ==> s[i] != sep
}

/// Split `s` at every occurrence of `sep`.  The separator characters are
/// consumed; `n` separators yield `n + 1` pieces, so a trailing separator
/// yields a final empty piece and the empty sequence yields one empty piece.
pub open spec fn split_on(s: Seq<char>, sep: char) -> Seq<Seq<char>>
    decreases s.len(),
{
    if s.len() == 0 {
        seq![Seq::<char>::empty()]
    } else if s[0] == sep {
        seq![Seq::<char>::empty()] + split_on(s.skip(1), sep)
    } else {
        let rest = split_on(s.skip(1), sep);
        seq![seq![s[0]] + rest[0]] + rest.skip(1)
    }
}

/// Join the pieces `ls` with a single `sep` between neighbours.
pub open spec fn join_on(ls: Seq<Seq<char>>, sep: char) -> Seq<char>
    decreases ls.len(),
{
    if ls.len() == 0 {
        Seq::empty()
    } else if ls.len() == 1 {
        ls[0]
    } else {
        ls[0] + seq![sep] + join_on(ls.skip(1), sep)
    }
}

/// Splitting always yields at least one piece.
pub proof fn lemma_split_len(s: Seq<char>, sep: char)
    ensures
        split_on(s, sep).len() >= 1,
    decreases s.len(),
{
    if s.len() == 0 {
    } else {
        lemma_split_len(s.skip(1), sep);
    }
}

/// Joining the pieces of a split restores the original sequence.
pub proof fn lemma_join_split(s: Seq<char>, sep: char)
    ensures
        join_on(split_on(s, sep), sep) == s,
    decreases s.len(),
{
    if s.len() == 0 {
        assert(join_on(split_on(s, sep), sep) =~= s);
    } else if s[0] == sep {
        lemma_join_split(s.skip(1), sep);
        lemma_split_len(s.skip(1), sep);
        let ls = split_on(s, sep);
        assert(ls.skip(1) =~= split_on(s.skip(1), sep));
        assert(join_on(ls, sep) =~= s);
    } else {
        lemma_join_split(s.skip(1), sep);
        lemma_split_len(s.skip(1), sep);
        let rest = split_on(s.skip(1), sep);
        let ls = split_on(s, sep);
        if rest.len() == 1 {
            assert(ls.len() == 1);
            assert(join_on(rest, sep) == rest[0]);
            assert(join_on(ls, sep) == ls[0]);
            assert(ls[0] =~= seq![s[0]] + rest[0]);
            assert(join_on(ls, sep) =~= s);
        } else {
            assert(ls.skip(1) =~= rest.skip(1));
            assert(join_on(rest, sep) == rest[0] + seq![sep] + join_on(rest.skip(1), sep));
            assert(join_on(ls, sep) == ls[0] + seq![sep] + join_on(ls.skip(1), sep));
            assert(join_on(ls, sep) =~= seq![s[0]] + join_on(rest, sep));
            assert(join_on(ls, sep) =~= s);
        }
    }
}

/// Splitting distributes over concatenation at a separator.
pub proof fn lemma_split_app(a: Seq<char>, b: Seq<char>, sep: char)
    ensures
        split_on(a + seq![sep] + b, sep) == split_on(a, sep) + split_on(b, sep),
    decreases a.len(),
{
    let s = a + seq![sep] + b;
    if a.len() == 0 {
        assert(s[0] == sep);
        assert(s.skip(1) =~= b);
        assert(split_on(s, sep) =~~= split_on(a, sep) + split_on(b, sep));
    } else if a[0] == sep {
        assert(s[0] == sep);
        assert(s.skip(1) =~= a.skip(1) + seq![sep] + b);
        lemma_split_app(a.skip(1), b, sep);
        assert(split_on(s, sep) =~~= split_on(a, sep) + split_on(b, sep));
    } else {
        assert(s[0] == a[0]);
        assert(s.skip(1) =~= a.skip(1) + seq![sep] + b);
        lemma_split_app(a.skip(1), b, sep);
        lemma_split_len(a.skip(1), sep);
        lemma_split_len(b, sep);
        let ra = split_on(a.skip(1), sep);
        let rs = split_on(s.skip(1), sep);
        assert(rs =~~= ra + split_on(b, sep));
        assert(rs[0] == ra[0]);
        assert(rs.skip(1) =~~= ra.skip(1) + split_on(b, sep));
        assert(split_on(s, sep) =~~= split_on(a, sep) + split_on(b, sep));
    }
}

/// A sequence without separators splits into exactly itself.
pub proof fn lemma_split_no_sep(s: Seq<char>, sep: char)
    requires
        no_sep(s, sep),
    ensures
        split_on(s, sep) == seq![s],
    decreases s.len(),
{
    if s.len() == 0 {
        assert(split_on(s, sep) =~~= seq![s]);
    } else {
        assert(no_sep(s.skip(1), sep));
        lemma_split_no_sep(s.skip(1), sep);
        assert(seq![s[0]] + s.skip(1) =~= s);
        assert(split_on(s, sep) =~~= seq![s]);
    }
}

/// Splitting the join of separator-free pieces restores the pieces.
pub proof fn lemma_split_join(ls: Seq<Seq<char>>, sep: char)
    requires
        ls.len() >= 1,
        forall|i: int| 0 <= i < ls.len() ==> no_sep(#[trigger] ls[i], sep),
    ensures
        split_on(join_on(ls, sep), sep) == ls,
    decreases ls.len(),
{
    if ls.len() == 1 {
        lemma_split_no_sep(ls[0], sep);
        assert(split_on(join_on(ls, sep), sep) =~~= ls);
    } else {
        assert(forall|i: int| 0 <= i < ls.skip(1).len() ==> no_sep(#[trigger] ls.skip(1)[i], sep));
        lemma_split_join(ls.skip(1), sep);
        lemma_split_app(ls[0], join_on(ls.skip(1), sep), sep);
        lemma_split_no_sep(ls[0], sep);
        assert(split_on(join_on(ls, sep), sep) =~~= ls);
    }
}

/// A sequence that ends in a separator splits into the split of the part
/// before the final separator, followed by one empty piece.
pub proof fn lemma_split_ends_sep(s: Seq<char>, sep: char)
    requires
        s.len() >= 1,
        s.last() == sep,
    ensures
        split_on(s, sep) == split_on(s.take(s.len() - 1), sep) + seq![Seq::<char>::empty()],
    decreases s.len(),
{
    let a = s.take(s.len() - 1);
    assert(s =~= a + seq![sep] + Seq::<char>::empty());
    lemma_split_app(a, Seq::<char>::empty(), sep);
    assert(split_on(Seq::<char>::empty(), sep) =~~= seq![Seq::<char>::empty()]);
}

/// First index in `ls` whose element equals `t`, or `-1` if there is none.
pub open spec fn find_line(ls: Seq<Seq<char>>, t: Seq<char>) -> int
    decreases ls.len(),
{
    if ls.len() == 0 {
        -1
    } else if ls[0] == t {
        0
    } else {
        let r = find_line(ls.skip(1), t);
        if r == -1 {
            -1
        } else {
            r + 1
        }
    }
}

/// `find_line` returns the first matching index, or `-1` when no element
/// matches.
pub proof fn lemma_find_line(ls: Seq<Seq<char>>, t: Seq<char>)
    ensures
        find_line(ls, t) == -1 ==> forall|i: int| 0 <= i < ls.len() ==> ls[i] != t,
        find_line(ls, t) != -1 ==> {
            let r = find_line(ls, t);
            &&& 0 <= r < ls.len()
            &&& ls[r] == t
            &&& forall|i: int| 0 <= i < r ==> ls[i] != t
        },
    decreases ls.len(),
{
    if ls.len() == 0 {
    } else if ls[0] == t {
    } else {
        lemma_find_line(ls.skip(1), t);
        assert(forall|i: int| 1 <= i < ls.len() ==> ls[i] == ls.skip(1)[i - 1]);
    }
}

/// An occurrence of `n` inside `h` is still an occurrence after extending
/// `h` on either side.
pub proof fn lemma_has_substring_extend(pre: Seq<char>, h: Seq<char>, suf: Seq<char>, n: Seq<char>)
    requires
        has_substring(h, n),
    ensures
        has_substring(pre + h + suf, n),
{
    let i = choose|i: int| matches_at(h, n, i);
    assert((pre + h + suf).subrange(pre.len() + i, pre.len() + i + n.len()) =~= h.subrange(
        i,
        i + n.len(),
    ));
    assert(matches_at(pre + h + suf, n, pre.len() + i));
}

/// A prefix of `h` is a substring of `h`.
pub proof fn lemma_prefix_has_substring(h: Seq<char>, n: Seq<char>)
    requires
        n.len() <= h.len(),
        h.take(n.len() as int) == n,
    ensures
        has_substring(h, n),
{
    assert(h.subrange(0, n.len() as int) =~= h.take(n.len() as int));
    assert(matches_at(h, n, 0));
}

/// The first piece of a split is a prefix of the sequence that was split.
pub proof fn lemma_split_first_prefix(s: Seq<char>, sep: char)
    ensures
        split_on(s, sep)[0].len() <= s.len(),
        split_on(s, sep)[0] == s.take(split_on(s, sep)[0].len() as int),
    decreases s.len(),
{
    if s.len() == 0 {
        assert(split_on(s, sep)[0] =~= s.take(0));
    } else if s[0] == sep {
        assert(split_on(s, sep)[0] =~= s.take(0));
    } else {
        lemma_split_first_prefix(s.skip(1), sep);
        lemma_split_len(s.skip(1), sep);
        let r0 = split_on(s.skip(1), sep)[0];
        assert(split_on(s, sep)[0] =~= seq![s[0]] + r0);
        assert(seq![s[0]] + s.skip(1).take(r0.len() as int) =~= s.take(r0.len() as int + 1));
    }
}

/// Every piece of a split occurs as a substring of the split sequence.
pub proof fn lemma_split_piece_contained(s: Seq<char>, sep: char, i: int)
    requires
        0 <= i < split_on(s, sep).len(),
    ensures
        has_substring(s, split_on(s, sep)[i]),
    decreases s.len(),
{
    let ls = split_on(s, sep);
    if s.len() == 0 {
        assert(s.subrange(0, 0) =~= ls[0]);
        assert(matches_at(s, ls[0], 0));
    } else if s[0] == sep {
        if i == 0 {
            assert(s.subrange(0, 0) =~= ls[0]);
            assert(matches_at(s, ls[0], 0));
        } else {
            lemma_split_piece_contained(s.skip(1), sep, i - 1);
            assert(ls[i] == split_on(s.skip(1), sep)[i - 1]);
            assert(s =~= s.take(1) + s.skip(1) + Seq::<char>::empty());
            lemma_has_substring_extend(s.take(1), s.skip(1), Seq::<char>::empty(), ls[i]);
        }
    } else {
        lemma_split_len(s.skip(1), sep);
        if i == 0 {
            lemma_split_first_prefix(s, sep);
            lemma_prefix_has_substring(s, ls[0]);
        } else {
            let rest = split_on(s.skip(1), sep);
            assert(ls[i] == rest[i]);
            lemma_split_piece_contained(s.skip(1), sep, i);
            assert(s =~= s.take(1) + s.skip(1) + Seq::<char>::empty());
            lemma_has_substring_extend(s.take(1), s.skip(1), Seq::<char>::empty(), ls[i]);
        }
    }
}

/// ASCII whitespace, as trimmed from line ends by this crate.
pub open spec fn is_blank(c: char) -> bool {
    c == ' ' || c == '\t' || c == '\r' || c == '\n' || c == '\u{b}' || c == '\u{c}'
}

/// `s` with every leading and trailing blank character removed.
pub open spec fn trimmed(s: Seq<char>) -> Seq<char>
    decreases s.len(),
{
    if s.len() > 0 && is_blank(s[0]) {
        trimmed(s.skip(1))
    } else if s.len() > 0 && is_blank(s.last()) {
        trimmed(s.take(s.len() - 1))
    } else {
        s
    }
}

/// Runtime test for [`is_blank`].
pub fn is_blank_char(c: char) -> (r: bool)
    ensures
        r == is_blank(c),
{
    c == ' ' || c == '\t' || c == '\r' || c == '\n' || c == '\u{b}' || c == '\u{c}'
}

/// Appending one more piece extends a join by a separator and the piece.
pub proof fn lemma_join_snoc(ls: Seq<Seq<char>>, x: Seq<char>, sep: char)
    requires
        ls.len() >= 1,
    ensures
        join_on(ls.push(x), sep) == join_on(ls, sep) + seq![sep] + x,
    decreases ls.len(),
{
    if ls.len() == 1 {
        let p = ls.push(x);
        assert(p.skip(1) =~~= seq![x]);
        assert(join_on(p.skip(1), sep) == p.skip(1)[0]);
        assert(join_on(p, sep) =~= ls[0] + seq![sep] + x);
    } else {
        lemma_join_snoc(ls.skip(1), x, sep);
        let p = ls.push(x);
        assert(p.skip(1) =~~= ls.skip(1).push(x));
        assert(join_on(p, sep) =~= join_on(ls, sep) + seq![sep] + x);
    }
}

/// `s` with leading and trailing ASCII whitespace removed.
pub fn trim_str<'a>(s: &'a str) -> (r: &'a str)
    ensures
        r@ == trimmed(s@),
{
    let v = chars_of(s);
    let n = v.len();
    let mut i: usize = 0;
    proof {
        assert(s@.skip(0) =~= s@);
    }
    while i < n
        invariant
            i <= n,
            n == s@.len(),
            v@ == s@,
            trimmed(s@) == trimmed(s@.skip(i as int)),
        ensures
            i == n || (i < n && !is_blank(s@[i as int])),
            trimmed(s@) == trimmed(s@.skip(i as int)),
            i <= n,
            n == s@.len(),
            v@ == s@,
        decreases n - i,
    {
        if !is_blank_char(v[i]) {
            break ;
        }
        proof {
            assert(s@.skip(i as int).skip(1) =~= s@.skip(i as int + 1));
        }
        i = i + 1;
    }
    let mut j: usize = n;
    while j > i
        invariant
            i <= j <= n,
            n == s@.len(),
            v@ == s@,
            i == n || (i < n && !is_blank(s@[i as int])),
            trimmed(s@) == trimmed(s@.subrange(i as int, j as int)),
        ensures
            i <= j <= n,
            j == i || (j > i && !is_blank(s@[j - 1])),
            trimmed(s@) == trimmed(s@.subrange(i as int, j as int)),
        decreases j,
    {
        if !is_blank_char(v[j - 1]) {
            break ;
        }
        proof {
            let t = s@.subrange(i as int, j as int);
            assert(t.len() > 0);
            assert(!is_blank(t[0]));
            assert(is_blank(t.last()));
            assert(t.take(t.len() - 1) =~= s@.subrange(i as int, j - 1));
        }
        j = j - 1;
    }
    proof {
        if j == i {
            assert(s@.subrange(i as int, j as int) =~= Seq::<char>::empty());
        }
        assert(trimmed(s@.subrange(i as int, j as int)) == s@.subrange(i as int, j as int));
    }
    let r = s.substring_char(i, j);
    r
}

/// Split `s` at every occurrence of the character `sep`.
pub fn split_str(s: &str, sep: char) -> (r: Vec<String>)
    ensures
        r.deep_view() == split_on(s@, sep),
        r@.len() >= 1,
{
    let v = chars_of(s);
    let n = v.len();
    let mut r: Vec<String> = Vec::new();
    let mut start: usize = 0;
    let mut i: usize = 0;
    proof {
        assert(s@.skip(0) =~= s@);
        assert(r.deep_view() =~~= Seq::<Seq<char>>::empty());
        assert(split_on(s@, sep) =~~= r.deep_view() + split_on(s@.skip(0), sep));
    }
    while i < n
        invariant
            start <= i <= n,
            n == s@.len(),
            v@ == s@,
            split_on(s@, sep) == r.deep_view() + split_on(s@.skip(start as int), sep),
            no_sep(s@.subrange(start as int, i as int), sep),
        decreases n - i,
    {
        if v[i] == sep {
            let ghost prev = r.deep_view();
            let piece = s.substring_char(start, i).to_owned();
            r.push(piece);
            proof {
                let head = s@.subrange(start as int, i as int);
                assert(s@.skip(start as int) =~= head + seq![sep] + s@.skip(i as int + 1));
                lemma_split_app(head, s@.skip(i as int + 1), sep);
                lemma_split_no_sep(head, sep);
                assert(r.deep_view() =~~= prev.push(head));
                assert(split_on(s@, sep) =~~= r.deep_view() + split_on(
                    s@.skip(i as int + 1),
                    sep,
                ));
            }
            start = i + 1;
        } else {
            proof {
                assert(s@.subrange(start as int, i as int + 1) =~= s@.subrange(
                    start as int,
                    i as int,
                ).push(s@[i as int]));
            }
        }
        i = i + 1;
    }
    let ghost prev = r.deep_view();
    let last = s.substring_char(start, n).to_owned();
    r.push(last);
    proof {
        assert(s@.skip(start as int) =~= s@.subrange(start as int, n as int));
        lemma_split_no_sep(s@.skip(start as int), sep);
        assert(r.deep_view() =~~= prev.push(s@.skip(start as int)));
        assert(split_on(s@, sep) =~~= r.deep_view());
    }
    r
}

/// Join `ls` with a newline between neighbouring elements.
pub fn join_lines(ls: &Vec<String>) -> (r: String)
    ensures
        r@ == join_on(ls.deep_view(), '\n'),
{
    if ls.len() == 0 {
        let r = String::new();
        return r;
    }
    let mut out: String = ls[0].clone();
    let mut i: usize = 1;
    proof {
        assert(ls.deep_view().take(1) =~~= seq![ls.deep_view()[0]]);
    }
    while i < ls.len()
        invariant
            1 <= i <= ls@.len(),
            out@ == join_on(ls.deep_view().take(i as int), '\n'),
        decreases ls@.len() - i,
    {
        let ghost d = ls.deep_view();
        out.append("\n");
        out.append(ls[i].as_str());
        proof {
            lemma_join_snoc(d.take(i as int), d[i as int], '\n');
            assert(d.take(i as int + 1) =~~= d.take(i as int).push(d[i as int]));
            reveal_strlit("\n");
            assert("\n"@ =~= seq!['\n']);
        }
        i = i + 1;
    }
    proof {
        assert(ls.deep_view().take(ls@.len() as int) =~~= ls.deep_view());
    }
    out
}

/// First index at or after `from` whose line equals `t`.
pub fn find_line_from(ls: &Vec<String>, t: &str, from: usize) -> (r: Option<usize>)
    requires
        from <= ls@.len(),
    ensures
        ({
            let f = find_line(ls.deep_view().skip(from as int), t@);
            match r {
                Option::None => f == -1,
                Option::Some(i) => f >= 0 && i == f + from && i < ls@.len(),
            }
        }),
{
    let ghost tail = ls.deep_view().skip(from as int);
    let mut i: usize = from;
    while i < ls.len()
        invariant
            from <= i <= ls@.len(),
            tail == ls.deep_view().skip(from as int),
            forall|k: int| from <= k < i ==> ls.deep_view()[k] != t@,
        decreases ls@.len() - i,
    {
        if str_eq(ls[i].as_str(), t) {
            proof {
                lemma_find_line(tail, t@);
                let f = find_line(tail, t@);
                assert(tail[i - from] == t@);
                if f == -1 {
                    assert(tail[i - from] != t@);
                }
                assert(0 <= f < tail.len() && tail[f] == t@);
                if f < i - from {
                    assert(ls.deep_view()[f + from] != t@);
                    assert(tail[f] == ls.deep_view()[f + from]);
                }
                if f > i - from {
                    assert(tail[i - from] != t@);
                }
                assert(f == i - from);
            }
            return Option::Some(i);
        }
        i = i + 1;
    }
    proof {
        lemma_find_line(tail, t@);
        let f = find_line(tail, t@);
        if f != -1 {
            assert(tail[f] == ls.deep_view()[f + from]);
            assert(ls.deep_view()[f + from] != t@);
        }
    }
    Option::None
}

/// An ASCII decimal digit.
pub open spec fn is_digit(c: char) -> bool {
    '0' <= c && c <= '9'
}

/// Every character of `s` is an ASCII decimal digit.
pub open spec fn all_digits(s: Seq<char>) -> bool {
    forall|i: int| 0 <= i < s.len() ==> is_digit(s[i])
}

/// `s` with every leading occurrence of `c` removed.
pub open spec fn strip_leading(s: Seq<char>, c: char) -> Seq<char>
    decreases s.len(),
{
    if s.len() > 0 && s[0] == c {
        strip_leading(s.skip(1), c)
    } else {
        s
    }
}

/// Strip every leading occurrence of `c` from `s`.
pub fn strip_leading_str<'a>(s: &'a str, c: char) -> (r: &'a str)
    ensures
        r@ == strip_leading(s@, c),
{
    let v = chars_of(s);
    let n = v.len();
    let mut i: usize = 0;
    proof {
        assert(s@.skip(0) =~= s@);
    }
    while i < n
        invariant
            i <= n,
            n == s@.len(),
            v@ == s@,
            strip_leading(s@, c) == strip_leading(s@.skip(i as int), c),
        ensures
            i <= n,
            n == s@.len(),
            i == n || (i < n && s@[i as int] != c),
            strip_leading(s@, c) == strip_leading(s@.skip(i as int), c),
        decreases n - i,
    {
        if v[i] != c {
            break ;
        }
        proof {
            assert(s@.skip(i as int).skip(1) =~= s@.skip(i as int + 1));
        }
        i = i + 1;
    }
    proof {
        assert(strip_leading(s@.skip(i as int), c) == s@.skip(i as int));
    }
    let r = s.substring_char(i, n);
    proof {
        assert(s@.subrange(i as int, n as int) =~= s@.skip(i as int));
    }
    r
}

/// Character-for-character equality of two string slices.
pub fn str_eq(a: &str, b: &str) -> (r: bool)
    ensures
        r == (a@ == b@),
{
    let an = a.unicode_len();
    let bn = b.unicode_len();
    if an != bn {
        assert(a@ != b@);
        return false;
    }
    let mut i: usize = 0;
    while i < an
        invariant
            i <= an,
            an == a@.len(),
            an == b@.len(),
            forall|k: int| 0 <= k < i ==> a@[k] == b@[k],
        decreases an - i,
    {
        if a.get_char(i) != b.get_char(i) {
            return false;
        }
        i = i + 1;
    }
    assert(a@ =~= b@);
    true
}

} // verus!
