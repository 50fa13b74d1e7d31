//! What the library reads from the package manager's output, and the steps that make
//! sure a package is installed.
use vstd::prelude::*;

use crate::manifest::LockedPackage;
use crate::text::{contains, first_index, find_char, has_infix, last_index, rfind_char, substring, views};

verus! {

/// The steps that make sure a package is installed: install it when it is missing, and
/// unlink it from the system-wide path when it must stay isolated.
#[derive(Debug, PartialEq, Eq)]
pub struct EnsureSteps {
    pub install: bool,
    pub unlink: bool,
}

/// Decides how to make sure a package is installed, given whether it is installed now
/// and whether it is to be linked system-wide. Its prefix is asked for afterwards.
pub fn ensure_package(installed: bool, link: bool) -> (r: EnsureSteps)
    ensures
        r.install == !installed,
        r.unlink == !link,
{
    EnsureSteps { install: !installed, unlink: !link }
}

/// The characters that have the Unicode `White_Space` property.
pub open spec fn is_space(c: char) -> bool {
    let u = c as u32;
    (9 <= u <= 13) || u == 32 || u == 0x85 || u == 0xa0 || u == 0x1680 || (0x2000 <= u <= 0x200a)
        || u == 0x2028 || u == 0x2029 || u == 0x202f || u == 0x205f || u == 0x3000
}

fn space(c: char) -> (r: bool)
    ensures
        r == is_space(c),
{
    let u = c as u32;
    (9 <= u && u <= 13) || u == 32 || u == 0x85 || u == 0xa0 || u == 0x1680 || (0x2000 <= u && u
        <= 0x200a) || u == 0x2028 || u == 0x2029 || u == 0x202f || u == 0x205f || u == 0x3000
}

/// How many white-space characters `s` starts with.
pub open spec fn leading_spaces(s: Seq<char>) -> nat
    decreases s.len(),
{
    if s.len() > 0 && is_space(s[0]) {
        1 + leading_spaces(s.drop_first())
    } else {
        0
    }
}

/// How many white-space characters `s` ends with.
pub open spec fn trailing_spaces(s: Seq<char>) -> nat
    decreases s.len(),
{
    if s.len() > 0 && is_space(s.last()) {
        1 + trailing_spaces(s.drop_last())
    } else {
        0
    }
}

/// `s` without its leading and trailing white space.
pub open spec fn trimmed(s: Seq<char>) -> Seq<char> {
    if leading_spaces(s) >= s.len() {
        Seq::empty()
    } else {
        s.subrange(leading_spaces(s) as int, s.len() - trailing_spaces(s))
    }
}

proof fn lemma_leading(s: Seq<char>, i: int)
    requires
        0 <= i <= s.len(),
        forall|j: int| 0 <= j < i ==> is_space(s[j]),
        i < s.len() ==> !is_space(s[i]),
    ensures
        leading_spaces(s) == i,
    decreases s.len(),
{
    if i > 0 {
        lemma_leading(s.drop_first(), i - 1);
    }
}

proof fn lemma_trailing(s: Seq<char>, k: int)
    requires
        0 <= k <= s.len(),
        forall|j: int| s.len() - k <= j < s.len() ==> is_space(s[j]),
        k < s.len() ==> !is_space(s[s.len() - k - 1]),
    ensures
        trailing_spaces(s) == k,
    decreases s.len(),
{
    if k > 0 {
        lemma_trailing(s.drop_last(), k - 1);
    }
}

/// `s` without its leading and trailing white space.
pub fn trim(s: &str) -> (r: String)
    ensures
        r@ == trimmed(s@),
{
    let n = s.unicode_len();
    let mut a: usize = 0;
    while a < n && space(s.get_char(a))
        invariant
            n == s@.len(),
            a <= n,
            forall|j: int| 0 <= j < a ==> is_space(s@[j]),
        decreases n - a,
    {
        a = a + 1;
    }
    proof {
        lemma_leading(s@, a as int);
    }
    if a == n {
        return String::new();
    }
    let mut b: usize = n;
    while b > a && space(s.get_char(b - 1))
        invariant
            n == s@.len(),
            a < n,
            !is_space(s@[a as int]),
            a <= b <= n,
            forall|j: int| b <= j < n ==> is_space(s@[j]),
        decreases b,
    {
        b = b - 1;
    }
    proof {
        lemma_trailing(s@, n - b);
    }
    substring(s, a, b)
}

/// The pieces of `s` between newlines: one more than it has newlines.
pub open spec fn pieces(s: Seq<char>) -> Seq<Seq<char>>
    decreases s.len(),
{
    if s.len() == 0 {
        seq![Seq::<char>::empty()]
    } else if s.last() == '\n' {
        pieces(s.drop_last()).push(Seq::<char>::empty())
    } else {
        let p = pieces(s.drop_last());
        p.update(p.len() - 1, p.last().push(s.last()))
    }
}

proof fn lemma_pieces_len(s: Seq<char>)
    ensures
        pieces(s).len() >= 1,
    decreases s.len(),
{
    if s.len() > 0 {
        lemma_pieces_len(s.drop_last());
    }
}

/// The lines of `s`: its pieces between newlines, without the empty one after a final
/// newline (an empty text has no line).
pub open spec fn lines_of(s: Seq<char>) -> Seq<Seq<char>> {
    if pieces(s).last().len() == 0 {
        pieces(s).drop_last()
    } else {
        pieces(s)
    }
}

/// The lines of `s`.
pub fn lines(s: &str) -> (r: Vec<String>)
    ensures
        views(r@) == lines_of(s@),
{
    let n = s.unicode_len();
    let mut done: Vec<String> = Vec::new();
    let mut start: usize = 0;
    let mut i: usize = 0;
    proof {
        assert(s@.subrange(0, 0) =~= Seq::<char>::empty());
        assert(views(done@).push(s@.subrange(0, 0)) =~= pieces(s@.subrange(0, 0)));
    }
    while i < n
        invariant
            n == s@.len(),
            start <= i <= n,
            views(done@).push(s@.subrange(start as int, i as int)) == pieces(s@.subrange(0, i as int)),
        decreases n - i,
    {
        let ghost pre = s@.subrange(0, i as int);
        proof {
            lemma_pieces_len(pre);
            assert(s@.subrange(0, i + 1).drop_last() =~= pre);
        }
        if s.get_char(i) == '\n' {
            let ghost prev = done@;
            let ghost old_start = start;
            done.push(substring(s, start, i));
            start = i + 1;
            proof {
                assert(views(done@) =~= views(prev).push(s@.subrange(old_start as int, i as int)));
                assert(s@.subrange(start as int, i + 1) =~= Seq::<char>::empty());
            }
        } else {
            proof {
                let p = pieces(pre);
                assert(s@.subrange(start as int, i + 1) =~= s@.subrange(start as int, i as int).push(s@[i as int]));
                assert(views(done@).push(s@.subrange(start as int, i + 1)) =~= p.update(p.len() - 1, p.last().push(s@[i as int])));
            }
        }
        i = i + 1;
    }
    let last = substring(s, start, n);
    proof {
        assert(s@.subrange(0, n as int) =~= s@);
    }
    if last.unicode_len() > 0 {
        let ghost prev = done@;
        done.push(last);
        assert(views(done@) =~= views(prev).push(last@));
    } else {
        assert(views(done@) =~= views(done@).push(last@).drop_last());
    }
    done
}

/// The dependency names that the package manager printed: the lines, trimmed, without the
/// blank ones.
pub open spec fn deps_listed(out: Seq<char>) -> Seq<Seq<char>> {
    lines_of(out).map_values(|l: Seq<char>| trimmed(l)).filter(|l: Seq<char>| l.len() > 0)
}

/// Reads the dependency names that the package manager printed, one per line.
pub fn parse_deps_output(out: &str) -> (r: Vec<String>)
    ensures
        views(r@) == deps_listed(out@),
{
    let ls = lines(out);
    let ghost trimmed_lines = lines_of(out@).map_values(|l: Seq<char>| trimmed(l));
    let ghost pred = |l: Seq<char>| l.len() > 0;
    let mut r: Vec<String> = Vec::new();
    let mut i: usize = 0;
    while i < ls.len()
        invariant
            views(ls@) == lines_of(out@),
            trimmed_lines == lines_of(out@).map_values(|l: Seq<char>| trimmed(l)),
            pred == (|l: Seq<char>| l.len() > 0),
            i <= ls@.len(),
            views(r@) == trimmed_lines.subrange(0, i as int).filter(pred),
        decreases ls@.len() - i,
    {
        let t = trim(ls[i].as_str());
        let ghost prev = r@;
        proof {
            reveal(Seq::filter);
            assert(ls@[i as int]@ == lines_of(out@)[i as int]);
            assert(trimmed_lines.subrange(0, i + 1).drop_last() =~= trimmed_lines.subrange(0, i as int));
            assert(trimmed_lines.subrange(0, i + 1).last() == t@);
        }
        if t.unicode_len() > 0 {
            r.push(t);
            assert(views(r@) =~= views(prev).push(trimmed_lines[i as int]));
        }
        i = i + 1;
    }
    assert(trimmed_lines.subrange(0, i as int) =~= trimmed_lines);
    r
}

/// Whether the package manager's list of taps has a line that reads `tap`, white space aside.
pub open spec fn tap_in_list(out: Seq<char>, tap: Seq<char>) -> bool {
    exists|j: int| 0 <= j < lines_of(out).len() && trimmed(#[trigger] lines_of(out)[j]) == tap
}

/// Looks for `tap` in the package manager's list of taps.
pub fn tap_listed(out: &str, tap: &str) -> (r: bool)
    ensures
        r == tap_in_list(out@, tap@),
{
    let ls = lines(out);
    let wanted = tap.to_owned();
    let mut i: usize = 0;
    while i < ls.len()
        invariant
            views(ls@) == lines_of(out@),
            wanted@ == tap@,
            i <= ls@.len(),
            forall|j: int| 0 <= j < i ==> trimmed(#[trigger] lines_of(out@)[j]) != tap@,
        decreases ls@.len() - i,
    {
        assert(ls@[i as int]@ == lines_of(out@)[i as int]);
        let t = trim(ls[i].as_str());
        if t == wanted {
            return true;
        }
        i = i + 1;
    }
    false
}

/// Whether what the package manager printed on unlinking is worth showing: it did not
/// report that no link was removed.
pub fn unlink_output_shown(out: &str) -> (r: bool)
    ensures
        r == !has_infix(out@, "0 symlinks removed"@),
{
    !contains(out, "0 symlinks removed")
}

/// What a package manager's version listing says of a package: the first line names the
/// formula, then its installed versions, separated by spaces; the last one is taken.
/// Nothing is read from a line without a space.
pub open spec fn listed_version(out: Seq<char>) -> Option<(Seq<char>, Seq<char>)> {
    if lines_of(out).len() == 0 {
        None
    } else {
        let t = trimmed(lines_of(out)[0]);
        if first_index(t, ' ') < 0 {
            None
        } else {
            Some((t.subrange(last_index(t, ' ') + 1, t.len() as int), t.subrange(0, first_index(t, ' '))))
        }
    }
}

/// Reads the version and formula of a package from the package manager's version listing.
pub fn parse_version_listing(out: &str) -> (r: Option<LockedPackage>)
    ensures
        match r {
            Some(p) => listed_version(out@) == Some(p@),
            None => listed_version(out@) is None,
        },
{
    let ls = lines(out);
    if ls.len() == 0 {
        return None;
    }
    assert(ls@[0]@ == lines_of(out@)[0]);
    let t = trim(ls[0].as_str());
    let n = t.unicode_len();
    let first = match find_char(t.as_str(), ' ') {
        Some(i) => i,
        None => return None,
    };
    let last = match rfind_char(t.as_str(), ' ') {
        Some(i) => i,
        None => {
            proof {
                crate::text::lemma_last_index_max(t@, ' ', first as int);
            }
            return None;
        },
    };
    proof {
        assert(views(ls@).len() == ls@.len());
        assert(t@ == trimmed(lines_of(out@)[0]));
    }
    let formula = substring(t.as_str(), 0, first);
    let version = substring(t.as_str(), last + 1, n);
    Some(LockedPackage { version, formula })
}

} // verus!
