//! The build-time hook installer's line logic.
//!
//! The installer copies executable hook scripts into a version-control hooks
//! directory. Before copying it prepends a comment block that stamps the
//! script with the installing tool's name, version and homepage; an already
//! installed hook is recognised by that stamp on its third line and left
//! alone. Directory walking and file copying belong to the caller; the
//! functions here work on a script's lines.

use crate::editor::line_matches;
use vstd::prelude::*;
use vstd::string::*;

verus! {

/// Preparing a hook script fails when the script is empty.
#[derive(Debug, PartialEq, Eq, Structural)]
pub enum HookError {
    EmptyUserHook,
}

/// The stamp comment marking a hook installed by `name` at `version`, with
/// its `homepage`.
pub open spec fn stamp_line_spec(name: Seq<char>, version: Seq<char>, homepage: Seq<char>) -> Seq<
    char,
> {
    "# This hook was set for "@ + name + " v"@ + version + ": "@ + homepage
}

/// Build the stamp comment for `name`, `version` and `homepage`.
pub fn stamp_line(name: &str, version: &str, homepage: &str) -> (r: String)
    ensures
        r@ == stamp_line_spec(name@, version@, homepage@),
{
    let mut s = "# This hook was set for ".to_owned();
    s.append(name);
    s.append(" v");
    s.append(version);
    s.append(": ");
    s.append(homepage);
    proof {
        assert(s@ =~= stamp_line_spec(name@, version@, homepage@));
    }
    s
}

/// `needle` occurs in `hay` starting at position `i`.
pub open spec fn occurs_at(hay: Seq<char>, needle: Seq<char>, i: int) -> bool {
    0 <= i && i + needle.len() <= hay.len() && hay.subrange(i, i + needle.len() as int) == needle
}

/// `needle` occurs somewhere in `hay`.
pub open spec fn contains_seq(hay: Seq<char>, needle: Seq<char>) -> bool {
    exists|i: int| occurs_at(hay, needle, i)
}

/// Does `needle` occur in `hay` at position `i`?
fn matches_at(hay: &str, needle: &str, i: usize) -> (b: bool)
    requires
        i + needle@.len() <= hay@.len(),
        hay@.len() <= usize::MAX,
    ensures
        b == occurs_at(hay@, needle@, i as int),
{
    let n = needle.unicode_len();
    let mut j: usize = 0;
    while j < n
        invariant
            j <= n,
            n == needle@.len(),
            i + n <= hay@.len(),
            hay@.len() <= usize::MAX,
            forall|k: int| 0 <= k < j ==> hay@[i + k] == needle@[k],
        decreases n - j,
    {
        if hay.get_char(i + j) != needle.get_char(j) {
            assert(hay@.subrange(i as int, i + needle@.len() as int)[j as int] != needle@[j as int]);
            return false;
        }
        j += 1;
    }
    assert(hay@.subrange(i as int, i + needle@.len() as int) =~= needle@);
    true
}

/// Does `needle` occur anywhere in `hay`?
pub fn str_contains(hay: &str, needle: &str) -> (b: bool)
    ensures
        b == contains_seq(hay@, needle@),
{
    let h = hay.unicode_len();
    let n = needle.unicode_len();
    if n > h {
        assert(forall|i: int| !occurs_at(hay@, needle@, i));
        return false;
    }
    if n == 0 {
        assert(occurs_at(hay@, needle@, 0)) by {
            assert(hay@.subrange(0, 0) =~= needle@);
        }
        return true;
    }
    let last_start = h - n;
    let mut i: usize = 0;
    while i <= last_start
        invariant
            i <= last_start + 1,
            last_start == h - n,
            1 <= n <= h,
            h == hay@.len(),
            n == needle@.len(),
            forall|k: int| 0 <= k < i ==> !occurs_at(hay@, needle@, k),
        decreases last_start + 1 - i,
    {
        if matches_at(hay, needle, i) {
            assert(occurs_at(hay@, needle@, i as int));
            return true;
        }
        i += 1;
    }
    assert(forall|k: int| occurs_at(hay@, needle@, k) ==> 0 <= k < i);
    false
}

/// `s` with every trailing newline and carriage-return character removed;
/// the shape a redirect path takes in a version-control marker file.
pub open spec fn trimmed_spec(s: Seq<char>) -> Seq<char>
    decreases s.len(),
{
    if s.len() > 0 && (s.last() == '\n' || s.last() == '\r') {
        trimmed_spec(s.drop_last())
    } else {
        s
    }
}

/// The trimmed sequence is the prefix that ends where the trailing run of
/// newline characters begins.
proof fn lemma_trimmed_at(s: Seq<char>, e: int)
    requires
        0 <= e <= s.len(),
        forall|k: int| e <= k < s.len() ==> (s[k] == '\n' || s[k] == '\r'),
        e > 0 ==> !(s[e - 1] == '\n' || s[e - 1] == '\r'),
    ensures
        trimmed_spec(s) == s.subrange(0, e),
    decreases s.len(),
{
    if s.len() > 0 && (s.last() == '\n' || s.last() == '\r') {
        assert(e < s.len());
        assert forall|k: int| e <= k < s.drop_last().len() implies (s.drop_last()[k] == '\n'
            || s.drop_last()[k] == '\r') by {
            assert(s.drop_last()[k] == s[k]);
        }
        lemma_trimmed_at(s.drop_last(), e);
        assert(s.drop_last().subrange(0, e) =~= s.subrange(0, e));
    } else {
        assert(e == s.len());
        assert(s.subrange(0, e) =~= s);
    }
}

/// Strip trailing newline and carriage-return characters from `s`.
pub fn trim_newlines(s: &str) -> (r: &str)
    ensures
        r@ == trimmed_spec(s@),
{
    let mut end = s.unicode_len();
    while end > 0 && (s.get_char(end - 1) == '\n' || s.get_char(end - 1) == '\r')
        invariant
            end <= s@.len(),
            forall|k: int| end <= k < s@.len() ==> (s@[k] == '\n' || s@[k] == '\r'),
        decreases end,
    {
        end -= 1;
    }
    let r = s.substring_char(0, end);
    proof {
        lemma_trimmed_at(s@, end as int);
    }
    r
}

/// An existing hook file, given as its lines, is left alone when it has
/// fewer than three lines (a script someone else put there) or its third
/// line carries the given stamp.
pub open spec fn hook_already_exists_spec(lines: Seq<Seq<char>>, stamp: Seq<char>) -> bool {
    lines.len() < 3 || contains_seq(lines[2], stamp)
}

/// Should an existing hook file with these lines be left alone?
pub fn hook_already_exists(lines: &Vec<String>, stamp: &str) -> (b: bool)
    ensures
        b == hook_already_exists_spec(lines.deep_view(), stamp@),
{
    if lines.len() < 3 {
        return true;
    }
    let b = str_contains(lines[2].as_str(), stamp);
    proof {
        assert(lines.deep_view()[2] == lines@[2]@);
    }
    b
}

/// The lines of a hook script as installed: a comment block carrying the
/// stamp is inserted after the shebang line, or put in front together with a
/// placeholder comment line when the script has no shebang.
pub open spec fn prepared_lines_spec(lines: Seq<Seq<char>>, stamp: Seq<char>) -> Seq<Seq<char>> {
    if line_matches(lines[0], "#!"@) {
        seq![lines[0], "#"@, stamp] + lines.drop_first()
    } else {
        seq!["#"@, "#"@, stamp] + lines
    }
}

/// Insert the stamp comment block into the lines of a hook script about to
/// be installed; an empty script is refused.
pub fn prepare_hook_lines(lines: &mut Vec<String>, stamp: &str) -> (r: Result<(), HookError>)
    ensures
        old(lines)@.len() == 0 ==> r == Result::<(), HookError>::Err(HookError::EmptyUserHook)
            && final(lines)@ == old(lines)@,
        old(lines)@.len() > 0 ==> r == Result::<(), HookError>::Ok(())
            && final(lines).deep_view() == prepared_lines_spec(old(lines).deep_view(), stamp@),
{
    if lines.len() == 0 {
        return Err(HookError::EmptyUserHook);
    }
    let has_shebang = crate::editor::line_starts_with(lines[0].as_str(), "#!");
    proof {
        assert(lines.deep_view()[0] == lines@[0]@);
    }
    if !has_shebang {
        lines.insert(0, "#".to_owned());
    }
    lines.insert(1, "#".to_owned());
    lines.insert(2, stamp.to_owned());
    proof {
        assert(lines.deep_view() =~= prepared_lines_spec(old(lines).deep_view(), stamp@));
    }
    Ok(())
}

} // verus!
