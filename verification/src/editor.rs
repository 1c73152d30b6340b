//! The theme-line rewrite engine.
//!
//! A configuration file is modelled as an ordered sequence of lines. The
//! engine scans for the first line whose content starts with a key prefix,
//! replaces that line's content with a replacement line, and leaves every
//! other line untouched; when no line matches, the sequence is left unchanged.

use vstd::prelude::*;
use vstd::string::*;

verus! {

/// A line is targeted by the rewrite when it starts with the key prefix.
pub open spec fn line_matches(line: Seq<char>, prefix: Seq<char>) -> bool {
    prefix.is_prefix_of(line)
}

/// Index of the first line that starts with the prefix, or `lines.len()`
/// when no line does.
pub open spec fn first_match(lines: Seq<Seq<char>>, prefix: Seq<char>) -> int
    decreases lines.len(),
{
    if lines.len() == 0 {
        0
    } else if line_matches(lines[0], prefix) {
        0
    } else {
        1 + first_match(lines.drop_first(), prefix)
    }
}

/// How many lines start with the prefix.
pub open spec fn match_count(lines: Seq<Seq<char>>, prefix: Seq<char>) -> nat
    decreases lines.len(),
{
    if lines.len() == 0 {
        0
    } else {
        (if line_matches(lines[0], prefix) {
            1nat
        } else {
            0nat
        }) + match_count(lines.drop_first(), prefix)
    }
}

/// The rewritten file: the first line that starts with the prefix replaced
/// by the replacement line, everything else kept; the file itself when no
/// line matches.
pub open spec fn rewrite_spec(
    lines: Seq<Seq<char>>,
    prefix: Seq<char>,
    replacement: Seq<char>,
) -> Seq<Seq<char>> {
    if first_match(lines, prefix) < lines.len() {
        lines.update(first_match(lines, prefix), replacement)
    } else {
        lines
    }
}

/// `first_match` stays within bounds, lands on a matching line whenever one
/// exists, and no earlier line matches.
pub proof fn lemma_first_match_props(lines: Seq<Seq<char>>, prefix: Seq<char>)
    ensures
        0 <= first_match(lines, prefix) <= lines.len(),
        first_match(lines, prefix) < lines.len() ==> line_matches(
            lines[first_match(lines, prefix)],
            prefix,
        ),
        forall|j: int| 0 <= j < first_match(lines, prefix) ==> !line_matches(lines[j], prefix),
    decreases lines.len(),
{
    if lines.len() == 0 {
    } else if line_matches(lines[0], prefix) {
    } else {
        lemma_first_match_props(lines.drop_first(), prefix);
        assert forall|j: int| 0 <= j < first_match(lines, prefix) implies !line_matches(
            lines[j],
            prefix,
        ) by {
            if j > 0 {
                assert(lines.drop_first()[j - 1] == lines[j]);
            }
        }
    }
}

/// A file in which no line starts with the prefix has a match count of zero.
proof fn lemma_count_zero(lines: Seq<Seq<char>>, prefix: Seq<char>)
    requires
        forall|j: int| 0 <= j < lines.len() ==> !line_matches(lines[j], prefix),
    ensures
        match_count(lines, prefix) == 0,
    decreases lines.len(),
{
    if lines.len() > 0 {
        assert forall|j: int| 0 <= j < lines.drop_first().len() implies !line_matches(
            lines.drop_first()[j],
            prefix,
        ) by {
            assert(lines.drop_first()[j] == lines[j + 1]);
        }
        lemma_count_zero(lines.drop_first(), prefix);
    }
}

/// A matching line makes the match count at least one.
proof fn lemma_count_ge_one(lines: Seq<Seq<char>>, prefix: Seq<char>, i: int)
    requires
        0 <= i < lines.len(),
        line_matches(lines[i], prefix),
    ensures
        match_count(lines, prefix) >= 1,
    decreases lines.len(),
{
    if i > 0 {
        assert(lines.drop_first()[i - 1] == lines[i]);
        lemma_count_ge_one(lines.drop_first(), prefix, i - 1);
    }
}

/// Two distinct matching lines make the match count at least two.
proof fn lemma_count_ge_two(lines: Seq<Seq<char>>, prefix: Seq<char>, i: int, j: int)
    requires
        0 <= i < j < lines.len(),
        line_matches(lines[i], prefix),
        line_matches(lines[j], prefix),
    ensures
        match_count(lines, prefix) >= 2,
    decreases lines.len(),
{
    assert(lines.drop_first()[j - 1] == lines[j]);
    if i == 0 {
        lemma_count_ge_one(lines.drop_first(), prefix, j - 1);
    } else {
        assert(lines.drop_first()[i - 1] == lines[i]);
        lemma_count_ge_two(lines.drop_first(), prefix, i - 1, j - 1);
    }
}

/// Whenever some line starts with the prefix, the rewrite replaces exactly
/// the first matching line and keeps every other line.
proof fn lemma_rewrite_with_match(lines: Seq<Seq<char>>, prefix: Seq<char>, replacement: Seq<char>)
    requires
        match_count(lines, prefix) >= 1,
    ensures
        0 <= first_match(lines, prefix) < lines.len(),
        line_matches(lines[first_match(lines, prefix)], prefix),
        forall|j: int| 0 <= j < first_match(lines, prefix) ==> !line_matches(lines[j], prefix),
        rewrite_spec(lines, prefix, replacement).len() == lines.len(),
        rewrite_spec(lines, prefix, replacement)[first_match(lines, prefix)] == replacement,
        forall|j: int|
            0 <= j < lines.len() && j != first_match(lines, prefix) ==> rewrite_spec(
                lines,
                prefix,
                replacement,
            )[j] == lines[j],
{
    lemma_first_match_props(lines, prefix);
    if first_match(lines, prefix) == lines.len() {
        lemma_count_zero(lines, prefix);
    }
}

/// Single-line isolation: when exactly one line starts with the prefix, the
/// rewrite changes that line's content to the replacement and leaves every
/// other line byte-identical to the original.
pub proof fn lemma_rewrite_single_match(
    lines: Seq<Seq<char>>,
    prefix: Seq<char>,
    replacement: Seq<char>,
)
    requires
        match_count(lines, prefix) == 1,
    ensures
        0 <= first_match(lines, prefix) < lines.len(),
        line_matches(lines[first_match(lines, prefix)], prefix),
        rewrite_spec(lines, prefix, replacement).len() == lines.len(),
        rewrite_spec(lines, prefix, replacement)[first_match(lines, prefix)] == replacement,
        forall|j: int|
            0 <= j < lines.len() && j != first_match(lines, prefix) ==> rewrite_spec(
                lines,
                prefix,
                replacement,
            )[j] == lines[j],
{
    lemma_rewrite_with_match(lines, prefix, replacement);
}

/// No-match no-op: when no line starts with the prefix, the rewrite leaves
/// the sequence of lines unchanged.
pub proof fn lemma_rewrite_no_match(
    lines: Seq<Seq<char>>,
    prefix: Seq<char>,
    replacement: Seq<char>,
)
    requires
        forall|j: int| 0 <= j < lines.len() ==> !line_matches(lines[j], prefix),
    ensures
        rewrite_spec(lines, prefix, replacement) == lines,
{
    lemma_first_match_props(lines, prefix);
}

/// First-match wins: when several lines start with the prefix, only the
/// first such line (in file order) is replaced; every line before it does
/// not match, and every other line is kept.
pub proof fn lemma_rewrite_first_match_wins(
    lines: Seq<Seq<char>>,
    prefix: Seq<char>,
    replacement: Seq<char>,
)
    requires
        match_count(lines, prefix) >= 2,
    ensures
        0 <= first_match(lines, prefix) < lines.len(),
        line_matches(lines[first_match(lines, prefix)], prefix),
        forall|j: int| 0 <= j < first_match(lines, prefix) ==> !line_matches(lines[j], prefix),
        rewrite_spec(lines, prefix, replacement)[first_match(lines, prefix)] == replacement,
        forall|j: int|
            0 <= j < lines.len() && j != first_match(lines, prefix) ==> rewrite_spec(
                lines,
                prefix,
                replacement,
            )[j] == lines[j],
{
    lemma_rewrite_with_match(lines, prefix, replacement);
}

/// Idempotence: rewriting twice with the same prefix and replacement yields
/// the same file as rewriting once. This holds whenever the replacement line
/// itself starts with the prefix, or at most one line of the original file
/// does; with a replacement that drops the prefix and two or more matching
/// lines, the second rewrite would move on to the next matching line.
pub proof fn lemma_rewrite_idempotent(
    lines: Seq<Seq<char>>,
    prefix: Seq<char>,
    replacement: Seq<char>,
)
    requires
        line_matches(replacement, prefix) || match_count(lines, prefix) <= 1,
    ensures
        rewrite_spec(rewrite_spec(lines, prefix, replacement), prefix, replacement)
            == rewrite_spec(lines, prefix, replacement),
{
    lemma_first_match_props(lines, prefix);
    let fm = first_match(lines, prefix);
    if fm == lines.len() {
        assert(rewrite_spec(lines, prefix, replacement) == lines);
    } else {
        let r = lines.update(fm, replacement);
        assert(rewrite_spec(lines, prefix, replacement) == r);
        if line_matches(replacement, prefix) {
            lemma_first_match_props(r, prefix);
            let fm2 = first_match(r, prefix);
            assert(r[fm] == replacement);
            if fm2 < fm {
                assert(r[fm2] == lines[fm2]);
            }
            assert(fm2 == fm);
            assert(rewrite_spec(r, prefix, replacement) == r.update(fm, replacement));
            assert(r.update(fm, replacement) =~= r);
        } else {
            assert forall|j: int| 0 <= j < r.len() implies !line_matches(r[j], prefix) by {
                if j < fm {
                    assert(r[j] == lines[j]);
                } else if j > fm {
                    assert(r[j] == lines[j]);
                    if line_matches(lines[j], prefix) {
                        lemma_count_ge_two(lines, prefix, fm, j);
                    }
                }
            }
            lemma_rewrite_no_match(r, prefix, replacement);
        }
    }
}

/// Does `line` start with `prefix`?
pub fn line_starts_with(line: &str, prefix: &str) -> (b: bool)
    ensures
        b == line_matches(line@, prefix@),
{
    let line_len = line.unicode_len();
    let prefix_len = prefix.unicode_len();
    if prefix_len > line_len {
        return false;
    }
    let mut i: usize = 0;
    while i < prefix_len
        invariant
            i <= prefix_len,
            prefix_len == prefix@.len(),
            line_len == line@.len(),
            prefix_len <= line_len,
            forall|j: int| 0 <= j < i ==> line@[j] == prefix@[j],
        decreases prefix_len - i,
    {
        if line.get_char(i) != prefix.get_char(i) {
            assert(line@.subrange(0, prefix@.len() as int)[i as int] != prefix@[i as int]);
            return false;
        }
        i += 1;
    }
    assert(line@.subrange(0, prefix@.len() as int) =~= prefix@);
    true
}

/// Index of the first line of `lines` that starts with `prefix`, if any.
fn find_first_match(lines: &Vec<String>, prefix: &str) -> (r: Option<usize>)
    ensures
        match r {
            Some(i) => i < lines@.len() && first_match(lines.deep_view(), prefix@) == i,
            None => first_match(lines.deep_view(), prefix@) == lines@.len(),
        },
{
    let n = lines.len();
    let mut i: usize = 0;
    while i < n
        invariant
            i <= n,
            n == lines@.len(),
            forall|j: int| 0 <= j < i ==> !line_matches(lines.deep_view()[j], prefix@),
        decreases n - i,
    {
        if line_starts_with(lines[i].as_str(), prefix) {
            proof {
                assert(lines.deep_view()[i as int] == lines@[i as int]@);
                lemma_first_match_props(lines.deep_view(), prefix@);
            }
            return Some(i);
        }
        assert(lines.deep_view()[i as int] == lines@[i as int]@);
        i += 1;
    }
    proof {
        lemma_first_match_props(lines.deep_view(), prefix@);
    }
    None
}

/// Replace the content of the first line that starts with `prefix` by
/// `replacement`; leave every other line untouched, and the whole file
/// unchanged when no line matches.
pub fn rewrite(lines: &mut Vec<String>, prefix: &str, replacement: &str)
    requires
        prefix@.len() > 0,
    ensures
        final(lines).deep_view() == rewrite_spec(old(lines).deep_view(), prefix@, replacement@),
{
    match find_first_match(lines, prefix) {
        Some(i) => {
            lines[i] = replacement.to_owned();
            proof {
                assert(lines.deep_view() =~= rewrite_spec(
                    old(lines).deep_view(),
                    prefix@,
                    replacement@,
                ));
            }
        },
        None => {
            proof {
                assert(lines.deep_view() =~= rewrite_spec(
                    old(lines).deep_view(),
                    prefix@,
                    replacement@,
                ));
            }
        },
    }
}

} // verus!
