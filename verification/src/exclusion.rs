//! Exclusion patterns for file names: `*.ext` by extension, `*mid*` by
//! substring, `*suffix`, `prefix*`, or an exact name.

use vstd::prelude::*;
use vstd::slice::slice_subrange;
use crate::text::{
    chars_of, contains_chars, ends_with_chars, from_chars, has_infix, has_prefix, has_suffix,
    lowercase, matches_at, occurs_at, same_text, starts_with_chars, texts, to_lower,
};

verus! {

/// Whether one pattern excludes a file with this name and (lower-case) extension.
pub open spec fn pattern_excludes(p: Seq<char>, name: Seq<char>, ext: Seq<char>) -> bool {
    if has_prefix(p, seq!['*', '.']) {
        ext == lowercase(p.skip(2))
    } else if p.len() > 0 && p[0] == '*' && p.last() == '*' {
        has_infix(name, p.subrange(1, p.len() - 1))
    } else if p.len() > 0 && p[0] == '*' {
        has_suffix(name, p.skip(1))
    } else if p.len() > 0 && p.last() == '*' {
        has_prefix(name, p.take(p.len() - 1))
    } else {
        name == p
    }
}

/// Some pattern among the first `n` excludes the file.
pub open spec fn excluded_by_first(patterns: Seq<Seq<char>>, n: int, name: Seq<char>, ext: Seq<char>) -> bool {
    exists|j: int| 0 <= j < n && #[trigger] pattern_excludes(patterns[j], name, ext)
}

/// Some pattern excludes the file.
pub open spec fn excluded_by(patterns: Seq<Seq<char>>, name: Seq<char>, ext: Seq<char>) -> bool {
    excluded_by_first(patterns, patterns.len() as int, name, ext)
}

/// The scan reaches a pattern that is a lone `*` before any pattern matched.
/// Such a pattern has no middle between its two stars, and slicing it out fails.
pub open spec fn reaches_lone_star(patterns: Seq<Seq<char>>, name: Seq<char>, ext: Seq<char>) -> bool {
    exists|i: int|
        0 <= i < patterns.len() && #[trigger] patterns[i] == seq!['*'] && !excluded_by_first(
            patterns,
            i,
            name,
            ext,
        )
}

/// Whether one pattern excludes the file.
fn pattern_matches(pattern: &str, name: &[char], extension: &str) -> (r: bool)
    requires
        pattern@ != seq!['*'],
    ensures
        r == pattern_excludes(pattern@, name@, extension@),
{
    let p = chars_of(pattern);
    let n = p.len();
    proof { reveal_strlit("*."); }
    let star_dot = chars_of("*.");
    assert(star_dot@ =~= seq!['*', '.']);
    assert(n > 0 ==> p@.last() == p@[n - 1]);
    if starts_with_chars(p.as_slice(), star_dot.as_slice()) {
        let rest = from_chars(slice_subrange(p.as_slice(), 2, n));
        assert(rest@ =~= pattern@.skip(2));
        let target = to_lower(rest.as_str());
        same_text(extension, target.as_str())
    } else if n > 0 && p[0] == '*' && p[n - 1] == '*' {
        if n == 1 {
            assert(p@ =~= seq!['*']);
        }
        let mid = slice_subrange(p.as_slice(), 1, n - 1);
        contains_chars(name, mid)
    } else if n > 0 && p[0] == '*' {
        let suf = slice_subrange(p.as_slice(), 1, n);
        assert(suf@ =~= pattern@.skip(1));
        ends_with_chars(name, suf)
    } else if n > 0 && p[n - 1] == '*' {
        let pre = slice_subrange(p.as_slice(), 0, n - 1);
        assert(pre@ =~= pattern@.take(n - 1));
        starts_with_chars(name, pre)
    } else {
        let r = matches_at_whole(name, p.as_slice());
        r
    }
}

/// Whether two character slices are equal.
fn matches_at_whole(a: &[char], b: &[char]) -> (r: bool)
    ensures
        r == (a@ == b@),
{
    if a.len() != b.len() {
        false
    } else {
        let r = matches_at(a, b, 0);
        assert(a@.subrange(0, b@.len() as int) =~= a@);
        r
    }
}

/// Whether a file is excluded by the configured patterns. The first pattern
/// that matches decides; the extension is compared with the lower-cased text
/// after `*.`.
pub fn is_file_excluded(file_name: &str, extension: &str, excluded_patterns: &[String]) -> (r: bool)
    requires
        !reaches_lone_star(texts(excluded_patterns@), file_name@, extension@),
    ensures
        r == excluded_by(texts(excluded_patterns@), file_name@, extension@),
{
    let ghost ps = texts(excluded_patterns@);
    let name = chars_of(file_name);
    let mut i: usize = 0;
    while i < excluded_patterns.len()
        invariant
            ps == texts(excluded_patterns@),
            name@ == file_name@,
            i <= ps.len(),
            !reaches_lone_star(ps, file_name@, extension@),
            !excluded_by_first(ps, i as int, file_name@, extension@),
        decreases ps.len() - i,
    {
        let pattern: &str = excluded_patterns[i].as_str();
        assert(ps[i as int] == pattern@);
        proof {
            if pattern@ == seq!['*'] {
                assert(reaches_lone_star(ps, file_name@, extension@));
            }
        }
        if pattern_matches(pattern, name.as_slice(), extension) {
            assert(pattern_excludes(ps[i as int], file_name@, extension@));
            return true;
        }
        assert forall|j: int| 0 <= j < i + 1 implies !#[trigger] pattern_excludes(ps[j], file_name@, extension@) by {
            if j < i {
                assert(!excluded_by_first(ps, i as int, file_name@, extension@));
            }
        }
        i = i + 1;
    }
    false
}

/// Whether a scan of the patterns would meet a lone `*` before any pattern
/// matched: the one input on which `is_file_excluded` has no answer.
pub fn meets_lone_star(file_name: &str, extension: &str, excluded_patterns: &[String]) -> (r: bool)
    ensures
        r == reaches_lone_star(texts(excluded_patterns@), file_name@, extension@),
{
    let ghost ps = texts(excluded_patterns@);
    let name = chars_of(file_name);
    let star = chars_of("*");
    proof { reveal_strlit("*"); }
    assert(star@ =~= seq!['*']);
    let mut i: usize = 0;
    while i < excluded_patterns.len()
        invariant
            ps == texts(excluded_patterns@),
            name@ == file_name@,
            star@ == seq!['*'],
            i <= ps.len(),
            forall|k: int| 0 <= k < i ==> #[trigger] ps[k] != seq!['*'],
            !excluded_by_first(ps, i as int, file_name@, extension@),
        decreases ps.len() - i,
    {
        let pattern: &str = excluded_patterns[i].as_str();
        assert(ps[i as int] == pattern@);
        let pc = chars_of(pattern);
        if matches_at_whole(pc.as_slice(), star.as_slice()) {
            assert(reaches_lone_star(ps, file_name@, extension@));
            return true;
        }
        if pattern_matches(pattern, name.as_slice(), extension) {
            assert forall|k: int| 0 <= k < ps.len() && #[trigger] ps[k] == seq!['*'] implies excluded_by_first(ps, k, file_name@, extension@) by {
                assert(k > i);
                assert(pattern_excludes(ps[i as int], file_name@, extension@));
            }
            return false;
        }
        assert forall|j: int| 0 <= j < i + 1 implies !#[trigger] pattern_excludes(ps[j], file_name@, extension@) by {
            if j < i {
                assert(!excluded_by_first(ps, i as int, file_name@, extension@));
            }
        }
        i = i + 1;
    }
    false
}

/// A pattern that ends with `*` and does not start with one, `t*`, excludes
/// exactly the names that begin with `t`, whatever the extension.
pub proof fn law_prefix_pattern(t: Seq<char>, name: Seq<char>, ext: Seq<char>)
    requires
        t.len() > 0,
        t[0] != '*',
    ensures
        excluded_by(seq![t.push('*')], name, ext) <==> (t.len() <= name.len()
            && name.subrange(0, t.len() as int) == t),
{
    let p = t.push('*');
    assert(p[0] == t[0]);
    assert(!has_prefix(p, seq!['*', '.'])) by {
        if has_prefix(p, seq!['*', '.']) {
            assert(p.subrange(0, 2)[0] == p[0]);
        }
    }
    assert(p.take(p.len() - 1) =~= t);
    assert(seq![p][0] == p);
    if pattern_excludes(p, name, ext) {
        assert(excluded_by(seq![p], name, ext));
    }
}

/// A pattern `*t` (t without stars, not starting with a dot) excludes
/// exactly the names that end with `t`, whatever the extension.
pub proof fn law_suffix_pattern(t: Seq<char>, name: Seq<char>, ext: Seq<char>)
    requires
        t.len() > 0,
        !t.contains('*'),
        t[0] != '.',
    ensures
        excluded_by(seq![seq!['*'] + t], name, ext) <==> (t.len() <= name.len()
            && name.subrange(name.len() - t.len(), name.len() as int) == t),
{
    let p = seq!['*'] + t;
    assert(t[t.len() - 1] != '*');
    assert(p.last() == t[t.len() - 1]);
    assert(p[1] == t[0]);
    assert(!has_prefix(p, seq!['*', '.'])) by {
        if has_prefix(p, seq!['*', '.']) {
            assert(p.subrange(0, 2)[1] == p[1]);
        }
    }
    assert(p.skip(1) =~= t);
    assert(seq![p][0] == p);
    if pattern_excludes(p, name, ext) {
        assert(excluded_by(seq![p], name, ext));
    }
}

/// A pattern `*t*` (t without stars, not starting with a dot) excludes
/// exactly the names in which `t` occurs, whatever the extension.
pub proof fn law_infix_pattern(t: Seq<char>, name: Seq<char>, ext: Seq<char>)
    requires
        !t.contains('*'),
        t.len() == 0 || t[0] != '.',
    ensures
        excluded_by(seq![seq!['*'] + t + seq!['*']], name, ext) <==> exists|i: int|
            0 <= i && i + t.len() <= name.len() && #[trigger] name.subrange(i, i + t.len()) == t,
{
    let p = seq!['*'] + t + seq!['*'];
    assert(p[0] == '*');
    assert(p.last() == '*');
    assert(!has_prefix(p, seq!['*', '.'])) by {
        if has_prefix(p, seq!['*', '.']) {
            assert(p.subrange(0, 2)[1] == p[1]);
            if t.len() > 0 {
                assert(p[1] == t[0]);
            } else {
                assert(p[1] == '*');
            }
        }
    }
    assert(p.subrange(1, p.len() - 1) =~= t);
    assert(seq![p][0] == p);
    if pattern_excludes(p, name, ext) {
        assert(excluded_by(seq![p], name, ext));
        let i = choose|i: int| occurs_at(name, t, i);
        assert(name.subrange(i, i + t.len()) == t);
    }
    if exists|i: int|
        0 <= i && i + t.len() <= name.len() && #[trigger] name.subrange(i, i + t.len()) == t {
        let i = choose|i: int|
            0 <= i && i + t.len() <= name.len() && #[trigger] name.subrange(i, i + t.len()) == t;
        assert(occurs_at(name, t, i));
        assert(pattern_excludes(p, name, ext));
        assert(pattern_excludes(seq![p][0], name, ext));
    }
}

/// A pattern without stars excludes exactly the name equal to it.
pub proof fn law_exact_pattern(t: Seq<char>, name: Seq<char>, ext: Seq<char>)
    requires
        t.len() > 0,
        !t.contains('*'),
    ensures
        excluded_by(seq![t], name, ext) <==> name == t,
{
    assert(t[0] != '*');
    assert(t.last() != '*') by {
        assert(t[t.len() - 1] == t.last());
    }
    assert(!has_prefix(t, seq!['*', '.'])) by {
        if has_prefix(t, seq!['*', '.']) {
            assert(t.subrange(0, 2)[0] == t[0]);
        }
    }
    assert(seq![t][0] == t);
    if pattern_excludes(t, name, ext) {
        assert(excluded_by(seq![t], name, ext));
    }
}

/// A pattern `*.t` excludes exactly the files whose extension is `t`
/// lower-cased, whatever the name.
pub proof fn law_extension_pattern(t: Seq<char>, name: Seq<char>, ext: Seq<char>)
    ensures
        excluded_by(seq![seq!['*', '.'] + t], name, ext) <==> ext == lowercase(t),
{
    let p = seq!['*', '.'] + t;
    assert(p.subrange(0, 2) =~= seq!['*', '.']);
    assert(p.skip(2) =~= t);
    assert(seq![p][0] == p);
    if pattern_excludes(p, name, ext) {
        assert(excluded_by(seq![p], name, ext));
    }
}

/// One matching pattern anywhere in the list excludes the file.
pub proof fn law_any_pattern_excludes(patterns: Seq<Seq<char>>, i: int, name: Seq<char>, ext: Seq<char>)
    requires
        0 <= i < patterns.len(),
        excluded_by(seq![patterns[i]], name, ext),
    ensures
        excluded_by(patterns, name, ext),
{
    let j = choose|j: int| 0 <= j < 1 && #[trigger] pattern_excludes(seq![patterns[i]][j], name, ext);
    assert(pattern_excludes(patterns[i], name, ext));
}

} // verus!
