//! Comma-separated tag and query lists, and the bookkeeping tags
//! "scanned" and "parsed".

use vstd::prelude::*;
use crate::text::{
    ascii_lower, is_ascii_text, is_white_space, join_spec, lemma_split_nonempty, lowercase, owned, same_text, split_on,
    split_spec, texts, to_lower, trim, trim_end, trim_start, trimmed,
};

verus! {

/// The non-empty texts, in order.
pub open spec fn non_empty_only(parts: Seq<Seq<char>>) -> Seq<Seq<char>>
    decreases parts.len(),
{
    if parts.len() == 0 {
        parts
    } else if parts.last().len() > 0 {
        non_empty_only(parts.drop_last()).push(parts.last())
    } else {
        non_empty_only(parts.drop_last())
    }
}

/// A piece of a list, trimmed and lower-cased.
pub open spec fn term_of(piece: Seq<char>) -> Seq<char> {
    lowercase(trimmed(piece))
}

/// The lower-cased, trimmed, non-empty entries of a comma-separated list.
pub open spec fn list_terms(s: Seq<char>) -> Seq<Seq<char>> {
    non_empty_only(split_spec(s, ',').map_values(|p: Seq<char>| term_of(p)))
}

/// The trimmed, non-empty entries of a comma-separated list, case kept.
pub open spec fn list_labels(s: Seq<char>) -> Seq<Seq<char>> {
    non_empty_only(split_spec(s, ',').map_values(|p: Seq<char>| trimmed(p)))
}

/// Splits a comma-separated list into its entries, each trimmed and
/// lower-cased; empty entries are dropped.
pub fn split_terms(input: &str) -> (r: Vec<String>)
    ensures
        texts(r@) == list_terms(input@),
{
    let pieces = split_on(input, ',');
    let ghost pv = pieces.deep_view();
    let mut out: Vec<String> = Vec::new();
    let mut i: usize = 0;
    while i < pieces.len()
        invariant
            pv == pieces.deep_view(),
            pv == split_spec(input@, ','),
            i <= pv.len(),
            texts(out@) == non_empty_only(pv.take(i as int).map_values(|p: Seq<char>| term_of(p))),
        decreases pv.len() - i,
    {
        let t = to_lower(trim(pieces[i].as_str()).as_str());
        let ghost prev = out@;
        proof {
            assert(pieces[i as int]@ == pv[i as int]);
            let m = pv.take(i + 1).map_values(|p: Seq<char>| term_of(p));
            assert(m.drop_last() =~= pv.take(i as int).map_values(|p: Seq<char>| term_of(p)));
            assert(m.last() == t@);
        }
        if !t.as_str().is_empty() {
            out.push(t);
            assert(texts(out@) =~= texts(prev).push(out@.last()@));
        }
        i = i + 1;
    }
    assert(pv.take(pv.len() as int) =~= pv);
    out
}

/// Splits a comma-separated list into its entries, each trimmed, case kept;
/// empty entries are dropped.
pub fn split_labels(input: &str) -> (r: Vec<String>)
    ensures
        texts(r@) == list_labels(input@),
{
    let pieces = split_on(input, ',');
    let ghost pv = pieces.deep_view();
    let mut out: Vec<String> = Vec::new();
    let mut i: usize = 0;
    while i < pieces.len()
        invariant
            pv == pieces.deep_view(),
            pv == split_spec(input@, ','),
            i <= pv.len(),
            texts(out@) == non_empty_only(pv.take(i as int).map_values(|p: Seq<char>| trimmed(p))),
        decreases pv.len() - i,
    {
        let t = trim(pieces[i].as_str());
        let ghost prev = out@;
        proof {
            assert(pieces[i as int]@ == pv[i as int]);
            let m = pv.take(i + 1).map_values(|p: Seq<char>| trimmed(p));
            assert(m.drop_last() =~= pv.take(i as int).map_values(|p: Seq<char>| trimmed(p)));
            assert(m.last() == t@);
        }
        if !t.as_str().is_empty() {
            out.push(t);
            assert(texts(out@) =~= texts(prev).push(out@.last()@));
        }
        i = i + 1;
    }
    assert(pv.take(pv.len() as int) =~= pv);
    out
}

// ---------------------------------------------------------------------------
// "scanned" and "parsed"
// ---------------------------------------------------------------------------

/// `i` is the first position of `t` in `s`.
pub open spec fn is_first_at(s: Seq<Seq<char>>, t: Seq<char>, i: int) -> bool {
    0 <= i < s.len() && s[i] == t && forall|j: int| 0 <= j < i ==> s[j] != t
}

/// The first position of `t` in `s` (meaningful when `s` contains `t`).
pub open spec fn first_at(s: Seq<Seq<char>>, t: Seq<char>) -> int {
    choose|i: int| is_first_at(s, t, i)
}

/// The tag that files found by a directory scan carry.
pub open spec fn scanned_tag() -> Seq<char> {
    "scanned"@
}

/// The tag that files inspected on their own carry.
pub open spec fn parsed_tag() -> Seq<char> {
    "parsed"@
}

/// The tags with the first "scanned" replaced by "parsed".
pub open spec fn promote_scanned(tags: Seq<Seq<char>>) -> Seq<Seq<char>> {
    if tags.contains(scanned_tag()) {
        tags.update(first_at(tags, scanned_tag()), parsed_tag())
    } else {
        tags
    }
}

/// Tags after a metadata refresh: all lower-cased, the first "scanned"
/// becomes "parsed", and "parsed" is added when neither is present.
pub open spec fn refreshed_tags(tags: Seq<Seq<char>>) -> Seq<Seq<char>> {
    let low = tags.map_values(|t: Seq<char>| lowercase(t));
    if low.contains(scanned_tag()) {
        promote_scanned(low)
    } else if !low.contains(parsed_tag()) {
        low.push(parsed_tag())
    } else {
        low
    }
}

proof fn lemma_first_at(s: Seq<Seq<char>>, t: Seq<char>, i: int)
    requires
        0 <= i < s.len(),
        s[i] == t,
        forall|j: int| 0 <= j < i ==> s[j] != t,
    ensures
        first_at(s, t) == i,
{
    assert(is_first_at(s, t, i));
    let k = first_at(s, t);
    assert(is_first_at(s, t, k));
    if k < i {
        assert(s[k] != t);
    }
    if k > i {
        assert(s[i] != t);
    }
}

/// Replaces the first "scanned" tag with "parsed"; tells whether it did.
pub fn promote_first_scanned(tags: &mut Vec<String>) -> (changed: bool)
    ensures
        changed == texts(old(tags)@).contains(scanned_tag()),
        texts(final(tags)@) == promote_scanned(texts(old(tags)@)),
{
    let ghost start = texts(tags@);
    let mut i: usize = 0;
    while i < tags.len()
        invariant
            start == texts(tags@),
            start == texts(old(tags)@),
            i <= tags@.len(),
            forall|j: int| 0 <= j < i ==> #[trigger] start[j] != scanned_tag(),
        decreases tags@.len() - i,
    {
        if same_text(tags[i].as_str(), "scanned") {
            proof {
                assert(start[i as int] == scanned_tag());
                lemma_first_at(start, scanned_tag(), i as int);
                assert(start.contains(scanned_tag()));
            }
            let ghost before = tags@;
            tags.set(i, owned("parsed"));
            assert(texts(tags@) =~= start.update(i as int, parsed_tag()));
            return true;
        }
        i = i + 1;
    }
    assert(!start.contains(scanned_tag()));
    false
}

/// Whether the list holds the given tag.
fn has_tag(tags: &Vec<String>, t: &str) -> (r: bool)
    ensures
        r == texts(tags@).contains(t@),
{
    crate::text::list_contains(tags.as_slice(), t)
}

/// Lower-cases every tag in place.
fn lower_all(tags: &mut Vec<String>)
    ensures
        texts(final(tags)@) == texts(old(tags)@).map_values(|t: Seq<char>| lowercase(t)),
{
    let ghost start = texts(tags@);
    let mut i: usize = 0;
    while i < tags.len()
        invariant
            i <= tags@.len(),
            start.len() == tags@.len(),
            forall|j: int| 0 <= j < i ==> #[trigger] tags@[j]@ == lowercase(start[j]),
            forall|j: int| i <= j < tags@.len() ==> #[trigger] tags@[j]@ == start[j],
        decreases tags@.len() - i,
    {
        let low = to_lower(tags[i].as_str());
        tags.set(i, low);
        i = i + 1;
    }
    assert(texts(tags@) =~= start.map_values(|t: Seq<char>| lowercase(t)));
}

/// Brings the tags of a refreshed file into shape: lower-cased, the first
/// "scanned" becomes "parsed", and "parsed" is added when neither is present.
/// Afterwards the tags always hold "parsed".
pub fn refresh_tags(tags: &mut Vec<String>)
    ensures
        texts(final(tags)@) == refreshed_tags(texts(old(tags)@)),
        texts(final(tags)@).contains(parsed_tag()),
{
    lower_all(tags);
    let ghost low = texts(tags@);
    if promote_first_scanned(tags) {
        proof {
            let i = first_at(low, scanned_tag());
            assert(is_first_at(low, scanned_tag(), i)) by {
                let k = choose|k: int| 0 <= k < low.len() && low[k] == scanned_tag();
                lemma_least_position(low, scanned_tag(), k);
            }
            assert(texts(tags@)[i] == parsed_tag());
        }
    } else if !has_tag(tags, "parsed") {
        let ghost before = tags@;
        tags.push(owned("parsed"));
        assert(texts(tags@) =~= texts(before).push(parsed_tag()));
        assert(texts(tags@)[texts(tags@).len() - 1] == parsed_tag());
    }
}

/// Among the positions holding `t`, some one is the first.
proof fn lemma_least_position(s: Seq<Seq<char>>, t: Seq<char>, k: int)
    requires
        0 <= k < s.len(),
        s[k] == t,
    ensures
        exists|i: int| is_first_at(s, t, i),
    decreases k,
{
    if exists|j: int| 0 <= j < k && s[j] == t {
        let j = choose|j: int| 0 <= j < k && s[j] == t;
        lemma_least_position(s, t, j);
    } else {
        assert(is_first_at(s, t, k));
    }
}

// ---------------------------------------------------------------------------
// Showing and reading back a tag list
// ---------------------------------------------------------------------------

/// No whitespace at either end.
pub open spec fn is_trimmed(t: Seq<char>) -> bool {
    t.len() == 0 || (!is_white_space(t[0]) && !is_white_space(t.last()))
}

/// Tags that survive being shown as a comma-separated list and read back:
/// no commas, no surrounding whitespace.
pub open spec fn comma_free(tags: Seq<Seq<char>>) -> bool {
    forall|i: int| 0 <= i < tags.len() ==> !(#[trigger] tags[i]).contains(',')
}

/// Tags that survive being shown as a comma-separated list and read back
/// with case kept: no commas, no surrounding whitespace.
pub open spec fn plain_tags(tags: Seq<Seq<char>>) -> bool {
    forall|i: int| 0 <= i < tags.len() ==> !(#[trigger] tags[i]).contains(',') && is_trimmed(tags[i])
}

/// The pieces that splitting a ", "-joined list at commas gives back.
pub open spec fn spaced(parts: Seq<Seq<char>>) -> Seq<Seq<char>>
    decreases parts.len(),
{
    if parts.len() == 0 {
        seq![Seq::<char>::empty()]
    } else if parts.len() == 1 {
        seq![parts[0]]
    } else {
        spaced(parts.drop_last()).push(seq![' '] + parts.last())
    }
}

proof fn lemma_split_push_sep(s: Seq<char>, sep: char)
    ensures
        split_spec(s.push(sep), sep) == split_spec(s, sep).push(Seq::<char>::empty()),
{
    assert(s.push(sep).drop_last() =~= s);
}

proof fn lemma_split_append_plain(s: Seq<char>, t: Seq<char>, sep: char)
    requires
        !t.contains(sep),
    ensures
        split_spec(s + t, sep) == split_spec(s, sep).update(
            split_spec(s, sep).len() - 1,
            split_spec(s, sep).last() + t,
        ),
    decreases t.len(),
{
    lemma_split_nonempty(s, sep);
    let r = split_spec(s, sep);
    if t.len() == 0 {
        assert(s + t =~= s);
        assert(r.last() + t =~= r.last());
        assert(r.update(r.len() - 1, r.last() + t) =~= r);
    } else {
        let td = t.drop_last();
        assert(!td.contains(sep)) by {
            if td.contains(sep) {
                let k = choose|k: int| 0 <= k < td.len() && td[k] == sep;
                assert(t[k] == sep);
            }
        }
        lemma_split_append_plain(s, td, sep);
        assert((s + t).drop_last() =~= s + td);
        assert((s + t).last() == t.last());
        assert(t.last() != sep) by {
            assert(t[t.len() - 1] == t.last());
        }
        let rd = split_spec(s + td, sep);
        assert(rd.last() == r.last() + td);
        assert((r.last() + td).push(t.last()) =~= r.last() + t);
        assert(split_spec(s + t, sep) =~= r.update(r.len() - 1, r.last() + t));
    }
}

proof fn lemma_split_joined(parts: Seq<Seq<char>>)
    requires
        comma_free(parts),
    ensures
        split_spec(join_spec(parts, seq![',', ' ']), ',') == spaced(parts),
    decreases parts.len(),
{
    let sep = seq![',', ' '];
    if parts.len() == 0 {
    } else if parts.len() == 1 {
        assert(!parts[0].contains(','));
        lemma_split_append_plain(Seq::<char>::empty(), parts[0], ',');
        assert(Seq::<char>::empty() + parts[0] =~= parts[0]);
        assert(Seq::<char>::empty() + parts[0] =~= parts[0]);
        assert(split_spec(parts[0], ',') =~= seq![parts[0]]);
    } else {
        let dl = parts.drop_last();
        let last = parts.last();
        assert(comma_free(dl)) by {
            assert forall|i: int| 0 <= i < dl.len() implies !(#[trigger] dl[i]).contains(',') by {
                assert(dl[i] == parts[i]);
            }
        }
        lemma_split_joined(dl);
        let j = join_spec(dl, sep);
        let tail = seq![' '] + last;
        assert(!last.contains(',')) by {
            assert(parts[parts.len() - 1] == last);
        }
        assert(!tail.contains(',')) by {
            if tail.contains(',') {
                let k = choose|k: int| 0 <= k < tail.len() && tail[k] == ',';
                assert(k > 0);
                assert(last[k - 1] == ',');
            }
        }
        assert(join_spec(parts, sep) =~= j.push(',') + tail);
        lemma_split_append_plain(j.push(','), tail, ',');
        lemma_split_push_sep(j, ',');
        let r = split_spec(j, ',').push(Seq::<char>::empty());
        assert(r.last() + tail =~= tail);
        assert(r.update(r.len() - 1, tail) =~= split_spec(j, ',').push(tail));
    }
}

proof fn lemma_spaced_index(parts: Seq<Seq<char>>, i: int)
    requires
        parts.len() >= 1,
        0 <= i < parts.len(),
    ensures
        spaced(parts).len() == parts.len(),
        spaced(parts)[i] == if i == 0 { parts[0] } else { seq![' '] + parts[i] },
    decreases parts.len(),
{
    if parts.len() > 1 {
        if i < parts.len() - 1 {
            lemma_spaced_index(parts.drop_last(), i);
        } else {
            lemma_spaced_index(parts.drop_last(), 0);
        }
    }
}

proof fn lemma_trimmed_fixed(t: Seq<char>)
    requires
        is_trimmed(t),
    ensures
        trimmed(t) == t,
        trimmed(seq![' '] + t) == t,
{
    let sp = seq![' '] + t;
    assert(sp.drop_first() =~= t);
    assert(is_white_space(sp[0]));
    if t.len() > 0 {
        assert(t.last() == t[t.len() - 1]);
    }
    assert(trim_start(t) == t);
    assert(trim_end(t) == t);
    assert(trim_start(sp) == trim_start(t));
}

/// Reading back a tag list shown as "a, b, c" gives the same tags, less any
/// empty ones, when no tag holds a comma or surrounding whitespace.
pub proof fn law_labels_read_back(tags: Seq<Seq<char>>)
    requires
        plain_tags(tags),
    ensures
        list_labels(join_spec(tags, ", "@)) == non_empty_only(tags),
{
    reveal_strlit(", ");
    assert(", "@ =~= seq![',', ' ']);
    lemma_split_joined(tags);
    let m = spaced(tags).map_values(|p: Seq<char>| trimmed(p));
    if tags.len() == 0 {
        let e = Seq::<char>::empty();
        assert(trim_start(e) == e);
        assert(trim_end(e) == e);
        assert(m =~= seq![e]);
        assert(m.drop_last() =~= Seq::<Seq<char>>::empty());
        assert(m.last().len() == 0);
        assert(non_empty_only(m) == non_empty_only(m.drop_last()));
        assert(non_empty_only(m) =~= non_empty_only(tags));
    } else {
        assert forall|i: int| 0 <= i < tags.len() implies #[trigger] m[i] == tags[i] by {
            lemma_spaced_index(tags, i);
            lemma_trimmed_fixed(tags[i]);
        }
        lemma_spaced_index(tags, 0);
        assert(m =~= tags);
    }
}

proof fn lemma_trim_after_space(t: Seq<char>)
    ensures
        trimmed(seq![' '] + t) == trimmed(t),
{
    let sp = seq![' '] + t;
    assert(sp.drop_first() =~= t);
    assert(is_white_space(sp[0]));
}

proof fn lemma_non_empty_kept(parts: Seq<Seq<char>>)
    requires
        forall|i: int| 0 <= i < parts.len() ==> (#[trigger] parts[i]).len() > 0,
    ensures
        non_empty_only(parts) == parts,
    decreases parts.len(),
{
    if parts.len() > 0 {
        let dl = parts.drop_last();
        assert forall|i: int| 0 <= i < dl.len() implies (#[trigger] dl[i]).len() > 0 by {
            assert(dl[i] == parts[i]);
        }
        lemma_non_empty_kept(dl);
        assert(parts.last() == parts[parts.len() - 1]);
        assert(dl.push(parts.last()) =~= parts);
    }
}

proof fn lemma_empty_list_reads_empty()
    ensures
        list_terms(join_spec(Seq::<Seq<char>>::empty(), ", "@)) == Seq::<Seq<char>>::empty(),
{
    let e = Seq::<char>::empty();
    lemma_split_joined(Seq::<Seq<char>>::empty());
    reveal_strlit(", ");
    assert(", "@ =~= seq![',', ' ']);
    assert(trim_start(e) == e);
    assert(trim_end(e) == e);
    assert(is_ascii_text(e));
    assert(e.map_values(|c: char| ascii_lower(c)) =~= e);
    assert(term_of(e) == e);
    let m = spaced(Seq::<Seq<char>>::empty()).map_values(|p: Seq<char>| term_of(p));
    assert(m =~= seq![e]);
    assert(m.drop_last() =~= Seq::<Seq<char>>::empty());
    assert(non_empty_only(m) == non_empty_only(m.drop_last()));
}

/// Reading back a tag list shown as "a, b, c" with lower-casing gives the
/// lower-cased tags, less any that are empty, when no tag holds a comma or
/// surrounding whitespace.
pub proof fn law_terms_read_back(tags: Seq<Seq<char>>)
    requires
        plain_tags(tags),
    ensures
        list_terms(join_spec(tags, ", "@)) == non_empty_only(
            tags.map_values(|t: Seq<char>| lowercase(t)),
        ),
{
    reveal_strlit(", ");
    assert(", "@ =~= seq![',', ' ']);
    if tags.len() == 0 {
        lemma_empty_list_reads_empty();
        assert(tags =~= Seq::<Seq<char>>::empty());
        assert(tags.map_values(|t: Seq<char>| lowercase(t)) =~= Seq::<Seq<char>>::empty());
    } else {
        lemma_split_joined(tags);
        let m = spaced(tags).map_values(|p: Seq<char>| term_of(p));
        let low = tags.map_values(|t: Seq<char>| lowercase(t));
        assert forall|i: int| 0 <= i < tags.len() implies #[trigger] m[i] == low[i] by {
            lemma_spaced_index(tags, i);
            lemma_trimmed_fixed(tags[i]);
        }
        lemma_spaced_index(tags, 0);
        assert(m =~= low);
    }
}

/// Tags that reading with lower-casing gives back unchanged: each non-empty,
/// without commas, and equal to its own trimmed, lower-cased form.
pub open spec fn settled_terms(tags: Seq<Seq<char>>) -> bool {
    forall|i: int|
        0 <= i < tags.len() ==> (#[trigger] tags[i]).len() > 0 && !tags[i].contains(',')
            && tags[i] == term_of(tags[i])
}

/// Tags shown as "a, b, c" and read back with lower-casing come back as they
/// were, the empty list included, when each is non-empty, holds no comma and
/// is its own trimmed, lower-cased form.
pub proof fn law_saved_buffer_keeps_terms(tags: Seq<Seq<char>>)
    requires
        settled_terms(tags),
    ensures
        list_terms(join_spec(tags, ", "@)) == tags,
{
    reveal_strlit(", ");
    assert(", "@ =~= seq![',', ' ']);
    if tags.len() == 0 {
        lemma_empty_list_reads_empty();
        assert(tags =~= Seq::<Seq<char>>::empty());
    } else {
        assert(comma_free(tags));
        lemma_split_joined(tags);
        let m = spaced(tags).map_values(|p: Seq<char>| term_of(p));
        assert forall|i: int| 0 <= i < tags.len() implies #[trigger] m[i] == tags[i] by {
            lemma_spaced_index(tags, i);
            lemma_trim_after_space(tags[i]);
        }
        lemma_spaced_index(tags, 0);
        assert(m =~= tags);
        lemma_non_empty_kept(tags);
    }
}

} // verus!
