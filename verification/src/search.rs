//! The search panel: which records a comma-separated query selects, and
//! the labels shown for them.

use vstd::prelude::*;
use crate::metadata::{FileInfoView, FileMetadataInfo};
use crate::sizes::{file_size_text, format_file_size};
use crate::text::{
    chars_of, contains_chars, decimal, has_infix, join, join_spec, lowercase, owned, same_text,
    texts, to_lower, decimal_string,
};

verus! {

broadcast use vstd::string::group_string_axioms;

/// One query term selects a record when it occurs in the lower-cased name
/// or in a lower-cased tag, or equals the lower-cased extension.
pub open spec fn term_hits(info: FileInfoView, term: Seq<char>) -> bool {
    ||| has_infix(lowercase(info.name), term)
    ||| exists|j: int| 0 <= j < info.tags.len() && has_infix(lowercase(#[trigger] info.tags[j]), term)
    ||| lowercase(info.extension) == term
}

/// A record is shown when there are no terms or some term selects it.
pub open spec fn record_matches(info: FileInfoView, terms: Seq<Seq<char>>) -> bool {
    terms.len() == 0 || exists|k: int| 0 <= k < terms.len() && term_hits(info, #[trigger] terms[k])
}

/// The positions of the shown records among the first `n`, in order.
pub open spec fn matching_positions(files: Seq<FileInfoView>, terms: Seq<Seq<char>>, n: int) -> Seq<usize>
    decreases n,
{
    if n <= 0 {
        seq![]
    } else if record_matches(files[n - 1], terms) {
        matching_positions(files, terms, n - 1).push((n - 1) as usize)
    } else {
        matching_positions(files, terms, n - 1)
    }
}

/// The records as texts.
pub open spec fn records(files: Seq<FileMetadataInfo>) -> Seq<FileInfoView> {
    files.map_values(|f: FileMetadataInfo| f@)
}

fn term_hits_exec(info: &FileMetadataInfo, term: &str) -> (r: bool)
    ensures
        r == term_hits(info@, term@),
{
    let t = chars_of(term);
    let name = to_lower(info.name.as_str());
    let name_cs = chars_of(name.as_str());
    if contains_chars(name_cs.as_slice(), t.as_slice()) {
        return true;
    }
    let mut j: usize = 0;
    while j < info.tags.len()
        invariant
            t@ == term@,
            j <= info.tags@.len(),
            forall|k: int| 0 <= k < j ==> !has_infix(lowercase(#[trigger] info@.tags[k]), term@),
        decreases info.tags@.len() - j,
    {
        let low = to_lower(info.tags[j].as_str());
        let low_cs = chars_of(low.as_str());
        if contains_chars(low_cs.as_slice(), t.as_slice()) {
            assert(info@.tags[j as int] == info.tags@[j as int]@);
            return true;
        }
        j = j + 1;
    }
    let ext = to_lower(info.extension.as_str());
    same_text(ext.as_str(), term)
}

/// Whether a record is shown for these terms.
pub fn matches_query(info: &FileMetadataInfo, terms: &Vec<String>) -> (r: bool)
    ensures
        r == record_matches(info@, texts(terms@)),
{
    if terms.len() == 0 {
        return true;
    }
    let mut k: usize = 0;
    while k < terms.len()
        invariant
            k <= terms@.len(),
            forall|i: int| 0 <= i < k ==> !term_hits(info@, #[trigger] texts(terms@)[i]),
        decreases terms@.len() - k,
    {
        if term_hits_exec(info, terms[k].as_str()) {
            assert(term_hits(info@, texts(terms@)[k as int]));
            return true;
        }
        k = k + 1;
    }
    false
}

/// The positions of the records that the terms select, in order.
pub fn filter_matches(files: &Vec<FileMetadataInfo>, terms: &Vec<String>) -> (r: Vec<usize>)
    ensures
        r@ == matching_positions(records(files@), texts(terms@), files@.len() as int),
{
    let mut r: Vec<usize> = Vec::new();
    let mut i: usize = 0;
    while i < files.len()
        invariant
            i <= files@.len(),
            r@ == matching_positions(records(files@), texts(terms@), i as int),
        decreases files@.len() - i,
    {
        assert(records(files@)[i as int] == files@[i as int]@);
        if matches_query(&files[i], terms) {
            r.push(i);
        }
        i = i + 1;
    }
    r
}

/// An empty query shows every record, in order.
pub proof fn law_empty_query_shows_all(files: Seq<FileInfoView>, n: int)
    requires
        0 <= n <= files.len(),
    ensures
        matching_positions(files, Seq::<Seq<char>>::empty(), n) == Seq::new(n as nat, |i: int| i as usize),
    decreases n,
{
    if n > 0 {
        law_empty_query_shows_all(files, n - 1);
        assert(Seq::new(n as nat, |i: int| i as usize) =~= Seq::new((n - 1) as nat, |i: int| i as usize).push(
            (n - 1) as usize,
        ));
    } else {
        assert(Seq::new(0, |i: int| i as usize) =~= Seq::<usize>::empty());
    }
}

/// Terms are alternatives: once a query has a term, adding another term
/// never hides a record that was shown.
pub proof fn law_added_term_keeps_matches(info: FileInfoView, terms: Seq<Seq<char>>, extra: Seq<char>)
    requires
        terms.len() > 0,
        record_matches(info, terms),
    ensures
        record_matches(info, terms.push(extra)),
{
    let k = choose|k: int| 0 <= k < terms.len() && term_hits(info, #[trigger] terms[k]);
    assert(terms.push(extra)[k] == terms[k]);
}

/// A term occurring anywhere inside a record's lower-cased name selects it.
pub proof fn law_name_occurrence_selects(info: FileInfoView, a: Seq<char>, t: Seq<char>, b: Seq<char>)
    requires
        lowercase(info.name) == a + t + b,
    ensures
        record_matches(info, seq![t]),
{
    let low = lowercase(info.name);
    assert(low.subrange(a.len() as int, (a.len() + t.len()) as int) =~= t);
    assert(crate::text::occurs_at(low, t, a.len() as int));
    assert(term_hits(info, seq![t][0]));
}

/// A term occurring anywhere inside one of a record's lower-cased tags
/// selects it.
pub proof fn law_tag_occurrence_selects(info: FileInfoView, j: int, a: Seq<char>, t: Seq<char>, b: Seq<char>)
    requires
        0 <= j < info.tags.len(),
        lowercase(info.tags[j]) == a + t + b,
    ensures
        record_matches(info, seq![t]),
{
    let low = lowercase(info.tags[j]);
    assert(low.subrange(a.len() as int, (a.len() + t.len()) as int) =~= t);
    assert(crate::text::occurs_at(low, t, a.len() as int));
    assert(term_hits(info, seq![t][0]));
}

/// A term equal to a record's lower-cased extension selects it.
pub proof fn law_extension_selects(info: FileInfoView, t: Seq<char>)
    requires
        lowercase(info.extension) == t,
    ensures
        record_matches(info, seq![t]),
{
    assert(term_hits(info, seq![t][0]));
}

/// A record that no term selects is hidden by a query with terms.
pub proof fn law_unselected_is_hidden(info: FileInfoView, terms: Seq<Seq<char>>)
    requires
        terms.len() > 0,
        forall|k: int| 0 <= k < terms.len() ==> {
            &&& !has_infix(lowercase(info.name), #[trigger] terms[k])
            &&& forall|j: int| 0 <= j < info.tags.len() ==> !has_infix(lowercase(#[trigger] info.tags[j]), terms[k])
            &&& lowercase(info.extension) != terms[k]
        },
    ensures
        !record_matches(info, terms),
{
}

/// Every listed position is below the number of records scanned.
proof fn listed_below(files: Seq<FileInfoView>, terms: Seq<Seq<char>>, n: int)
    requires
        0 <= n <= files.len() <= usize::MAX,
    ensures
        forall|x: int| 0 <= x < matching_positions(files, terms, n).len() ==> (#[trigger] matching_positions(files, terms, n)[x]) < n,
    decreases n,
{
    if n > 0 {
        listed_below(files, terms, n - 1);
        let prev = matching_positions(files, terms, n - 1);
        if record_matches(files[n - 1], terms) {
            let cur = prev.push((n - 1) as usize);
            assert forall|x: int| 0 <= x < cur.len() implies #[trigger] cur[x] < n by {
                if x < prev.len() {
                    assert(cur[x] == prev[x]);
                }
            }
        }
    }
}

/// The listing holds a record's position exactly when the query selects
/// that record.
pub proof fn law_listed_iff_selected(files: Seq<FileInfoView>, terms: Seq<Seq<char>>, n: int, i: int)
    requires
        0 <= i < n <= files.len() <= usize::MAX,
    ensures
        matching_positions(files, terms, n).contains(i as usize) <==> record_matches(files[i], terms),
    decreases n,
{
    let prev = matching_positions(files, terms, n - 1);
    listed_below(files, terms, n - 1);
    if i < n - 1 {
        law_listed_iff_selected(files, terms, n - 1, i);
        if record_matches(files[n - 1], terms) {
            let cur = prev.push((n - 1) as usize);
            if cur.contains(i as usize) {
                let x = choose|x: int| 0 <= x < cur.len() && cur[x] == i as usize;
                if x == prev.len() {
                    assert(cur[x] == (n - 1) as usize);
                } else {
                    assert(cur[x] == prev[x]);
                }
            }
            if prev.contains(i as usize) {
                let x = choose|x: int| 0 <= x < prev.len() && prev[x] == i as usize;
                assert(cur[x] == prev[x]);
            }
        }
    } else {
        if record_matches(files[n - 1], terms) {
            let cur = prev.push((n - 1) as usize);
            assert(cur[prev.len() as int] == i as usize);
        } else {
            if prev.contains(i as usize) {
                let x = choose|x: int| 0 <= x < prev.len() && prev[x] == i as usize;
                assert(prev[x] < n - 1);
            }
        }
    }
}

/// Searching for a term shows every record in one of whose lower-cased tags
/// the term occurs.
pub proof fn law_tag_occurrence_is_listed(
    files: Seq<FileInfoView>,
    i: int,
    j: int,
    a: Seq<char>,
    t: Seq<char>,
    b: Seq<char>,
)
    requires
        0 <= i < files.len() <= usize::MAX,
        0 <= j < files[i].tags.len(),
        lowercase(files[i].tags[j]) == a + t + b,
    ensures
        matching_positions(files, seq![t], files.len() as int).contains(i as usize),
{
    law_tag_occurrence_selects(files[i], j, a, t, b);
    law_listed_iff_selected(files, seq![t], files.len() as int, i);
}

// ---------------------------------------------------------------------------
// Labels
// ---------------------------------------------------------------------------

/// At most `max_len` characters of the name, with "..." when it was longer.
pub open spec fn truncated(name: Seq<char>, max_len: nat) -> Seq<char> {
    if name.len() > max_len {
        name.take(max_len as int) + "..."@
    } else {
        name
    }
}

/// The line shown for a search result: the name cut to fifteen characters,
/// then the type and the tags in brackets.
pub open spec fn result_label_text(info: FileInfoView) -> Seq<char> {
    truncated(info.name, 15) + " ["@ + info.file_type + ", "@ + join_spec(info.tags, ", "@) + "]"@
}

/// The size line of the details panel: the readable size, then the exact
/// count of bytes.
pub open spec fn size_label_text(bytes: u64) -> Seq<char> {
    file_size_text(bytes as nat) + " ("@ + decimal(bytes as nat) + " bytes)"@
}

/// Cuts a name to at most `max_len` characters, adding "..." when it was longer.
pub fn truncate_text(name: &str, max_len: usize) -> (r: String)
    ensures
        r@ == truncated(name@, max_len as nat),
{
    let cs = chars_of(name);
    if cs.len() > max_len {
        let mut r = String::new();
        let mut i: usize = 0;
        while i < max_len
            invariant
                i <= max_len < cs@.len(),
                r@ == cs@.take(i as int),
            decreases max_len - i,
        {
            r.push(cs[i]);
            i = i + 1;
            assert(r@ =~= cs@.take(i as int));
        }
        r.append("...");
        r
    } else {
        owned(name)
    }
}

/// The line shown for a search result.
pub fn result_label(info: &FileMetadataInfo) -> (r: String)
    ensures
        r@ == result_label_text(info@),
{
    let mut r = truncate_text(info.name.as_str(), 15);
    r.append(" [");
    r.append(info.file_type.as_str());
    r.append(", ");
    r.append(join(info.tags.as_slice(), ", ").as_str());
    r.append("]");
    r
}

/// The size line of the details panel.
pub fn size_label(bytes: u64) -> (r: String)
    ensures
        r@ == size_label_text(bytes),
{
    let mut r = format_file_size(bytes);
    r.append(" (");
    r.append(decimal_string(bytes).as_str());
    r.append(" bytes)");
    r
}

/// A tag as shown among the current tags: in square brackets.
pub fn tag_chip(tag: &str) -> (r: String)
    ensures
        r@ == seq!['['] + tag@ + seq![']'],
{
    let mut r = String::new();
    r.push('[');
    r.append(tag);
    r.push(']');
    assert(r@ =~= seq!['['] + tag@ + seq![']']);
    r
}

} // verus!
