//! The database row of a record: every field as stored, with the tag list
//! and the detail list kept as JSON text and the size as a signed integer.

use vstd::prelude::*;
use crate::config::pair_texts;
use crate::metadata::{FileInfoView, FileMetadataInfo};
use crate::text::texts;

verus! {

/// What `serde_json::from_str::<Vec<String>>` gives for a text: the list, or
/// `None` where the text is not a JSON array of strings.
pub uninterp spec fn json_string_list(text: Seq<char>) -> Option<Seq<Seq<char>>>;

/// What `serde_json::from_str::<Vec<(String, String)>>` gives for a text:
/// the list, or `None` where the text is not a JSON array of string pairs.
pub uninterp spec fn json_pair_list(text: Seq<char>) -> Option<Seq<(Seq<char>, Seq<char>)>>;

/// What `serde_json::to_string` gives for a list of strings.
pub uninterp spec fn string_list_json(items: Seq<Seq<char>>) -> Option<Seq<char>>;

/// What `serde_json::to_string` gives for a list of string pairs.
pub uninterp spec fn pair_list_json(items: Seq<(Seq<char>, Seq<char>)>) -> Option<Seq<char>>;

/// Calls `serde_json::from_str::<Vec<String>>`; the outcome is named
/// `json_string_list` of the text. Nothing more is claimed of it.
#[verifier::external_body]
fn decode_string_list(text: &str) -> (r: Option<Vec<String>>)
    ensures
        match r {
            Some(v) => json_string_list(text@) == Some(texts(v@)),
            None => json_string_list(text@) is None,
        },
{
    serde_json::from_str::<Vec<String>>(text).ok()
}

/// Calls `serde_json::from_str::<Vec<(String, String)>>`; the outcome is
/// named `json_pair_list` of the text. Nothing more is claimed of it.
#[verifier::external_body]
fn decode_pair_list(text: &str) -> (r: Option<Vec<(String, String)>>)
    ensures
        match r {
            Some(v) => json_pair_list(text@) == Some(pair_texts(v@)),
            None => json_pair_list(text@) is None,
        },
{
    serde_json::from_str::<Vec<(String, String)>>(text).ok()
}

/// Calls `serde_json::to_string` on a list of strings; the outcome is named
/// `string_list_json` of the list. Nothing more is claimed of it.
#[verifier::external_body]
fn encode_string_list(items: &Vec<String>) -> (r: Option<String>)
    ensures
        match r {
            Some(s) => string_list_json(texts(items@)) == Some(s@),
            None => string_list_json(texts(items@)) is None,
        },
{
    serde_json::to_string(items).ok()
}

/// Calls `serde_json::to_string` on a list of string pairs; the outcome is
/// named `pair_list_json` of the list. Nothing more is claimed of it.
#[verifier::external_body]
fn encode_pair_list(items: &Vec<(String, String)>) -> (r: Option<String>)
    ensures
        match r {
            Some(s) => pair_list_json(pair_texts(items@)) == Some(s@),
            None => pair_list_json(pair_texts(items@)) is None,
        },
{
    serde_json::to_string(items).ok()
}

/// A record as one row of the `files` table.
pub struct StoredRow {
    pub file_hash: String,
    pub path: String,
    pub name: String,
    pub extension: String,
    pub size_bytes: i64,
    pub file_type: String,
    pub created_at: String,
    pub modified_at: String,
    /// The detail list as JSON.
    pub extra_json: String,
    pub cached_at: String,
    pub is_directory: bool,
    /// The tag list as JSON.
    pub tags_json: String,
}

/// A decoded list, or the empty list where decoding failed.
pub open spec fn list_or_empty<T>(o: Option<Seq<T>>) -> Seq<T> {
    match o {
        Some(s) => s,
        None => Seq::empty(),
    }
}

/// An encoded text, or the empty text where encoding failed.
pub open spec fn text_or_empty(o: Option<Seq<char>>) -> Seq<char> {
    match o {
        Some(s) => s,
        None => Seq::empty(),
    }
}

/// The texts of an optional list of strings.
pub open spec fn opt_texts(o: Option<Vec<String>>) -> Option<Seq<Seq<char>>> {
    match o {
        Some(v) => Some(texts(v@)),
        None => None,
    }
}

/// The texts of an optional list of string pairs.
pub open spec fn opt_pair_texts(o: Option<Vec<(String, String)>>) -> Option<Seq<(Seq<char>, Seq<char>)>> {
    match o {
        Some(v) => Some(pair_texts(v@)),
        None => None,
    }
}

/// The record made from a row's plain columns and its decoded lists: a list
/// that did not decode becomes empty, and the size is the stored integer
/// reinterpreted as unsigned.
pub open spec fn decoded_record(
    row: StoredRow,
    extra: Option<Seq<(Seq<char>, Seq<char>)>>,
    tags: Option<Seq<Seq<char>>>,
) -> FileInfoView {
    FileInfoView {
        path: row.path@,
        name: row.name@,
        extension: row.extension@,
        size_bytes: row.size_bytes as u64,
        file_type: row.file_type@,
        created_at: row.created_at@,
        modified_at: row.modified_at@,
        extra_details: list_or_empty(extra),
        file_hash: row.file_hash@,
        cached_at: row.cached_at@,
        is_directory: row.is_directory,
        tags: list_or_empty(tags),
    }
}

/// The record that a stored row holds.
pub open spec fn row_record(row: StoredRow) -> FileInfoView {
    decoded_record(row, json_pair_list(row.extra_json@), json_string_list(row.tags_json@))
}

/// A record read from a row keeps each plain column in the field of the same
/// name.
pub proof fn law_decoded_record_keeps_columns(
    row: StoredRow,
    extra: Option<Seq<(Seq<char>, Seq<char>)>>,
    tags: Option<Seq<Seq<char>>>,
)
    ensures
        decoded_record(row, extra, tags).path == row.path@,
        decoded_record(row, extra, tags).name == row.name@,
        decoded_record(row, extra, tags).extension == row.extension@,
        decoded_record(row, extra, tags).file_type == row.file_type@,
        decoded_record(row, extra, tags).created_at == row.created_at@,
        decoded_record(row, extra, tags).modified_at == row.modified_at@,
        decoded_record(row, extra, tags).file_hash == row.file_hash@,
        decoded_record(row, extra, tags).cached_at == row.cached_at@,
        decoded_record(row, extra, tags).is_directory == row.is_directory,
{
}

/// Builds a record from a row and the lists decoded from its JSON columns:
/// a list that did not decode becomes empty, and the size is the stored
/// integer reinterpreted as unsigned.
pub fn record_from_decoded(
    row: StoredRow,
    extra: Option<Vec<(String, String)>>,
    tags: Option<Vec<String>>,
) -> (r: FileMetadataInfo)
    ensures
        r@ == decoded_record(row, opt_pair_texts(extra), opt_texts(tags)),
        r.path@ == row.path@,
        r.name@ == row.name@,
        r.extension@ == row.extension@,
        r.file_type@ == row.file_type@,
        r.created_at@ == row.created_at@,
        r.modified_at@ == row.modified_at@,
        r.file_hash@ == row.file_hash@,
        r.cached_at@ == row.cached_at@,
        r.is_directory == row.is_directory,
{
    let ghost g = row;
    let ghost ge = opt_pair_texts(extra);
    let ghost gt = opt_texts(tags);
    let extra_details = match extra {
        Some(v) => v,
        None => Vec::new(),
    };
    let tag_list = match tags {
        Some(v) => v,
        None => Vec::new(),
    };
    let r = FileMetadataInfo {
        path: row.path,
        name: row.name,
        extension: row.extension,
        size_bytes: row.size_bytes as u64,
        file_type: row.file_type,
        created_at: row.created_at,
        modified_at: row.modified_at,
        extra_details,
        file_hash: row.file_hash,
        cached_at: row.cached_at,
        is_directory: row.is_directory,
        tags: tag_list,
    };
    assert(r@.extra_details =~= decoded_record(g, ge, gt).extra_details);
    assert(r@.tags =~= decoded_record(g, ge, gt).tags);
    r
}

/// Reads a record back from its row. A tag or detail column that is not
/// valid JSON for its list reads as an empty list; the size is the stored
/// integer reinterpreted as unsigned.
pub fn record_from_row(row: StoredRow) -> (r: FileMetadataInfo)
    ensures
        r@ == row_record(row),
{
    let extra = decode_pair_list(row.extra_json.as_str());
    let tags = decode_string_list(row.tags_json.as_str());
    record_from_decoded(row, extra, tags)
}

/// The row holds the record: every plain field copied, the size
/// reinterpreted as signed, and each list as its JSON text (empty where
/// encoding failed).
pub open spec fn stores(row: StoredRow, info: FileInfoView) -> bool {
    &&& row.file_hash@ == info.file_hash
    &&& row.path@ == info.path
    &&& row.name@ == info.name
    &&& row.extension@ == info.extension
    &&& row.size_bytes == info.size_bytes as i64
    &&& row.file_type@ == info.file_type
    &&& row.created_at@ == info.created_at
    &&& row.modified_at@ == info.modified_at
    &&& row.extra_json@ == text_or_empty(pair_list_json(info.extra_details))
    &&& row.cached_at@ == info.cached_at
    &&& row.is_directory == info.is_directory
    &&& row.tags_json@ == text_or_empty(string_list_json(info.tags))
}

/// Builds a row from a record and the JSON texts of its lists: a list that
/// did not encode is stored as empty text, and the size is reinterpreted as
/// signed.
pub fn row_from_encoded(info: &FileMetadataInfo, extra_json: Option<String>, tags_json: Option<String>) -> (r: StoredRow)
    requires
        opt_text_of(extra_json) == pair_list_json(info@.extra_details),
        opt_text_of(tags_json) == string_list_json(info@.tags),
    ensures
        stores(r, info@),
{
    let extra_json = match extra_json {
        Some(s) => s,
        None => String::new(),
    };
    let tags_json = match tags_json {
        Some(s) => s,
        None => String::new(),
    };
    StoredRow {
        file_hash: info.file_hash.clone(),
        path: info.path.clone(),
        name: info.name.clone(),
        extension: info.extension.clone(),
        size_bytes: info.size_bytes as i64,
        file_type: info.file_type.clone(),
        created_at: info.created_at.clone(),
        modified_at: info.modified_at.clone(),
        extra_json,
        cached_at: info.cached_at.clone(),
        is_directory: info.is_directory,
        tags_json,
    }
}

/// The text of an optional string.
pub open spec fn opt_text_of(o: Option<String>) -> Option<Seq<char>> {
    match o {
        Some(s) => Some(s@),
        None => None,
    }
}

/// Writes a record as a row: the lists as JSON (empty text where encoding
/// failed) and the size reinterpreted as signed.
pub fn row_from_record(info: &FileMetadataInfo) -> (r: StoredRow)
    ensures
        stores(r, info@),
{
    let extra_json = encode_pair_list(&info.extra_details);
    let tags_json = encode_string_list(&info.tags);
    row_from_encoded(info, extra_json, tags_json)
}

/// A record written as a row and read back is the same record, whenever
/// each of its two lists decodes from its JSON text to the list itself.
/// The size survives the trip through the signed column unchanged.
pub proof fn law_stored_record_reads_back(info: FileInfoView, row: StoredRow)
    requires
        stores(row, info),
        pair_list_json(info.extra_details) matches Some(t) && json_pair_list(t) == Some(info.extra_details),
        string_list_json(info.tags) matches Some(t) && json_string_list(t) == Some(info.tags),
    ensures
        row_record(row) == info,
{
    let n = info.size_bytes;
    assert((n as i64) as u64 == n) by (bit_vector);
}

} // verus!
