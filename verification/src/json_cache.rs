//! The inspector variant that keeps its records in a JSON file keyed by
//! content hash: its own labels, directory totals and tag handling.

use vstd::prelude::*;
use crate::config::AppConfig;
use crate::inspector::{InspectFailure, failure_status, shown};
use crate::metadata::{
    FileFacts, FileInfoView, FileMetadataInfo, ProbeResults, entry, extra_detail_texts,
    extra_details,
};
use crate::tags::{list_labels, split_labels};
use crate::text::{
    decimal, join, join_spec, list_contains, lowercase, owned, texts, to_lower, to_upper,
    uppercase, usize_decimal,
};

verus! {

broadcast use vstd::string::group_string_axioms;

/// The type shown for a file: "Unknown / Binary" without an extension,
/// otherwise the upper-cased extension and " file".
pub open spec fn legacy_file_type_text(ext: Seq<char>) -> Seq<char> {
    if ext.len() == 0 {
        "Unknown / Binary"@
    } else {
        uppercase(ext) + " file"@
    }
}

/// The type shown for a file with this (lower-case) extension.
pub fn legacy_file_type_label(extension: &str) -> (r: String)
    ensures
        r@ == legacy_file_type_text(extension@),
{
    if extension.is_empty() {
        owned("Unknown / Binary")
    } else {
        let mut s = to_upper(extension);
        s.append(" file");
        s
    }
}

/// Running totals of a directory walk: bytes in files and entries counted.
pub struct DirTally {
    pub total_size: u64,
    pub file_count: usize,
}

/// Whether a walk skips an entry: its name is an ignored folder or an
/// excluded file name, compared exactly.
pub fn entry_skipped(file_name: &str, ignored_folders: &[String], excluded_files: &[String]) -> (r: bool)
    ensures
        r == (texts(ignored_folders@).contains(file_name@) || texts(excluded_files@).contains(file_name@)),
{
    list_contains(ignored_folders, file_name) || list_contains(excluded_files, file_name)
}

impl DirTally {
    /// Nothing counted yet.
    pub fn new() -> (t: Self)
        ensures
            t.total_size == 0,
            t.file_count == 0,
    {
        DirTally { total_size: 0, file_count: 0 }
    }

    /// Counts an entry that is not skipped.
    pub fn count_entry(&mut self)
        requires
            old(self).file_count < usize::MAX,
        ensures
            final(self).file_count == old(self).file_count + 1,
            final(self).total_size == old(self).total_size,
    {
        self.file_count = self.file_count + 1;
    }

    /// Adds the size of a file.
    pub fn add_file_size(&mut self, size: u64)
        requires
            old(self).total_size + size <= u64::MAX,
        ensures
            final(self).total_size == old(self).total_size + size,
            final(self).file_count == old(self).file_count,
    {
        self.total_size = self.total_size + size;
    }

    /// Adds the totals of a sub-directory.
    pub fn absorb(&mut self, sub: &DirTally)
        requires
            old(self).total_size + sub.total_size <= u64::MAX,
            old(self).file_count + sub.file_count <= usize::MAX,
        ensures
            final(self).total_size == old(self).total_size + sub.total_size,
            final(self).file_count == old(self).file_count + sub.file_count,
    {
        self.total_size = self.total_size + sub.total_size;
        self.file_count = self.file_count + sub.file_count;
    }
}

/// The record shown for an inspected directory.
pub open spec fn legacy_directory_record(
    path: Seq<char>,
    name: Seq<char>,
    created_at: Seq<char>,
    modified_at: Seq<char>,
    cached_at: Seq<char>,
    tally: DirTally,
) -> FileInfoView {
    FileInfoView {
        path,
        name,
        extension: seq![],
        size_bytes: tally.total_size,
        file_type: "Directory"@,
        created_at,
        modified_at,
        extra_details: seq![entry("Total Files & Folders"@, decimal(tally.file_count as nat))],
        file_hash: "N/A (Directory)"@,
        cached_at,
        is_directory: true,
        tags: seq![],
    }
}

/// The record made for a newly inspected file: upper-case type, no tags,
/// and every detail the configured readers produced.
pub open spec fn legacy_new_record(facts: FileFacts, config: crate::config::ConfigView, results: ProbeResults) -> FileInfoView {
    let ext = lowercase(facts.raw_extension@);
    FileInfoView {
        path: facts.path@,
        name: facts.name@,
        extension: ext,
        size_bytes: facts.size_bytes,
        file_type: legacy_file_type_text(ext),
        created_at: facts.created_at@,
        modified_at: facts.modified_at@,
        extra_details: extra_detail_texts(config, facts.name@, ext, results),
        file_hash: facts.file_hash@,
        cached_at: facts.cached_at@,
        is_directory: false,
        tags: seq![],
    }
}

/// An inspected directory's record keeps each given text in the field of
/// the same name, carries the tally's total size and is marked as a
/// directory.
pub proof fn law_legacy_directory_record_keeps_fields(
    path: Seq<char>,
    name: Seq<char>,
    created_at: Seq<char>,
    modified_at: Seq<char>,
    cached_at: Seq<char>,
    tally: DirTally,
)
    ensures
        legacy_directory_record(path, name, created_at, modified_at, cached_at, tally).path == path,
        legacy_directory_record(path, name, created_at, modified_at, cached_at, tally).name == name,
        legacy_directory_record(path, name, created_at, modified_at, cached_at, tally).created_at == created_at,
        legacy_directory_record(path, name, created_at, modified_at, cached_at, tally).modified_at == modified_at,
        legacy_directory_record(path, name, created_at, modified_at, cached_at, tally).cached_at == cached_at,
        legacy_directory_record(path, name, created_at, modified_at, cached_at, tally).size_bytes == tally.total_size,
        legacy_directory_record(path, name, created_at, modified_at, cached_at, tally).is_directory,
{
}

/// A newly inspected file's record keeps each fact read from disk in the
/// field of the same name, holds the details the configured readers give,
/// and is no directory.
pub proof fn law_legacy_new_record_keeps_facts(facts: FileFacts, config: crate::config::ConfigView, results: ProbeResults)
    ensures
        legacy_new_record(facts, config, results).path == facts.path@,
        legacy_new_record(facts, config, results).name == facts.name@,
        legacy_new_record(facts, config, results).extension == lowercase(facts.raw_extension@),
        legacy_new_record(facts, config, results).size_bytes == facts.size_bytes,
        legacy_new_record(facts, config, results).created_at == facts.created_at@,
        legacy_new_record(facts, config, results).modified_at == facts.modified_at@,
        legacy_new_record(facts, config, results).file_hash == facts.file_hash@,
        legacy_new_record(facts, config, results).cached_at == facts.cached_at@,
        legacy_new_record(facts, config, results).extra_details == extra_detail_texts(
            config,
            facts.name@,
            lowercase(facts.raw_extension@),
            results,
        ),
        !legacy_new_record(facts, config, results).is_directory,
{
}

/// The record for a newly inspected file.
pub fn legacy_file_info(facts: FileFacts, results: &ProbeResults, config: &AppConfig) -> (r: FileMetadataInfo)
    ensures
        r@ == legacy_new_record(facts, config@, *results),
        r.path@ == facts.path@,
        r.name@ == facts.name@,
        r.created_at@ == facts.created_at@,
        r.modified_at@ == facts.modified_at@,
        r.file_hash@ == facts.file_hash@,
        r.cached_at@ == facts.cached_at@,
        r.size_bytes == facts.size_bytes,
        !r.is_directory,
{
    let extension = to_lower(facts.raw_extension.as_str());
    let details = extra_details(config, facts.name.as_str(), extension.as_str(), results);
    let file_type = legacy_file_type_label(extension.as_str());
    let r = FileMetadataInfo {
        path: facts.path,
        name: facts.name,
        extension,
        size_bytes: facts.size_bytes,
        file_type,
        created_at: facts.created_at,
        modified_at: facts.modified_at,
        extra_details: details,
        file_hash: facts.file_hash,
        cached_at: facts.cached_at,
        is_directory: false,
        tags: Vec::new(),
    };
    assert(r@.tags =~= seq![]);
    r
}

/// The state of the JSON-cache inspector.
pub struct FileInspectorApp {
    pub current_file: Option<FileMetadataInfo>,
    pub status_message: String,
    pub json_db_path: String,
    pub config_path: String,
    pub config: AppConfig,
    pub tag_input_buffer: String,
}

impl FileInspectorApp {
    /// A fresh inspector with the given cache file, configuration file and
    /// configuration.
    pub fn new(json_db_path: String, config_path: String, config: AppConfig) -> (app: Self)
        ensures
            app.current_file is None,
            app.status_message@ == "Loaded config from: "@ + config_path@,
            app.json_db_path == json_db_path,
            app.config_path == config_path,
            app.config == config,
            app.tag_input_buffer@ == Seq::<char>::empty(),
    {
        let mut status = owned("Loaded config from: ");
        status.append(config_path.as_str());
        FileInspectorApp {
            current_file: None,
            status_message: status,
            json_db_path,
            config_path,
            config,
            tag_input_buffer: String::new(),
        }
    }

    /// Takes a freshly read configuration, or reports that the file was
    /// missing or could not be parsed and keeps the old one.
    pub fn reload_config(&mut self, parsed: Option<AppConfig>)
        ensures
            *final(self) == (FileInspectorApp {
                status_message: final(self).status_message,
                config: final(self).config,
                ..*old(self)
            }),
            match parsed {
                Some(c) => final(self).config == c && final(self).status_message@
                    == "Configuration reloaded successfully from config.json."@,
                None => final(self).config == old(self).config && final(self).status_message@
                    == "Failed to reload config.json (syntax error or missing file)."@,
            },
    {
        match parsed {
            Some(c) => {
                self.config = c;
                self.status_message = owned("Configuration reloaded successfully from config.json.");
            },
            None => {
                self.status_message = owned(
                    "Failed to reload config.json (syntax error or missing file).",
                );
            },
        }
    }

    /// Reports why an inspection stopped.
    pub fn report_failure(&mut self, failure: InspectFailure)
        ensures
            *final(self) == (FileInspectorApp { status_message: final(self).status_message, ..*old(self) }),
            final(self).status_message@ == failure_status(failure),
    {
        let status = match failure {
            InspectFailure::PathMissing => owned("Error: Path does not exist."),
            InspectFailure::Metadata(e) => {
                let mut s = owned("Error reading metadata: ");
                s.append(e.as_str());
                s
            },
            InspectFailure::Hash(e) => {
                let mut s = owned("Error computing file hash: ");
                s.append(e.as_str());
                s
            },
        };
        self.status_message = status;
    }

    /// Decides whether a file (not a directory) is inspected: a name listed
    /// among the excluded files is skipped with a status saying so.
    pub fn screen_file(&mut self, file_name: &str) -> (proceed: bool)
        ensures
            proceed == !old(self).config@.excluded_files.contains(file_name@),
            proceed ==> *final(self) == *old(self),
            !proceed ==> *final(self) == (FileInspectorApp {
                status_message: final(self).status_message,
                ..*old(self)
            }) && final(self).status_message@ == "Skipped: '"@ + file_name@
                + "' is explicitly excluded in config.json."@,
    {
        if list_contains(self.config.excluded_files.as_slice(), file_name) {
            let mut s = owned("Skipped: '");
            s.append(file_name);
            s.append("' is explicitly excluded in config.json.");
            self.status_message = s;
            false
        } else {
            true
        }
    }

    /// Shows an inspected directory with its totals.
    pub fn show_directory(
        &mut self,
        path: String,
        name: String,
        created_at: String,
        modified_at: String,
        cached_at: String,
        tally: &DirTally,
    )
        ensures
            *final(self) == (FileInspectorApp {
                current_file: final(self).current_file,
                status_message: final(self).status_message,
                tag_input_buffer: final(self).tag_input_buffer,
                ..*old(self)
            }),
            shown(final(self).current_file) == Some(
                legacy_directory_record(path@, name@, created_at@, modified_at@, cached_at@, *tally),
            ),
            (final(self).current_file matches Some(f) && f.path@ == path@ && f.name@ == name@
                && f.created_at@ == created_at@ && f.modified_at@ == modified_at@
                && f.cached_at@ == cached_at@ && f.is_directory),
            final(self).tag_input_buffer@ == Seq::<char>::empty(),
            final(self).status_message@
                == "Directory inspected successfully (config rules applied)."@,
    {
        let mut details: Vec<(String, String)> = Vec::new();
        details.push((owned("Total Files & Folders"), usize_decimal(tally.file_count)));
        let info = FileMetadataInfo {
            path,
            name,
            extension: String::new(),
            size_bytes: tally.total_size,
            file_type: owned("Directory"),
            created_at,
            modified_at,
            extra_details: details,
            file_hash: owned("N/A (Directory)"),
            cached_at,
            is_directory: true,
            tags: Vec::new(),
        };
        assert(info@.extra_details =~= seq![entry("Total Files & Folders"@, decimal(tally.file_count as nat))]);
        assert(info@.tags =~= seq![]);
        assert(info@.extension =~= seq![]);
        self.tag_input_buffer = String::new();
        self.current_file = Some(info);
        self.status_message = owned("Directory inspected successfully (config rules applied).");
    }

    /// Shows a record found in the cache by its hash.
    pub fn show_cached(&mut self, cached: FileMetadataInfo)
        ensures
            *final(self) == (FileInspectorApp {
                current_file: final(self).current_file,
                status_message: final(self).status_message,
                tag_input_buffer: final(self).tag_input_buffer,
                ..*old(self)
            }),
            shown(final(self).current_file) == Some(cached@),
            final(self).tag_input_buffer@ == join_spec(cached@.tags, ", "@),
            final(self).status_message@
                == "Loaded file details instantly from local JSON cache (Hash match)."@,
    {
        self.tag_input_buffer = join(cached.tags.as_slice(), ", ");
        self.current_file = Some(cached);
        self.status_message = owned("Loaded file details instantly from local JSON cache (Hash match).");
    }

    /// Shows a newly inspected file; the caller records it in the cache.
    pub fn show_new_file(&mut self, info: FileMetadataInfo)
        ensures
            *final(self) == (FileInspectorApp {
                current_file: final(self).current_file,
                status_message: final(self).status_message,
                tag_input_buffer: final(self).tag_input_buffer,
                ..*old(self)
            }),
            shown(final(self).current_file) == Some(info@),
            final(self).tag_input_buffer@ == Seq::<char>::empty(),
            final(self).status_message@
                == "File inspected and recorded to local JSON cache successfully."@,
    {
        self.tag_input_buffer = String::new();
        self.current_file = Some(info);
        self.status_message = owned("File inspected and recorded to local JSON cache successfully.");
    }

    /// Replaces the tags of the shown record with those typed in the tag
    /// field (comma-separated, trimmed, case kept, empty ones dropped). For
    /// a file, `true` asks the caller to store the record in the cache.
    pub fn save_current_tags(&mut self) -> (store: bool)
        ensures
            match old(self).current_file {
                None => *final(self) == *old(self) && !store,
                Some(f) => {
                    &&& *final(self) == (FileInspectorApp {
                        current_file: final(self).current_file,
                        status_message: final(self).status_message,
                        ..*old(self)
                    })
                    &&& shown(final(self).current_file) == Some(
                        FileInfoView { tags: list_labels(old(self).tag_input_buffer@), ..f@ },
                    )
                    &&& store == !f.is_directory
                    &&& final(self).status_message@ == if f.is_directory {
                        "Tags updated in current view (Directories are not cached by hash)."@
                    } else {
                        "Tags successfully updated and saved to file_index.json!"@
                    }
                },
            },
    {
        match self.current_file.take() {
            None => false,
            Some(mut f) => {
                f.tags = split_labels(self.tag_input_buffer.as_str());
                let is_dir = f.is_directory;
                self.current_file = Some(f);
                if is_dir {
                    self.status_message = owned(
                        "Tags updated in current view (Directories are not cached by hash).",
                    );
                    false
                } else {
                    self.status_message = owned("Tags successfully updated and saved to file_index.json!");
                    true
                }
            },
        }
    }
}

} // verus!
