//! The SQLite-backed inspector's state and how each user action or worker
//! message changes it. The caller performs the disk and database work and
//! hands the results in; methods that answer `true` ask the caller to store
//! the current record.

use vstd::prelude::*;
use crate::config::AppConfig;
use crate::indexing::{IndexProgress, indexed_status, indexed_status_message};
use crate::metadata::{
    FileInfoView, FileMetadataInfo, ProbePlan, ProbeResults, directory_info, directory_record,
    extra_detail_texts, extra_details, file_type_label, file_type_text, probe_plan,
};
use crate::search::{truncate_text, truncated};
use crate::tags::{
    list_terms, promote_first_scanned, promote_scanned, refresh_tags, refreshed_tags,
    scanned_tag, settled_terms, split_terms, law_saved_buffer_keeps_terms,
};
use crate::text::{decimal, join, join_spec, owned, same_text, texts, usize_decimal};

verus! {

broadcast use vstd::string::group_string_axioms;

/// Why an inspection stopped before it showed anything.
pub enum InspectFailure {
    PathMissing,
    /// Reading the metadata failed with this message.
    Metadata(String),
    /// Hashing the content failed with this message.
    Hash(String),
}

/// What became of an export.
pub enum ExportOutcome {
    /// This many records were written to this path.
    Written { count: usize, path: String },
    WriteFailed,
    SerializeFailed,
}

/// The inspector's state.
pub struct FileInspectorApp {
    pub current_file: Option<FileMetadataInfo>,
    pub status_message: String,
    pub db_path: String,
    pub config_path: String,
    pub config: AppConfig,
    pub tag_input_buffer: String,
    pub search_query: String,
    pub is_indexing: bool,
    pub current_indexing_file: String,
}

/// The record shown, as texts.
pub open spec fn shown(f: Option<FileMetadataInfo>) -> Option<FileInfoView> {
    match f {
        Some(x) => Some(x@),
        None => None,
    }
}

/// The status after a failed inspection.
pub open spec fn failure_status(f: InspectFailure) -> Seq<char> {
    match f {
        InspectFailure::PathMissing => "Error: Path does not exist."@,
        InspectFailure::Metadata(e) => "Error reading metadata: "@ + e@,
        InspectFailure::Hash(e) => "Error computing file hash: "@ + e@,
    }
}

/// The status after an export.
pub open spec fn export_status(o: ExportOutcome) -> Seq<char> {
    match o {
        ExportOutcome::Written { count, path } => "Successfully exported "@ + decimal(count as nat)
            + " items to "@ + path@,
        ExportOutcome::WriteFailed => "Failed to write export file."@,
        ExportOutcome::SerializeFailed => "Failed to serialize items to JSON."@,
    }
}

impl FileInspectorApp {
    /// A fresh inspector with the given database, configuration file and
    /// configuration.
    pub fn new(db_path: String, config_path: String, config: AppConfig) -> (app: Self)
        ensures
            app.current_file is None,
            app.status_message@ == "Loaded config & initialized SQLite DB: "@ + db_path@,
            app.db_path == db_path,
            app.config_path == config_path,
            app.config == config,
            app.tag_input_buffer@ == Seq::<char>::empty(),
            app.search_query@ == Seq::<char>::empty(),
            !app.is_indexing,
            app.current_indexing_file@ == Seq::<char>::empty(),
    {
        let mut status = owned("Loaded config & initialized SQLite DB: ");
        status.append(db_path.as_str());
        FileInspectorApp {
            current_file: None,
            status_message: status,
            db_path,
            config_path,
            config,
            tag_input_buffer: String::new(),
            search_query: String::new(),
            is_indexing: false,
            current_indexing_file: String::new(),
        }
    }

    /// Cuts a name to at most `max_len` characters, adding "..." when it was longer.
    pub fn truncate_name(name: &str, max_len: usize) -> (r: String)
        ensures
            r@ == truncated(name@, max_len as nat),
    {
        truncate_text(name, max_len)
    }

    /// Takes a freshly read configuration, or reports that it could not be
    /// parsed and keeps the old one.
    pub fn reload_config(&mut self, parsed: Option<AppConfig>)
        ensures
            *final(self) == (FileInspectorApp {
                status_message: final(self).status_message,
                config: final(self).config,
                ..*old(self)
            }),
            match parsed {
                Some(c) => final(self).config == c && final(self).status_message@
                    == "Configuration reloaded successfully from config.json."@,
                None => final(self).config == old(self).config && final(self).status_message@
                    == "Failed to reload configuration (syntax error)."@,
            },
    {
        match parsed {
            Some(c) => {
                self.config = c;
                self.status_message = owned("Configuration reloaded successfully from config.json.");
            },
            None => {
                self.status_message = owned("Failed to reload configuration (syntax error).");
            },
        }
    }

    /// Reports why an inspection stopped.
    pub fn report_failure(&mut self, failure: InspectFailure)
        ensures
            *final(self) == (FileInspectorApp { status_message: final(self).status_message, ..*old(self) }),
            final(self).status_message@ == failure_status(failure),
    {
        let status = match failure {
            InspectFailure::PathMissing => owned("Error: Path does not exist."),
            InspectFailure::Metadata(e) => {
                let mut s = owned("Error reading metadata: ");
                s.append(e.as_str());
                s
            },
            InspectFailure::Hash(e) => {
                let mut s = owned("Error computing file hash: ");
                s.append(e.as_str());
                s
            },
        };
        self.status_message = status;
    }

    /// Shows a directory whose indexing the caller starts in the background.
    pub fn begin_directory_inspection(
        &mut self,
        path: String,
        name: String,
        created_at: String,
        modified_at: String,
        cached_at: String,
    )
        ensures
            *final(self) == (FileInspectorApp {
                current_file: final(self).current_file,
                status_message: final(self).status_message,
                tag_input_buffer: final(self).tag_input_buffer,
                is_indexing: true,
                ..*old(self)
            }),
            shown(final(self).current_file) == Some(
                directory_record(path@, name@, created_at@, modified_at@, cached_at@),
            ),
            (final(self).current_file matches Some(f) && f.path@ == path@ && f.name@ == name@
                && f.created_at@ == created_at@ && f.modified_at@ == modified_at@
                && f.cached_at@ == cached_at@ && f.is_directory),
            final(self).status_message@ == "Indexing directory: "@ + path@,
            final(self).tag_input_buffer@ == "directory"@,
    {
        let mut status = owned("Indexing directory: ");
        status.append(path.as_str());
        let info = directory_info(path, name, created_at, modified_at, cached_at);
        let buffer = join(info.tags.as_slice(), ", ");
        proof {
            reveal_strlit(", ");
            assert(texts(info.tags@) == seq!["directory"@]);
        }
        self.tag_input_buffer = buffer;
        self.current_file = Some(info);
        self.status_message = status;
        self.is_indexing = true;
    }

    /// Shows a record found in the database by its hash. A "scanned" tag
    /// becomes "parsed"; then `true` asks the caller to store the record.
    pub fn show_cached(&mut self, cached: FileMetadataInfo) -> (store: bool)
        ensures
            *final(self) == (FileInspectorApp {
                current_file: final(self).current_file,
                status_message: final(self).status_message,
                tag_input_buffer: final(self).tag_input_buffer,
                ..*old(self)
            }),
            shown(final(self).current_file) == Some(
                FileInfoView { tags: promote_scanned(cached@.tags), ..cached@ },
            ),
            final(self).tag_input_buffer@ == join_spec(promote_scanned(cached@.tags), ", "@),
            final(self).status_message@ == "Loaded file details instantly from SQLite database."@,
            store == cached@.tags.contains(scanned_tag()),
    {
        let mut info = cached;
        let store = promote_first_scanned(&mut info.tags);
        self.tag_input_buffer = join(info.tags.as_slice(), ", ");
        self.current_file = Some(info);
        self.status_message = owned("Loaded file details instantly from SQLite database.");
        store
    }

    /// Shows a newly made record; the caller stores it.
    pub fn show_new_file(&mut self, info: FileMetadataInfo)
        ensures
            *final(self) == (FileInspectorApp {
                current_file: final(self).current_file,
                status_message: final(self).status_message,
                tag_input_buffer: final(self).tag_input_buffer,
                ..*old(self)
            }),
            shown(final(self).current_file) == Some(info@),
            final(self).tag_input_buffer@ == join_spec(info@.tags, ", "@),
            final(self).status_message@ == "File indexed and stored in SQLite successfully."@,
    {
        self.tag_input_buffer = join(info.tags.as_slice(), ", ");
        self.current_file = Some(info);
        self.status_message = owned("File indexed and stored in SQLite successfully.");
    }

    /// Replaces the tags of the shown record with those typed in the tag
    /// field (comma-separated, trimmed, lower-cased, empty ones dropped).
    /// For a file, `true` asks the caller to store the record; directories
    /// are only updated in view.
    pub fn save_current_tags(&mut self) -> (store: bool)
        ensures
            match old(self).current_file {
                None => *final(self) == *old(self) && !store,
                Some(f) => {
                    &&& *final(self) == (FileInspectorApp {
                        current_file: final(self).current_file,
                        status_message: final(self).status_message,
                        ..*old(self)
                    })
                    &&& shown(final(self).current_file) == Some(
                        FileInfoView { tags: list_terms(old(self).tag_input_buffer@), ..f@ },
                    )
                    &&& store == !f.is_directory
                    &&& final(self).status_message@ == if f.is_directory {
                        "Tags updated in current view (Directories are not cached by hash)."@
                    } else {
                        "Tags updated and saved to SQLite database successfully!"@
                    }
                },
            },
    {
        match self.current_file.take() {
            None => false,
            Some(mut f) => {
                f.tags = split_terms(self.tag_input_buffer.as_str());
                let is_dir = f.is_directory;
                self.current_file = Some(f);
                if is_dir {
                    self.status_message = owned(
                        "Tags updated in current view (Directories are not cached by hash).",
                    );
                    false
                } else {
                    self.status_message = owned(
                        "Tags updated and saved to SQLite database successfully!",
                    );
                    true
                }
            },
        }
    }

    /// The readers to run before `update_current_file_metadata`: none when
    /// nothing or a directory is shown, otherwise those the configuration
    /// lists for the shown file's extension.
    pub fn metadata_refresh_plan(&self) -> (p: Option<ProbePlan>)
        ensures
            match self.current_file {
                Some(f) if !f.is_directory => p matches Some(plan) && plan.image
                    == self.config@.image_extensions.contains(f.extension@) && plan.media
                    == self.config@.media_extensions.contains(f.extension@) && plan.text
                    == self.config@.text_extensions.contains(f.extension@),
                _ => p is None,
            },
    {
        match &self.current_file {
            Some(f) => {
                if f.is_directory {
                    None
                } else {
                    Some(probe_plan(&self.config, f.extension.as_str()))
                }
            },
            None => None,
        }
    }

    /// Re-derives the type, tags and details of the shown file from the
    /// readers' results; `true` asks the caller to store it. Directories are
    /// left as they are, with a status saying so.
    pub fn update_current_file_metadata(&mut self, results: &ProbeResults) -> (store: bool)
        ensures
            match old(self).current_file {
                None => *final(self) == *old(self) && !store,
                Some(f) => {
                    &&& *final(self) == (FileInspectorApp {
                        current_file: final(self).current_file,
                        status_message: final(self).status_message,
                        ..*old(self)
                    })
                    &&& store == !f.is_directory
                    &&& if f.is_directory {
                        &&& final(self).current_file == old(self).current_file
                        &&& final(self).status_message@
                            == "Metadata updates are currently only supported for files."@
                    } else {
                        &&& shown(final(self).current_file) == Some(
                            FileInfoView {
                                file_type: file_type_text(f@.extension),
                                tags: refreshed_tags(f@.tags),
                                extra_details: extra_detail_texts(
                                    old(self).config@,
                                    f@.name,
                                    f@.extension,
                                    *results,
                                ),
                                ..f@
                            },
                        )
                        &&& final(self).status_message@
                            == "Metadata re-extracted and updated in SQLite database successfully!"@
                    }
                },
            },
    {
        match self.current_file.take() {
            None => false,
            Some(mut f) => {
                if f.is_directory {
                    self.current_file = Some(f);
                    self.status_message = owned(
                        "Metadata updates are currently only supported for files.",
                    );
                    false
                } else {
                    f.file_type = file_type_label(f.extension.as_str());
                    refresh_tags(&mut f.tags);
                    f.extra_details = extra_details(
                        &self.config,
                        f.name.as_str(),
                        f.extension.as_str(),
                        results,
                    );
                    self.current_file = Some(f);
                    self.status_message = owned(
                        "Metadata re-extracted and updated in SQLite database successfully!",
                    );
                    true
                }
            },
        }
    }

    /// Takes a message from the scanning worker: the file it is at, or the
    /// final tally, which ends indexing and becomes the shown directory's
    /// details. `true` when the scan is over.
    pub fn on_index_progress(&mut self, event: IndexProgress) -> (finished: bool)
        ensures
            match event {
                IndexProgress::Progress(name) => !finished && *final(self) == (FileInspectorApp {
                    current_indexing_file: name,
                    ..*old(self)
                }),
                IndexProgress::Finished(t) => {
                    &&& finished
                    &&& *final(self) == (FileInspectorApp {
                        current_file: final(self).current_file,
                        status_message: final(self).status_message,
                        is_indexing: false,
                        ..*old(self)
                    })
                    &&& final(self).status_message@ == indexed_status(t)
                    &&& match old(self).current_file {
                        None => final(self).current_file is None,
                        Some(f) => shown(final(self).current_file) == Some(
                            FileInfoView {
                                extra_details: seq![
                                    crate::metadata::entry("Total Files Encountered"@, decimal(t.total_files as nat)),
                                    crate::metadata::entry("Successfully Indexed Files"@, decimal(t.indexed_files as nat)),
                                    crate::metadata::entry("Un-indexed Files / Types"@, crate::indexing::summary_text(t.unindexed_parts())),
                                    crate::metadata::entry("Unknown File Types"@, crate::indexing::summary_text(t.unknown_parts())),
                                ],
                                ..f@
                            },
                        ),
                    }
                },
            },
    {
        match event {
            IndexProgress::Progress(name) => {
                self.current_indexing_file = name;
                false
            },
            IndexProgress::Finished(t) => {
                self.is_indexing = false;
                self.status_message = indexed_status_message(&t);
                match self.current_file.take() {
                    Some(mut f) => {
                        f.extra_details = t.summary_details();
                        self.current_file = Some(f);
                    },
                    None => {},
                }
                true
            },
        }
    }

    /// Reports how an export went.
    pub fn report_export(&mut self, outcome: ExportOutcome)
        ensures
            *final(self) == (FileInspectorApp { status_message: final(self).status_message, ..*old(self) }),
            final(self).status_message@ == export_status(outcome),
    {
        let status = match outcome {
            ExportOutcome::Written { count, path } => {
                let mut s = owned("Successfully exported ");
                s.append(usize_decimal(count).as_str());
                s.append(" items to ");
                s.append(path.as_str());
                s
            },
            ExportOutcome::WriteFailed => owned("Failed to write export file."),
            ExportOutcome::SerializeFailed => owned("Failed to serialize items to JSON."),
        };
        self.status_message = status;
    }

    /// The terms of the search field: comma-separated, trimmed, lower-cased,
    /// empty ones dropped.
    pub fn search_terms(&self) -> (r: Vec<String>)
        ensures
            texts(r@) == list_terms(self.search_query@),
    {
        split_terms(self.search_query.as_str())
    }

    /// Whether the record with this hash is the one shown.
    pub fn is_selected(&self, file_hash: &str) -> (r: bool)
        ensures
            r == (self.current_file matches Some(f) && f.file_hash@ == file_hash@),
    {
        match &self.current_file {
            Some(f) => same_text(f.file_hash.as_str(), file_hash),
            None => false,
        }
    }
}

/// Saving the tag field as showing a record left it ("a, b, c") stores the
/// record's tags unchanged, when each tag is non-empty, holds no comma and
/// is its own trimmed, lower-cased form: `save_current_tags` sets the tags
/// to `list_terms` of the field.
pub proof fn law_saving_unedited_tags_keeps_them(app: FileInspectorApp)
    requires
        app.current_file is Some,
        settled_terms(app.current_file->0@.tags),
        app.tag_input_buffer@ == join_spec(app.current_file->0@.tags, ", "@),
    ensures
        list_terms(app.tag_input_buffer@) == app.current_file->0@.tags,
{
    law_saved_buffer_keeps_terms(app.current_file->0@.tags);
}

} // verus!
