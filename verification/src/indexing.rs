//! Tallies of a recursive directory scan: how many files were met, how many
//! were indexed, and why the others were not.

use vstd::prelude::*;
use crate::config::{AppConfig, pair_texts};
use crate::exclusion::{excluded_by, is_file_excluded, reaches_lone_star};
use crate::metadata::entry;
use crate::text::{decimal, join, join_spec, list_contains, owned, texts, usize_decimal};

verus! {

broadcast use vstd::string::group_string_axioms;

/// Counts gathered while scanning a directory tree.
pub struct IndexTally {
    pub total_files: usize,
    pub indexed_files: usize,
    /// Files skipped by an exclusion pattern.
    pub excluded_files: usize,
    /// Files whose metadata could not be read.
    pub metadata_errors: usize,
    /// Files whose content could not be hashed.
    pub hash_errors: usize,
    /// Files without extension that were not excluded.
    pub no_extension: usize,
}

/// What became of a file that was not excluded.
pub enum FileOutcome {
    MetadataError,
    HashError,
    Indexed,
}

/// A message from the scanning worker.
pub enum IndexProgress {
    /// The worker is at this file.
    Progress(String),
    /// The scan is over.
    Finished(IndexTally),
}

impl IndexTally {
    /// Every file met is indexed or counted under exactly one reason, and
    /// files without extension are among those not excluded.
    pub open spec fn wf(&self) -> bool {
        &&& self.total_files == self.indexed_files + self.excluded_files + self.metadata_errors
            + self.hash_errors
        &&& self.no_extension <= self.total_files - self.excluded_files
    }

    /// The un-indexed files by reason, as (reason, count) for each reason met.
    pub open spec fn unindexed_parts(&self) -> Seq<Seq<char>> {
        let a = if self.excluded_files > 0 {
            seq!["Excluded File: "@ + decimal(self.excluded_files as nat)]
        } else {
            seq![]
        };
        let b = if self.metadata_errors > 0 {
            a.push("Metadata Error: "@ + decimal(self.metadata_errors as nat))
        } else {
            a
        };
        if self.hash_errors > 0 {
            b.push("Hash Error: "@ + decimal(self.hash_errors as nat))
        } else {
            b
        }
    }

    /// The files of unknown type, as (kind, count) for each kind met.
    pub open spec fn unknown_parts(&self) -> Seq<Seq<char>> {
        if self.no_extension > 0 {
            seq!["No Extension: "@ + decimal(self.no_extension as nat)]
        } else {
            seq![]
        }
    }

    /// A tally with nothing counted.
    pub fn new() -> (t: Self)
        ensures
            t.wf(),
            t.total_files == 0 && t.indexed_files == 0 && t.excluded_files == 0,
            t.metadata_errors == 0 && t.hash_errors == 0 && t.no_extension == 0,
    {
        IndexTally {
            total_files: 0,
            indexed_files: 0,
            excluded_files: 0,
            metadata_errors: 0,
            hash_errors: 0,
            no_extension: 0,
        }
    }

    /// Decides whether a file is looked at. An excluded file is counted as
    /// met and excluded, and `false` comes back; otherwise nothing changes.
    pub fn screen_file(&mut self, file_name: &str, extension: &str, config: &AppConfig) -> (proceed: bool)
        requires
            old(self).wf(),
            old(self).total_files < usize::MAX,
            !reaches_lone_star(config@.excluded_files, file_name@, extension@),
        ensures
            final(self).wf(),
            proceed == !excluded_by(config@.excluded_files, file_name@, extension@),
            proceed ==> *final(self) == *old(self),
            !proceed ==> *final(self) == (IndexTally {
                total_files: (old(self).total_files + 1) as usize,
                excluded_files: (old(self).excluded_files + 1) as usize,
                ..*old(self)
            }),
    {
        if is_file_excluded(file_name, extension, config.excluded_files.as_slice()) {
            self.total_files = self.total_files + 1;
            self.excluded_files = self.excluded_files + 1;
            false
        } else {
            true
        }
    }

    /// Counts a file that was not excluded: met, without extension if so,
    /// and indexed or failed.
    pub fn record_outcome(&mut self, extension: &str, outcome: FileOutcome)
        requires
            old(self).wf(),
            old(self).total_files < usize::MAX,
        ensures
            final(self).wf(),
            final(self).total_files == old(self).total_files + 1,
            final(self).excluded_files == old(self).excluded_files,
            final(self).no_extension == old(self).no_extension + if extension@.len() == 0 { 1int } else { 0int },
            final(self).indexed_files == old(self).indexed_files + if outcome is Indexed { 1int } else { 0int },
            final(self).metadata_errors == old(self).metadata_errors + if outcome is MetadataError { 1int } else { 0int },
            final(self).hash_errors == old(self).hash_errors + if outcome is HashError { 1int } else { 0int },
    {
        self.total_files = self.total_files + 1;
        if extension.is_empty() {
            self.no_extension = self.no_extension + 1;
        }
        match outcome {
            FileOutcome::MetadataError => {
                self.metadata_errors = self.metadata_errors + 1;
            },
            FileOutcome::HashError => {
                self.hash_errors = self.hash_errors + 1;
            },
            FileOutcome::Indexed => {
                self.indexed_files = self.indexed_files + 1;
            },
        }
    }

    /// Adds the counts of a sub-directory's scan.
    pub fn absorb(&mut self, sub: &IndexTally)
        requires
            old(self).wf(),
            sub.wf(),
            old(self).total_files + sub.total_files <= usize::MAX,
        ensures
            final(self).wf(),
            final(self).total_files == old(self).total_files + sub.total_files,
            final(self).indexed_files == old(self).indexed_files + sub.indexed_files,
            final(self).excluded_files == old(self).excluded_files + sub.excluded_files,
            final(self).metadata_errors == old(self).metadata_errors + sub.metadata_errors,
            final(self).hash_errors == old(self).hash_errors + sub.hash_errors,
            final(self).no_extension == old(self).no_extension + sub.no_extension,
    {
        self.total_files = self.total_files + sub.total_files;
        self.indexed_files = self.indexed_files + sub.indexed_files;
        self.excluded_files = self.excluded_files + sub.excluded_files;
        self.metadata_errors = self.metadata_errors + sub.metadata_errors;
        self.hash_errors = self.hash_errors + sub.hash_errors;
        self.no_extension = self.no_extension + sub.no_extension;
    }

    /// The summary shown for the scanned directory: files met, files
    /// indexed, un-indexed files by reason and files without extension
    /// ("None" where there are none).
    pub fn summary_details(&self) -> (r: Vec<(String, String)>)
        ensures
            pair_texts(r@) == seq![
                entry("Total Files Encountered"@, decimal(self.total_files as nat)),
                entry("Successfully Indexed Files"@, decimal(self.indexed_files as nat)),
                entry("Un-indexed Files / Types"@, summary_text(self.unindexed_parts())),
                entry("Unknown File Types"@, summary_text(self.unknown_parts())),
            ],
    {
        let mut unindexed: Vec<String> = Vec::new();
        if self.excluded_files > 0 {
            unindexed.push(counted("Excluded File: ", self.excluded_files));
        }
        if self.metadata_errors > 0 {
            unindexed.push(counted("Metadata Error: ", self.metadata_errors));
        }
        if self.hash_errors > 0 {
            unindexed.push(counted("Hash Error: ", self.hash_errors));
        }
        assert(texts(unindexed@) =~= self.unindexed_parts());
        let mut unknown: Vec<String> = Vec::new();
        if self.no_extension > 0 {
            unknown.push(counted("No Extension: ", self.no_extension));
        }
        assert(texts(unknown@) =~= self.unknown_parts());
        let mut r: Vec<(String, String)> = Vec::new();
        r.push((owned("Total Files Encountered"), usize_decimal(self.total_files)));
        r.push((owned("Successfully Indexed Files"), usize_decimal(self.indexed_files)));
        r.push((owned("Un-indexed Files / Types"), summary(&unindexed)));
        r.push((owned("Unknown File Types"), summary(&unknown)));
        assert(pair_texts(r@) =~= seq![
            entry("Total Files Encountered"@, decimal(self.total_files as nat)),
            entry("Successfully Indexed Files"@, decimal(self.indexed_files as nat)),
            entry("Un-indexed Files / Types"@, summary_text(self.unindexed_parts())),
            entry("Unknown File Types"@, summary_text(self.unknown_parts())),
        ]);
        r
    }
}

/// The parts joined with ", ", or "None" when there are none.
pub open spec fn summary_text(parts: Seq<Seq<char>>) -> Seq<char> {
    if parts.len() == 0 {
        "None"@
    } else {
        join_spec(parts, ", "@)
    }
}

fn counted(label: &str, n: usize) -> (r: String)
    ensures
        r@ == label@ + decimal(n as nat),
{
    let mut r = owned(label);
    r.append(usize_decimal(n).as_str());
    r
}

fn summary(parts: &Vec<String>) -> (r: String)
    ensures
        r@ == summary_text(texts(parts@)),
{
    if parts.len() == 0 {
        owned("None")
    } else {
        join(parts.as_slice(), ", ")
    }
}

/// A joined list starts with the first character of its first part.
proof fn lemma_join_first_char(parts: Seq<Seq<char>>, sep: Seq<char>)
    requires
        parts.len() > 0,
        parts[0].len() > 0,
    ensures
        join_spec(parts, sep).len() > 0,
        join_spec(parts, sep)[0] == parts[0][0],
    decreases parts.len(),
{
    if parts.len() > 1 {
        let front = parts.drop_last();
        assert(front[0] == parts[0]);
        lemma_join_first_char(front, sep);
        let j = join_spec(front, sep) + sep + parts.last();
        assert(j[0] == join_spec(front, sep)[0]);
    }
}

/// In a consistent tally, the un-indexed summary reads "None" exactly when
/// every file met was indexed.
pub proof fn law_unindexed_none_iff_all_indexed(t: IndexTally)
    requires
        t.wf(),
    ensures
        summary_text(t.unindexed_parts()) == "None"@ <==> t.indexed_files == t.total_files,
{
    reveal_strlit("None");
    reveal_strlit("Excluded File: ");
    reveal_strlit("Metadata Error: ");
    reveal_strlit("Hash Error: ");
    let parts = t.unindexed_parts();
    if t.indexed_files != t.total_files {
        assert(parts.len() > 0);
        let first = parts[0];
        assert(first[0] == 'E' || first[0] == 'M' || first[0] == 'H');
        lemma_join_first_char(parts, ", "@);
        assert(summary_text(parts)[0] != "None"@[0]);
    }
}

/// Whether a scan descends into a sub-directory with this name: ignored
/// folders are skipped.
pub fn should_descend(config: &AppConfig, dir_name: &str) -> (r: bool)
    ensures
        r == !config@.ignored_folders.contains(dir_name@),
{
    !list_contains(config.ignored_folders.as_slice(), dir_name)
}

/// The status shown when a scan is over.
pub open spec fn indexed_status(t: IndexTally) -> Seq<char> {
    "Indexed "@ + decimal(t.indexed_files as nat) + seq!['/'] + decimal(t.total_files as nat)
        + " files successfully into SQLite."@
}

/// The status shown when a scan is over: "Indexed <indexed>/<total> files
/// successfully into SQLite."
pub fn indexed_status_message(t: &IndexTally) -> (r: String)
    ensures
        r@ == indexed_status(*t),
{
    let mut r = owned("Indexed ");
    r.append(usize_decimal(t.indexed_files).as_str());
    r.push('/');
    r.append(usize_decimal(t.total_files).as_str());
    r.append(" files successfully into SQLite.");
    r
}

} // verus!
