use file_inspector::config::AppConfig;
use file_inspector::exclusion::meets_lone_star;
use file_inspector::indexing::{should_descend, FileOutcome, IndexTally};
use file_inspector::is_file_excluded;
use file_inspector::json_cache::{entry_skipped, legacy_file_type_label, DirTally};
use file_inspector::metadata::file_type_label;
use file_inspector::tags::{promote_first_scanned, refresh_tags, split_labels, split_terms};
use file_inspector::text::join;

fn strings(v: &[&str]) -> Vec<String> {
    v.iter().map(|s| s.to_string()).collect()
}

#[test]
fn excluded_by_extension_pattern() {
    let p = strings(&["*.log"]);
    assert!(is_file_excluded("server.log", "log", &p));
    assert!(!is_file_excluded("server.txt", "txt", &p));
    // The text after "*." is lower-cased before it is compared.
    let upper = strings(&["*.LOG"]);
    assert!(is_file_excluded("SERVER.LOG", "log", &upper));
    assert!(!is_file_excluded("SERVER.LOG", "LOG", &upper));
}

#[test]
fn excluded_by_name_patterns() {
    let p = strings(&["*tmp*", "*~", "draft_*", "Thumbs.db"]);
    assert!(is_file_excluded("a_tmp_file", "", &p));
    assert!(is_file_excluded("notes.txt~", "txt~", &p));
    assert!(is_file_excluded("draft_one.md", "md", &p));
    assert!(is_file_excluded("Thumbs.db", "db", &p));
    assert!(!is_file_excluded("thumbs.db", "db", &p));
    assert!(!is_file_excluded("final.md", "md", &p));
    let everything = strings(&["**"]);
    assert!(is_file_excluded("anything", "", &everything));
}

#[test]
fn default_exclusions() {
    let c = AppConfig::default();
    assert!(is_file_excluded(".DS_Store", "", &c.excluded_files));
    assert!(is_file_excluded("x.meta", "meta", &c.excluded_files));
    assert!(!is_file_excluded("main.rs", "rs", &c.excluded_files));
}

#[test]
fn lone_star_is_detected_only_when_reached() {
    let p = strings(&["*.log", "*"]);
    assert!(meets_lone_star("a.txt", "txt", &p));
    assert!(!meets_lone_star("a.log", "log", &p));
    assert!(!meets_lone_star("a.txt", "txt", &strings(&["*.log"])));
}

#[test]
fn terms_are_trimmed_lowered_and_nonempty() {
    assert_eq!(split_terms(" Foo, ,BAR ,baz,"), strings(&["foo", "bar", "baz"]));
    assert_eq!(split_terms(""), Vec::<String>::new());
    assert_eq!(split_terms("\u{3000}Ünïcode\t"), strings(&["ünïcode"]));
}

#[test]
fn labels_keep_case() {
    assert_eq!(split_labels(" Foo, ,BAR ,baz,"), strings(&["Foo", "BAR", "baz"]));
}

#[test]
fn shown_tags_read_back() {
    let tags = strings(&["rs file", "parsed", "2024", "", "march"]);
    let shown = join(&tags, ", ");
    assert_eq!(shown, "rs file, parsed, 2024, , march");
    assert_eq!(split_labels(&shown), strings(&["rs file", "parsed", "2024", "march"]));
    let mixed = strings(&["Rust", "Urgent"]);
    assert_eq!(split_terms(&join(&mixed, ", ")), strings(&["rust", "urgent"]));
}

#[test]
fn scanned_becomes_parsed_once() {
    let mut tags = strings(&["txt file", "scanned", "scanned"]);
    assert!(promote_first_scanned(&mut tags));
    assert_eq!(tags, strings(&["txt file", "parsed", "scanned"]));
    let mut none = strings(&["txt file"]);
    assert!(!promote_first_scanned(&mut none));
    assert_eq!(none, strings(&["txt file"]));
}

#[test]
fn refreshed_tags_always_hold_parsed() {
    let mut a = strings(&["TXT File", "SCANNED"]);
    refresh_tags(&mut a);
    assert_eq!(a, strings(&["txt file", "parsed"]));
    let mut b = strings(&["Work"]);
    refresh_tags(&mut b);
    assert_eq!(b, strings(&["work", "parsed"]));
    let mut c = strings(&["parsed", "X"]);
    refresh_tags(&mut c);
    assert_eq!(c, strings(&["parsed", "x"]));
}

#[test]
fn file_type_labels() {
    assert_eq!(file_type_label("rs"), "rs file");
    assert_eq!(file_type_label(""), "unknown / binary");
    assert_eq!(legacy_file_type_label("txt"), "TXT file");
    assert_eq!(legacy_file_type_label(""), "Unknown / Binary");
}

#[test]
fn tally_counts_every_file_once() {
    let c = AppConfig::default();
    let mut t = IndexTally::new();
    assert!(!t.screen_file("app.log", "log", &c));
    assert!(t.screen_file("README", "", &c));
    t.record_outcome("", FileOutcome::Indexed);
    assert!(t.screen_file("a.rs", "rs", &c));
    t.record_outcome("rs", FileOutcome::HashError);
    let mut sub = IndexTally::new();
    sub.record_outcome("png", FileOutcome::MetadataError);
    sub.record_outcome("png", FileOutcome::Indexed);
    t.absorb(&sub);
    assert_eq!(t.total_files, 5);
    assert_eq!(t.indexed_files, 2);
    assert_eq!(t.excluded_files, 1);
    assert_eq!(t.hash_errors, 1);
    assert_eq!(t.metadata_errors, 1);
    assert_eq!(t.no_extension, 1);
    let d = t.summary_details();
    assert_eq!(d[0], ("Total Files Encountered".to_string(), "5".to_string()));
    assert_eq!(d[1], ("Successfully Indexed Files".to_string(), "2".to_string()));
    assert_eq!(
        d[2],
        (
            "Un-indexed Files / Types".to_string(),
            "Excluded File: 1, Metadata Error: 1, Hash Error: 1".to_string()
        )
    );
    assert_eq!(d[3], ("Unknown File Types".to_string(), "No Extension: 1".to_string()));
}

#[test]
fn empty_tally_summary_says_none() {
    let d = IndexTally::new().summary_details();
    assert_eq!(d[2].1, "None");
    assert_eq!(d[3].1, "None");
}

#[test]
fn ignored_folders_are_not_descended() {
    let c = AppConfig::default();
    assert!(!should_descend(&c, "node_modules"));
    assert!(should_descend(&c, "src"));
}

#[test]
fn directory_walk_totals() {
    let ignored = strings(&[".git"]);
    let excluded = strings(&["Thumbs.db"]);
    assert!(entry_skipped(".git", &ignored, &excluded));
    assert!(entry_skipped("Thumbs.db", &ignored, &excluded));
    assert!(!entry_skipped("a.txt", &ignored, &excluded));
    let mut t = DirTally::new();
    t.count_entry();
    t.add_file_size(100);
    let mut sub = DirTally::new();
    sub.count_entry();
    sub.add_file_size(23);
    t.count_entry();
    t.absorb(&sub);
    assert_eq!(t.total_size, 123);
    assert_eq!(t.file_count, 3);
}
