use file_inspector::rows::{record_from_row, row_from_record};
use file_inspector::config::AppConfig;
use file_inspector::indexing::{FileOutcome, IndexProgress, IndexTally};
use file_inspector::inspector::{ExportOutcome, FileInspectorApp, InspectFailure};
use file_inspector::json_cache;
use file_inspector::metadata::{
    analyze_text_file, directory_info, get_media_info, inspected_file_info, scanned_file_info,
    FileFacts, FileMetadataInfo, ImageSize, MediaProbe, ProbeResults, StreamInfo,
};
use file_inspector::search::{filter_matches, result_label};

fn strings(v: &[&str]) -> Vec<String> {
    v.iter().map(|s| s.to_string()).collect()
}

fn pairs(v: &[(&str, &str)]) -> Vec<(String, String)> {
    v.iter().map(|(a, b)| (a.to_string(), b.to_string())).collect()
}

fn facts(name: &str, ext: &str) -> FileFacts {
    FileFacts {
        path: format!("/data/{}", name),
        name: name.to_string(),
        raw_extension: ext.to_string(),
        size_bytes: 42,
        created_at: "2024-01-02 03:04:05".to_string(),
        modified_at: "2024-03-04 05:06:07".to_string(),
        file_hash: "abc123".to_string(),
        cached_at: "2024-05-06 07:08:09".to_string(),
        modified_date: Some(("2024".to_string(), "March".to_string())),
    }
}

fn no_results() -> ProbeResults {
    ProbeResults { image: None, media: None, text: None }
}

fn app() -> FileInspectorApp {
    FileInspectorApp::new("/db/file_inspector.db".to_string(), "/db/config.json".to_string(), AppConfig::default())
}

#[test]
fn text_stats_follow_line_reader() {
    let c = AppConfig::default();
    let s = analyze_text_file("fn main() {}\r\n\nlet x = 1;\n", "rs", &c.language_extensions);
    assert_eq!(s.loc, 3);
    assert_eq!(s.chars, 12 + 0 + 10);
    assert_eq!(s.language, "Rust");
    let t = analyze_text_file("a\nbc\r", "txt", &c.language_extensions);
    assert_eq!(t.loc, 2);
    assert_eq!(t.chars, 4);
    assert_eq!(t.language, "Plain Text");
    let e = analyze_text_file("", "md", &c.language_extensions);
    assert_eq!((e.loc, e.chars), (0, 0));
    assert_eq!(e.language, "Markdown");
    let u = analyze_text_file("héllo\nwörld", "yml", &c.language_extensions);
    assert_eq!((u.loc, u.chars), (2, 10));
    assert_eq!(u.language, "YAML Config");
}

#[test]
fn media_details_from_probe() {
    let probe = MediaProbe {
        streams: vec![
            StreamInfo {
                codec_type: "video".to_string(),
                codec_name: Some("h264".to_string()),
                width: Some(1920),
                height: Some(1080),
            },
            StreamInfo {
                codec_type: "audio".to_string(),
                codec_name: Some("aac".to_string()),
                width: None,
                height: None,
            },
            StreamInfo { codec_type: "data".to_string(), codec_name: None, width: None, height: None },
        ],
        duration_label: Some("00:01:05.50 (65.5s)".to_string()),
        bit_rate: Some("128000".to_string()),
    };
    assert_eq!(
        get_media_info(&probe),
        pairs(&[
            ("Video Resolution", "1920x1080 px"),
            ("VIDEO Codec", "H264"),
            ("AUDIO Codec", "AAC"),
            ("Media Duration", "00:01:05.50 (65.5s)"),
            ("Bitrate", "128 kbps"),
        ])
    );
}

#[test]
fn bit_rate_must_be_a_number() {
    let mk = |b: &str| MediaProbe { streams: vec![], duration_label: None, bit_rate: Some(b.to_string()) };
    assert_eq!(get_media_info(&mk("+999")), pairs(&[("Bitrate", "0 kbps")]));
    assert_eq!(get_media_info(&mk("1500.5")), pairs(&[]));
    assert_eq!(get_media_info(&mk(" 100")), pairs(&[]));
    assert_eq!(get_media_info(&mk("-5")), pairs(&[]));
    assert_eq!(get_media_info(&mk("18446744073709551616")), pairs(&[]));
}

#[test]
fn inspected_file_record() {
    let c = AppConfig::default();
    let mut f = facts("important.txt", "TXT");
    f.name = "important.txt".to_string();
    let results = ProbeResults {
        image: Some(ImageSize { width: 1, height: 1, aspect_ratio: "1.00".to_string() }),
        media: None,
        text: Some("one\ntwo\n".to_string()),
    };
    let r = inspected_file_info(f, &results, &c);
    assert_eq!(r.extension, "txt");
    assert_eq!(r.file_type, "txt file");
    assert_eq!(r.tags, strings(&["txt file", "parsed", "2024", "march"]));
    assert!(!r.is_directory);
    assert_eq!(
        r.extra_details,
        pairs(&[
            ("Config Status", "Explicitly Included Priority File"),
            ("Language Type", "Plain Text"),
            ("Lines of Code (LOC)", "2"),
            ("Total Characters", "6"),
        ])
    );
}

#[test]
fn image_record_details() {
    let c = AppConfig::default();
    let results = ProbeResults {
        image: Some(ImageSize { width: 800, height: 600, aspect_ratio: "1.33".to_string() }),
        media: None,
        text: None,
    };
    let r = inspected_file_info(facts("photo.PNG", "PNG"), &results, &c);
    assert_eq!(
        r.extra_details,
        pairs(&[("Width", "800 px"), ("Height", "600 px"), ("Aspect Ratio", "1.33")])
    );
}

#[test]
fn scanned_record_has_scanned_tag() {
    let c = AppConfig::default();
    let mut f = facts("noext", "");
    f.modified_date = None;
    let r = scanned_file_info(f, &c);
    assert_eq!(r.file_type, "unknown / binary");
    assert_eq!(r.tags, strings(&["unknown / binary", "scanned"]));
    assert!(r.extra_details.is_empty());
}

#[test]
fn scans_keep_stored_records() {
    let c = AppConfig::default();
    assert!(file_inspector::metadata::record_for_scan(facts("a.rs", "rs"), true, &c).is_none());
    let r = file_inspector::metadata::record_for_scan(facts("a.rs", "rs"), false, &c).unwrap();
    assert_eq!(r.tags, strings(&["rs file", "scanned", "2024", "march"]));
}

#[test]
fn new_inspector_status() {
    let a = app();
    assert_eq!(a.status_message, "Loaded config & initialized SQLite DB: /db/file_inspector.db");
    assert!(a.current_file.is_none());
}

#[test]
fn reload_keeps_old_config_on_failure() {
    let mut a = app();
    a.reload_config(None);
    assert_eq!(a.status_message, "Failed to reload configuration (syntax error).");
    assert_eq!(a.config.excluded_files.len(), 5);
    a.reload_config(Some(AppConfig::json_cache_default()));
    assert_eq!(a.status_message, "Configuration reloaded successfully from config.json.");
    assert_eq!(a.config.excluded_files.len(), 3);
}

#[test]
fn failures_are_reported() {
    let mut a = app();
    a.report_failure(InspectFailure::PathMissing);
    assert_eq!(a.status_message, "Error: Path does not exist.");
    a.report_failure(InspectFailure::Hash("denied".to_string()));
    assert_eq!(a.status_message, "Error computing file hash: denied");
    a.report_failure(InspectFailure::Metadata("gone".to_string()));
    assert_eq!(a.status_message, "Error reading metadata: gone");
}

#[test]
fn cached_record_with_scanned_tag_is_stored_again() {
    let mut a = app();
    let c = AppConfig::default();
    let rec = scanned_file_info(facts("a.rs", "rs"), &c);
    assert!(a.show_cached(rec));
    let shown = a.current_file.as_ref().unwrap();
    assert_eq!(shown.tags, strings(&["rs file", "parsed", "2024", "march"]));
    assert_eq!(a.tag_input_buffer, "rs file, parsed, 2024, march");
    assert_eq!(a.status_message, "Loaded file details instantly from SQLite database.");
    let rec2 = inspected_file_info(facts("b.rs", "rs"), &no_results(), &c);
    assert!(!a.show_cached(rec2));
}

#[test]
fn saving_tags_of_file_and_directory() {
    let mut a = app();
    assert!(!a.save_current_tags());
    let c = AppConfig::default();
    a.show_new_file(inspected_file_info(facts("a.rs", "rs"), &no_results(), &c));
    assert_eq!(a.status_message, "File indexed and stored in SQLite successfully.");
    a.tag_input_buffer = "Work,  Urgent ,".to_string();
    assert!(a.save_current_tags());
    assert_eq!(a.current_file.as_ref().unwrap().tags, strings(&["work", "urgent"]));
    assert_eq!(a.status_message, "Tags updated and saved to SQLite database successfully!");
    a.begin_directory_inspection(
        "/data".to_string(),
        "data".to_string(),
        "c".to_string(),
        "m".to_string(),
        "k".to_string(),
    );
    assert!(a.is_indexing);
    assert_eq!(a.tag_input_buffer, "directory");
    assert_eq!(a.current_file.as_ref().unwrap().file_hash, "dir_/data");
    a.tag_input_buffer = "Photos".to_string();
    assert!(!a.save_current_tags());
    assert_eq!(a.current_file.as_ref().unwrap().tags, strings(&["photos"]));
    assert_eq!(a.status_message, "Tags updated in current view (Directories are not cached by hash).");
}

#[test]
fn metadata_refresh_of_file() {
    let mut a = app();
    assert!(a.metadata_refresh_plan().is_none());
    let c = AppConfig::default();
    let mut rec = scanned_file_info(facts("notes.md", "md"), &c);
    rec.tags = strings(&["MD FILE", "Scanned"]);
    a.show_new_file(rec);
    let plan = a.metadata_refresh_plan().unwrap();
    assert!(plan.text && !plan.image && !plan.media);
    let results = ProbeResults { image: None, media: None, text: Some("# Title\n".to_string()) };
    assert!(a.update_current_file_metadata(&results));
    let f = a.current_file.as_ref().unwrap();
    assert_eq!(f.tags, strings(&["md file", "parsed"]));
    assert_eq!(f.file_type, "md file");
    assert_eq!(
        f.extra_details,
        pairs(&[("Language Type", "Markdown"), ("Lines of Code (LOC)", "1"), ("Total Characters", "7")])
    );
    assert_eq!(a.status_message, "Metadata re-extracted and updated in SQLite database successfully!");
}

#[test]
fn metadata_refresh_of_directory_is_refused() {
    let mut a = app();
    a.show_new_file(directory_info(
        "/d".to_string(),
        "d".to_string(),
        "c".to_string(),
        "m".to_string(),
        "k".to_string(),
    ));
    assert!(a.metadata_refresh_plan().is_none());
    assert!(!a.update_current_file_metadata(&no_results()));
    assert_eq!(a.status_message, "Metadata updates are currently only supported for files.");
}

#[test]
fn indexing_messages() {
    let mut a = app();
    a.begin_directory_inspection(
        "/data".to_string(),
        "data".to_string(),
        "c".to_string(),
        "m".to_string(),
        "k".to_string(),
    );
    assert!(!a.on_index_progress(IndexProgress::Progress("x.rs".to_string())));
    assert_eq!(a.current_indexing_file, "x.rs");
    let mut t = IndexTally::new();
    t.record_outcome("rs", FileOutcome::Indexed);
    t.record_outcome("rs", FileOutcome::Indexed);
    t.record_outcome("", FileOutcome::HashError);
    assert!(a.on_index_progress(IndexProgress::Finished(t)));
    assert!(!a.is_indexing);
    assert_eq!(a.status_message, "Indexed 2/3 files successfully into SQLite.");
    assert_eq!(
        a.current_file.as_ref().unwrap().extra_details,
        pairs(&[
            ("Total Files Encountered", "3"),
            ("Successfully Indexed Files", "2"),
            ("Un-indexed Files / Types", "Hash Error: 1"),
            ("Unknown File Types", "No Extension: 1"),
        ])
    );
}

#[test]
fn export_status_messages() {
    let mut a = app();
    a.report_export(ExportOutcome::Written { count: 7, path: "/tmp/x.json".to_string() });
    assert_eq!(a.status_message, "Successfully exported 7 items to /tmp/x.json");
    a.report_export(ExportOutcome::WriteFailed);
    assert_eq!(a.status_message, "Failed to write export file.");
    a.report_export(ExportOutcome::SerializeFailed);
    assert_eq!(a.status_message, "Failed to serialize items to JSON.");
}

fn record(name: &str, ext: &str, tags: &[&str]) -> FileMetadataInfo {
    let c = AppConfig::default();
    let mut r = inspected_file_info(facts(name, ext), &no_results(), &c);
    r.tags = strings(tags);
    r
}

#[test]
fn search_selects_by_name_tag_or_extension() {
    let files = vec![
        record("Report.PDF", "pdf", &["work"]),
        record("holiday.jpg", "jpg", &["Family", "beach"]),
        record("main.rs", "rs", &["code"]),
    ];
    let mut a = app();
    assert_eq!(filter_matches(&files, &a.search_terms()), vec![0, 1, 2]);
    a.search_query = "report".to_string();
    assert_eq!(filter_matches(&files, &a.search_terms()), vec![0]);
    a.search_query = "FAM, rs".to_string();
    assert_eq!(filter_matches(&files, &a.search_terms()), vec![1, 2]);
    a.search_query = "r".to_string();
    assert_eq!(filter_matches(&files, &a.search_terms()), vec![0, 2]);
    a.search_query = " , ".to_string();
    assert_eq!(filter_matches(&files, &a.search_terms()), vec![0, 1, 2]);
}

#[test]
fn result_labels() {
    let r = record("a_very_long_file_name.txt", "txt", &["x", "y"]);
    assert_eq!(result_label(&r), "a_very_long_fil... [txt file, x, y]");
    let mut a = app();
    assert!(!a.is_selected("abc123"));
    a.show_new_file(r);
    assert!(a.is_selected("abc123"));
    assert!(!a.is_selected("zzz"));
}

#[test]
fn json_cache_flow() {
    let mut a = json_cache::FileInspectorApp::new(
        "/d/file_index.json".to_string(),
        "/d/config.json".to_string(),
        AppConfig::json_cache_default(),
    );
    assert_eq!(a.status_message, "Loaded config from: /d/config.json");
    assert!(!a.screen_file("desktop.ini"));
    assert_eq!(a.status_message, "Skipped: 'desktop.ini' is explicitly excluded in config.json.");
    assert!(a.screen_file("a.txt"));
    let c = AppConfig::json_cache_default();
    let results = ProbeResults { image: None, media: None, text: Some("hi".to_string()) };
    let rec = json_cache::legacy_file_info(facts("a.txt", "txt"), &results, &c);
    assert_eq!(rec.file_type, "TXT file");
    assert!(rec.tags.is_empty());
    a.show_new_file(rec);
    assert_eq!(a.tag_input_buffer, "");
    a.tag_input_buffer = " Keep Case , x".to_string();
    assert!(a.save_current_tags());
    assert_eq!(a.current_file.as_ref().unwrap().tags, strings(&["Keep Case", "x"]));
    assert_eq!(a.status_message, "Tags successfully updated and saved to file_index.json!");
    let mut t = json_cache::DirTally::new();
    t.count_entry();
    t.add_file_size(10);
    a.show_directory("/d".to_string(), "d".to_string(), "c".to_string(), "m".to_string(), "k".to_string(), &t);
    let d = a.current_file.as_ref().unwrap();
    assert_eq!(d.size_bytes, 10);
    assert_eq!(d.file_hash, "N/A (Directory)");
    assert_eq!(d.extra_details, pairs(&[("Total Files & Folders", "1")]));
    assert_eq!(a.status_message, "Directory inspected successfully (config rules applied).");
    a.reload_config(None);
    assert_eq!(a.status_message, "Failed to reload config.json (syntax error or missing file).");
}

#[test]
fn default_configuration() {
    let c = AppConfig::default();
    assert_eq!(c.language_for("h"), "C/C++ Header");
    assert_eq!(c.language_for("zig"), "Plain Text");
    assert_eq!(c.search_criteria.image_extensions.len(), 7);
    assert_eq!(c.search_criteria.media_extensions.len(), 12);
    assert_eq!(c.search_criteria.text_extensions.len(), 16);
    assert_eq!(c.included_files, strings(&["important.txt", "config.toml"]));
    assert_eq!(c.ignored_folders.len(), 11);
    let v2 = AppConfig::json_cache_default();
    assert_eq!(v2.ignored_folders.len(), 7);
    assert_eq!(v2.excluded_files, strings(&[".DS_Store", "Thumbs.db", "desktop.ini"]));
}

#[test]
fn crlf_and_lf_texts_count_alike() {
    let c = AppConfig::default();
    let lf = analyze_text_file("alpha\nbeta\n\ngamma", "txt", &c.language_extensions);
    let crlf = analyze_text_file("alpha\r\nbeta\r\n\r\ngamma", "txt", &c.language_extensions);
    assert_eq!((lf.loc, lf.chars), (4, 14));
    assert_eq!((crlf.loc, crlf.chars), (lf.loc, lf.chars));
}

#[test]
fn language_table_lookup() {
    let table = pairs(&[("rs", "Rust"), ("rs", "Other"), ("py", "Python")]);
    assert_eq!(file_inspector::config::language_in(&table, "rs"), "Rust");
    assert_eq!(file_inspector::config::language_in(&table, "py"), "Python");
    assert_eq!(file_inspector::config::language_in(&table, "RS"), "Plain Text");
}

#[test]
fn added_term_keeps_results() {
    let files = vec![record("notes.txt", "txt", &["work"]), record("song.mp3", "mp3", &["music"])];
    let mut a = app();
    a.search_query = "work".to_string();
    assert_eq!(filter_matches(&files, &a.search_terms()), vec![0]);
    a.search_query = "work, music".to_string();
    assert_eq!(filter_matches(&files, &a.search_terms()), vec![0, 1]);
}

fn stored_row(extra_json: &str, tags_json: &str, size: i64) -> file_inspector::rows::StoredRow {
    file_inspector::rows::StoredRow {
        file_hash: "h1".to_string(),
        path: "/p/a.rs".to_string(),
        name: "a.rs".to_string(),
        extension: "rs".to_string(),
        size_bytes: size,
        file_type: "rs file".to_string(),
        created_at: "c".to_string(),
        modified_at: "m".to_string(),
        extra_json: extra_json.to_string(),
        cached_at: "k".to_string(),
        is_directory: false,
        tags_json: tags_json.to_string(),
    }
}

#[test]
fn stored_rows_decode() {
    let r = record_from_row(stored_row("[[\"Width\",\"8 px\"]]", "[\"rs file\",\"parsed\"]", 42));
    assert_eq!(r.extra_details, pairs(&[("Width", "8 px")]));
    assert_eq!(r.tags, strings(&["rs file", "parsed"]));
    assert_eq!(r.size_bytes, 42);
    assert_eq!(r.file_hash, "h1");
    assert_eq!(r.path, "/p/a.rs");
    let bad = record_from_row(stored_row("not json", "{\"a\":1}", -1));
    assert!(bad.extra_details.is_empty());
    assert!(bad.tags.is_empty());
    assert_eq!(bad.size_bytes, u64::MAX);
}

#[test]
fn records_encode_as_rows() {
    let mut rec = record("b.txt", "txt", &["x", "y \"q\""]);
    rec.size_bytes = u64::MAX;
    rec.extra_details = pairs(&[("Language Type", "Plain Text")]);
    let row = row_from_record(&rec);
    assert_eq!(row.tags_json, "[\"x\",\"y \\\"q\\\"\"]");
    assert_eq!(row.extra_json, "[[\"Language Type\",\"Plain Text\"]]");
    assert_eq!(row.size_bytes, -1);
    let back = record_from_row(row);
    assert_eq!(back.tags, rec.tags);
    assert_eq!(back.extra_details, rec.extra_details);
    assert_eq!(back.size_bytes, rec.size_bytes);
}

#[test]
fn unedited_tag_field_saves_same_tags() {
    let mut a = app();
    let c = AppConfig::default();
    a.show_new_file(inspected_file_info(facts("a.rs", "rs"), &no_results(), &c));
    let before = a.current_file.as_ref().unwrap().tags.clone();
    assert!(a.save_current_tags());
    assert_eq!(a.current_file.as_ref().unwrap().tags, before);
    let mut empty = inspected_file_info(facts("b.rs", "rs"), &no_results(), &c);
    empty.tags = vec![];
    a.show_new_file(empty);
    assert_eq!(a.tag_input_buffer, "");
    assert!(a.save_current_tags());
    assert!(a.current_file.as_ref().unwrap().tags.is_empty());
}

#[test]
fn undecoded_lists_read_as_empty() {
    let r = file_inspector::rows::record_from_decoded(stored_row("", "", 7), None, Some(strings(&["t"])));
    assert!(r.extra_details.is_empty());
    assert_eq!(r.tags, strings(&["t"]));
    assert_eq!(r.size_bytes, 7);
    let row = file_inspector::rows::row_from_encoded(&r, None, Some("[\"t\"]".to_string()));
    assert_eq!(row.extra_json, "");
    assert_eq!(row.tags_json, "[\"t\"]");
}
