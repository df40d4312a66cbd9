//! The inspector's configuration: which extensions get which analysis, which
//! names are priority files, excluded files or ignored folders.

use vstd::prelude::*;
use crate::text::{owned, texts, same_text};

verus! {

/// Extensions that select an analysis.
pub struct SearchCriteria {
    pub image_extensions: Vec<String>,
    pub media_extensions: Vec<String>,
    pub text_extensions: Vec<String>,
}

/// The configuration read from `config.json`.
pub struct AppConfig {
    /// Extension to language name, one entry per extension.
    pub language_extensions: Vec<(String, String)>,
    pub search_criteria: SearchCriteria,
    pub included_files: Vec<String>,
    pub excluded_files: Vec<String>,
    pub ignored_folders: Vec<String>,
}

/// The texts of a list of pairs of strings.
pub open spec fn pair_texts(v: Seq<(String, String)>) -> Seq<(Seq<char>, Seq<char>)> {
    v.map_values(|p: (String, String)| (p.0@, p.1@))
}

fn strings(items: &[&str]) -> (r: Vec<String>)
    ensures
        texts(r@) == items@.map_values(|s: &str| s@),
{
    let mut r: Vec<String> = Vec::new();
    let mut i: usize = 0;
    while i < items.len()
        invariant
            i <= items@.len(),
            texts(r@) == items@.take(i as int).map_values(|s: &str| s@),
        decreases items@.len() - i,
    {
        let ghost prev = r@;
        let item: &str = items[i];
        r.push(owned(item));
        assert(r@ =~= prev.push(r@.last()));
        assert(texts(r@) =~= texts(prev).push(item@));
        assert(items@.take(i + 1) =~= items@.take(i as int).push(item));
        i = i + 1;
        assert(texts(r@) =~= items@.take(i as int).map_values(|s: &str| s@));
    }
    assert(items@.take(items@.len() as int) =~= items@);
    r
}

fn string_pairs(items: &[(&str, &str)]) -> (r: Vec<(String, String)>)
    ensures
        pair_texts(r@) == items@.map_values(|p: (&str, &str)| (p.0@, p.1@)),
{
    let mut r: Vec<(String, String)> = Vec::new();
    let mut i: usize = 0;
    while i < items.len()
        invariant
            i <= items@.len(),
            pair_texts(r@) == items@.take(i as int).map_values(|p: (&str, &str)| (p.0@, p.1@)),
        decreases items@.len() - i,
    {
        let ghost prev = r@;
        let item: (&str, &str) = items[i];
        r.push((owned(item.0), owned(item.1)));
        assert(r@ =~= prev.push(r@.last()));
        assert(pair_texts(r@) =~= pair_texts(prev).push((item.0@, item.1@)));
        assert(items@.take(i + 1) =~= items@.take(i as int).push(item));
        i = i + 1;
        assert(pair_texts(r@) =~= items@.take(i as int).map_values(
            |p: (&str, &str)| (p.0@, p.1@),
        ));
    }
    assert(items@.take(items@.len() as int) =~= items@);
    r
}

/// The configuration as texts.
pub struct ConfigView {
    pub languages: Seq<(Seq<char>, Seq<char>)>,
    pub image_extensions: Seq<Seq<char>>,
    pub media_extensions: Seq<Seq<char>>,
    pub text_extensions: Seq<Seq<char>>,
    pub included_files: Seq<Seq<char>>,
    pub excluded_files: Seq<Seq<char>>,
    pub ignored_folders: Seq<Seq<char>>,
}

impl AppConfig {
    /// The language table has one entry per extension.
    pub open spec fn wf(&self) -> bool {
        keys_unique(self@.languages)
    }
}

impl View for AppConfig {
    type V = ConfigView;

    open spec fn view(&self) -> ConfigView {
        ConfigView {
            languages: pair_texts(self.language_extensions@),
            image_extensions: texts(self.search_criteria.image_extensions@),
            media_extensions: texts(self.search_criteria.media_extensions@),
            text_extensions: texts(self.search_criteria.text_extensions@),
            included_files: texts(self.included_files@),
            excluded_files: texts(self.excluded_files@),
            ignored_folders: texts(self.ignored_folders@),
        }
    }
}

/// The language names known out of the box.
pub open spec fn default_languages() -> Seq<(Seq<char>, Seq<char>)> {
    seq![
        ("rs"@, "Rust"@),
        ("py"@, "Python"@),
        ("js"@, "JavaScript"@),
        ("ts"@, "TypeScript"@),
        ("md"@, "Markdown"@),
        ("toml"@, "TOML Config"@),
        ("json"@, "JSON Data"@),
        ("yaml"@, "YAML Config"@),
        ("yml"@, "YAML Config"@),
        ("xml"@, "XML Document"@),
        ("html"@, "HTML Markup"@),
        ("css"@, "Cascading Style Sheets"@),
        ("c"@, "C Source"@),
        ("cpp"@, "C++ Source"@),
        ("h"@, "C/C++ Header"@),
    ]
}

/// Image extensions known out of the box.
pub open spec fn default_image_extensions() -> Seq<Seq<char>> {
    seq!["png"@, "jpg"@, "jpeg"@, "webp"@, "bmp"@, "gif"@, "tiff"@]
}

/// Audio and video extensions known out of the box.
pub open spec fn default_media_extensions() -> Seq<Seq<char>> {
    seq![
        "mp3"@, "mp4"@, "mkv"@, "wav"@, "flac"@, "ogg"@, "m4a"@, "aac"@, "avi"@, "mov"@,
        "webm"@, "opus"@,
    ]
}

/// Text extensions known out of the box.
pub open spec fn default_text_extensions() -> Seq<Seq<char>> {
    seq![
        "rs"@, "txt"@, "md"@, "toml"@, "json"@, "js"@, "ts"@, "py"@, "html"@, "css"@, "c"@,
        "cpp"@, "h"@, "xml"@, "yaml"@, "yml"@,
    ]
}

/// Priority files known out of the box.
pub open spec fn default_included_files() -> Seq<Seq<char>> {
    seq!["important.txt"@, "config.toml"@]
}

/// The default configuration of the SQLite-backed inspector.
pub open spec fn default_config_view() -> ConfigView {
    ConfigView {
        languages: default_languages(),
        image_extensions: default_image_extensions(),
        media_extensions: default_media_extensions(),
        text_extensions: default_text_extensions(),
        included_files: default_included_files(),
        excluded_files: seq![
            ".DS_Store"@, "Thumbs.db"@, "desktop.ini"@, "*.meta"@, "*.log"@,
        ],
        ignored_folders: seq![
            ".git"@, "node_modules"@, "target"@, ".vs"@, ".idea"@, "dist"@, "build"@,
            "Library"@, "Logs"@, "Obj"@, "UserSettings"@,
        ],
    }
}

/// The default configuration of the JSON-cache inspector.
pub open spec fn json_cache_default_view() -> ConfigView {
    ConfigView {
        languages: default_languages(),
        image_extensions: default_image_extensions(),
        media_extensions: default_media_extensions(),
        text_extensions: default_text_extensions(),
        included_files: default_included_files(),
        excluded_files: seq![".DS_Store"@, "Thumbs.db"@, "desktop.ini"@],
        ignored_folders: seq![
            ".git"@, "node_modules"@, "target"@, ".vs"@, ".idea"@, "dist"@, "build"@,
        ],
    }
}

/// No extension occurs twice in a language table, as in the map it stands for.
pub open spec fn keys_unique(table: Seq<(Seq<char>, Seq<char>)>) -> bool {
    forall|i: int, j: int| 0 <= i < j < table.len() ==> #[trigger] table[i].0 != #[trigger] table[j].0
}

proof fn lemma_default_keys_unique()
    ensures
        keys_unique(default_languages()),
{
    reveal_strlit("rs");
    reveal_strlit("py");
    reveal_strlit("js");
    reveal_strlit("ts");
    reveal_strlit("md");
    reveal_strlit("toml");
    reveal_strlit("json");
    reveal_strlit("yaml");
    reveal_strlit("yml");
    reveal_strlit("xml");
    reveal_strlit("html");
    reveal_strlit("css");
    reveal_strlit("c");
    reveal_strlit("cpp");
    reveal_strlit("h");
    let t = default_languages();
    assert forall|i: int, j: int| 0 <= i < j < t.len() implies #[trigger] t[i].0 != #[trigger] t[j].0 by {
        if t[i].0 == t[j].0 {
            assert(t[i].0.len() == t[j].0.len());
            assert(t[i].0[0] == t[j].0[0]);
            if t[i].0.len() > 1 {
                assert(t[i].0[1] == t[j].0[1]);
            }
            if t[i].0.len() > 2 {
                assert(t[i].0[2] == t[j].0[2]);
            }
        }
    }
}

/// In a table without repeated extensions, the language found for an
/// extension is the one its entry gives.
pub proof fn law_lookup_finds_entry(table: Seq<(Seq<char>, Seq<char>)>, i: int)
    requires
        keys_unique(table),
        0 <= i < table.len(),
    ensures
        lookup_language(table, table[i].0) == table[i].1,
    decreases i,
{
    if i > 0 {
        let rest = table.drop_first();
        assert(table[0].0 != table[i].0);
        assert(keys_unique(rest)) by {
            assert forall|a: int, b: int| 0 <= a < b < rest.len() implies #[trigger] rest[a].0 != #[trigger] rest[b].0 by {
                assert(rest[a] == table[a + 1]);
                assert(rest[b] == table[b + 1]);
            }
        }
        assert(rest[i - 1] == table[i]);
        law_lookup_finds_entry(rest, i - 1);
    }
}

/// Out of the box, each known extension is named by its language: "rs" is
/// Rust, "js" JavaScript, "ts" TypeScript, and so on for every entry of the
/// built-in table, in both inspectors.
pub proof fn law_default_language_names()
    ensures
        lookup_language(default_config_view().languages, "rs"@) == "Rust"@,
        lookup_language(default_config_view().languages, "py"@) == "Python"@,
        lookup_language(default_config_view().languages, "js"@) == "JavaScript"@,
        lookup_language(default_config_view().languages, "ts"@) == "TypeScript"@,
        lookup_language(default_config_view().languages, "md"@) == "Markdown"@,
        lookup_language(default_config_view().languages, "toml"@) == "TOML Config"@,
        lookup_language(default_config_view().languages, "json"@) == "JSON Data"@,
        lookup_language(default_config_view().languages, "yaml"@) == "YAML Config"@,
        lookup_language(default_config_view().languages, "yml"@) == "YAML Config"@,
        lookup_language(default_config_view().languages, "xml"@) == "XML Document"@,
        lookup_language(default_config_view().languages, "html"@) == "HTML Markup"@,
        lookup_language(default_config_view().languages, "css"@) == "Cascading Style Sheets"@,
        lookup_language(default_config_view().languages, "c"@) == "C Source"@,
        lookup_language(default_config_view().languages, "cpp"@) == "C++ Source"@,
        lookup_language(default_config_view().languages, "h"@) == "C/C++ Header"@,
        lookup_language(json_cache_default_view().languages, "rs"@) == "Rust"@,
        lookup_language(json_cache_default_view().languages, "py"@) == "Python"@,
        lookup_language(json_cache_default_view().languages, "js"@) == "JavaScript"@,
        lookup_language(json_cache_default_view().languages, "ts"@) == "TypeScript"@,
        lookup_language(json_cache_default_view().languages, "md"@) == "Markdown"@,
        lookup_language(json_cache_default_view().languages, "toml"@) == "TOML Config"@,
        lookup_language(json_cache_default_view().languages, "json"@) == "JSON Data"@,
        lookup_language(json_cache_default_view().languages, "yaml"@) == "YAML Config"@,
        lookup_language(json_cache_default_view().languages, "yml"@) == "YAML Config"@,
        lookup_language(json_cache_default_view().languages, "xml"@) == "XML Document"@,
        lookup_language(json_cache_default_view().languages, "html"@) == "HTML Markup"@,
        lookup_language(json_cache_default_view().languages, "css"@) == "Cascading Style Sheets"@,
        lookup_language(json_cache_default_view().languages, "c"@) == "C Source"@,
        lookup_language(json_cache_default_view().languages, "cpp"@) == "C++ Source"@,
        lookup_language(json_cache_default_view().languages, "h"@) == "C/C++ Header"@,
        lookup_language(default_config_view().languages, "txt"@) == "Plain Text"@,
{
    lemma_default_keys_unique();
    let t = default_languages();
    law_lookup_finds_entry(t, 0);
    law_lookup_finds_entry(t, 1);
    law_lookup_finds_entry(t, 2);
    law_lookup_finds_entry(t, 3);
    law_lookup_finds_entry(t, 4);
    law_lookup_finds_entry(t, 5);
    law_lookup_finds_entry(t, 6);
    law_lookup_finds_entry(t, 7);
    law_lookup_finds_entry(t, 8);
    law_lookup_finds_entry(t, 9);
    law_lookup_finds_entry(t, 10);
    law_lookup_finds_entry(t, 11);
    law_lookup_finds_entry(t, 12);
    law_lookup_finds_entry(t, 13);
    law_lookup_finds_entry(t, 14);
    reveal_strlit("rs");
    reveal_strlit("py");
    reveal_strlit("js");
    reveal_strlit("ts");
    reveal_strlit("md");
    reveal_strlit("toml");
    reveal_strlit("json");
    reveal_strlit("yaml");
    reveal_strlit("yml");
    reveal_strlit("xml");
    reveal_strlit("html");
    reveal_strlit("css");
    reveal_strlit("c");
    reveal_strlit("cpp");
    reveal_strlit("h");
    reveal_strlit("txt");
    assert forall|i: int| 0 <= i < t.len() implies (#[trigger] t[i]).0 != "txt"@ by {
        if t[i].0 == "txt"@ {
            assert(t[i].0.len() == 3);
            assert(t[i].0[0] == 't');
        }
    }
    lookup_absent(t, "txt"@);
}

/// An extension that no entry of the table has is named "Plain Text".
proof fn lookup_absent(table: Seq<(Seq<char>, Seq<char>)>, ext: Seq<char>)
    requires
        forall|i: int| 0 <= i < table.len() ==> (#[trigger] table[i]).0 != ext,
    ensures
        lookup_language(table, ext) == "Plain Text"@,
    decreases table.len(),
{
    if table.len() > 0 {
        assert(table[0].0 != ext);
        let rest = table.drop_first();
        assert forall|i: int| 0 <= i < rest.len() implies (#[trigger] rest[i]).0 != ext by {
            assert(rest[i] == table[i + 1]);
        }
        lookup_absent(rest, ext);
    }
}

/// The built-in lists of the default configuration.
pub proof fn law_default_lists()
    ensures
        default_config_view().image_extensions == seq!["png"@, "jpg"@, "jpeg"@, "webp"@, "bmp"@, "gif"@, "tiff"@],
        default_config_view().media_extensions == seq![
            "mp3"@, "mp4"@, "mkv"@, "wav"@, "flac"@, "ogg"@, "m4a"@, "aac"@, "avi"@, "mov"@,
            "webm"@, "opus"@,
        ],
        default_config_view().text_extensions == seq![
            "rs"@, "txt"@, "md"@, "toml"@, "json"@, "js"@, "ts"@, "py"@, "html"@, "css"@, "c"@,
            "cpp"@, "h"@, "xml"@, "yaml"@, "yml"@,
        ],
        default_config_view().included_files == seq!["important.txt"@, "config.toml"@],
        default_config_view().excluded_files == seq![
            ".DS_Store"@, "Thumbs.db"@, "desktop.ini"@, "*.meta"@, "*.log"@,
        ],
        default_config_view().ignored_folders == seq![
            ".git"@, "node_modules"@, "target"@, ".vs"@, ".idea"@, "dist"@, "build"@,
            "Library"@, "Logs"@, "Obj"@, "UserSettings"@,
        ],
        json_cache_default_view().image_extensions == default_config_view().image_extensions,
        json_cache_default_view().media_extensions == default_config_view().media_extensions,
        json_cache_default_view().text_extensions == default_config_view().text_extensions,
        json_cache_default_view().included_files == default_config_view().included_files,
        json_cache_default_view().excluded_files == seq![".DS_Store"@, "Thumbs.db"@, "desktop.ini"@],
        json_cache_default_view().ignored_folders == seq![
            ".git"@, "node_modules"@, "target"@, ".vs"@, ".idea"@, "dist"@, "build"@,
        ],
{
}

/// The language name of the first entry for `ext`, or "Plain Text".
pub open spec fn lookup_language(table: Seq<(Seq<char>, Seq<char>)>, ext: Seq<char>) -> Seq<char>
    decreases table.len(),
{
    if table.len() == 0 {
        "Plain Text"@
    } else if table[0].0 == ext {
        table[0].1
    } else {
        lookup_language(table.drop_first(), ext)
    }
}

fn default_criteria() -> (c: SearchCriteria)
    ensures
        texts(c.image_extensions@) == default_image_extensions(),
        texts(c.media_extensions@) == default_media_extensions(),
        texts(c.text_extensions@) == default_text_extensions(),
{
    SearchCriteria {
        image_extensions: strings(&["png", "jpg", "jpeg", "webp", "bmp", "gif", "tiff"]),
        media_extensions: strings(
            &[
                "mp3", "mp4", "mkv", "wav", "flac", "ogg", "m4a", "aac", "avi", "mov", "webm",
                "opus",
            ],
        ),
        text_extensions: strings(
            &[
                "rs", "txt", "md", "toml", "json", "js", "ts", "py", "html", "css", "c", "cpp",
                "h", "xml", "yaml", "yml",
            ],
        ),
    }
}

fn default_language_pairs() -> (r: Vec<(String, String)>)
    ensures
        pair_texts(r@) == default_languages(),
{
    string_pairs(
        &[
            ("rs", "Rust"),
            ("py", "Python"),
            ("js", "JavaScript"),
            ("ts", "TypeScript"),
            ("md", "Markdown"),
            ("toml", "TOML Config"),
            ("json", "JSON Data"),
            ("yaml", "YAML Config"),
            ("yml", "YAML Config"),
            ("xml", "XML Document"),
            ("html", "HTML Markup"),
            ("css", "Cascading Style Sheets"),
            ("c", "C Source"),
            ("cpp", "C++ Source"),
            ("h", "C/C++ Header"),
        ],
    )
}

impl Default for AppConfig {
    /// The built-in configuration, written to `config.json` on first start.
    fn default() -> (c: Self)
        ensures
            c@ == default_config_view(),
            c.wf(),
    {
        proof {
            lemma_default_keys_unique();
        }
        let included = strings(&["important.txt", "config.toml"]);
        let excluded = strings(&[".DS_Store", "Thumbs.db", "desktop.ini", "*.meta", "*.log"]);
        let ignored = strings(
            &[
                ".git", "node_modules", "target", ".vs", ".idea", "dist", "build", "Library",
                "Logs", "Obj", "UserSettings",
            ],
        );
        let c = AppConfig {
            language_extensions: default_language_pairs(),
            search_criteria: default_criteria(),
            included_files: included,
            excluded_files: excluded,
            ignored_folders: ignored,
        };
        assert(c@.included_files =~= default_config_view().included_files);
        assert(c@.excluded_files =~= default_config_view().excluded_files);
        assert(c@.ignored_folders =~= default_config_view().ignored_folders);
        c
    }
}

impl AppConfig {
    /// The built-in configuration of the JSON-cache inspector: fewer excluded
    /// files and ignored folders than the SQLite-backed one.
    pub fn json_cache_default() -> (c: Self)
        ensures
            c@ == json_cache_default_view(),
            c.wf(),
    {
        proof {
            lemma_default_keys_unique();
        }
        let included = strings(&["important.txt", "config.toml"]);
        let excluded = strings(&[".DS_Store", "Thumbs.db", "desktop.ini"]);
        let ignored = strings(&[".git", "node_modules", "target", ".vs", ".idea", "dist", "build"]);
        let c = AppConfig {
            language_extensions: default_language_pairs(),
            search_criteria: default_criteria(),
            included_files: included,
            excluded_files: excluded,
            ignored_folders: ignored,
        };
        assert(c@.included_files =~= json_cache_default_view().included_files);
        assert(c@.excluded_files =~= json_cache_default_view().excluded_files);
        assert(c@.ignored_folders =~= json_cache_default_view().ignored_folders);
        c
    }

    /// The language name for an extension, or "Plain Text" when none is configured.
    pub fn language_for(&self, ext: &str) -> (r: String)
        ensures
            r@ == lookup_language(self@.languages, ext@),
    {
        language_in(self.language_extensions.as_slice(), ext)
    }
}

/// The language name of the first entry for `ext` in the table, or
/// "Plain Text" when there is none.
pub fn language_in(table: &[(String, String)], ext: &str) -> (r: String)
    ensures
        r@ == lookup_language(pair_texts(table@), ext@),
{
    let ghost langs = pair_texts(table@);
    let mut i: usize = 0;
    assert(langs.skip(0) =~= langs);
    while i < table.len()
        invariant
            i <= table@.len(),
            langs == pair_texts(table@),
            lookup_language(langs, ext@) == lookup_language(langs.skip(i as int), ext@),
        decreases table@.len() - i,
    {
        proof {
            assert(langs.skip(i as int).drop_first() =~= langs.skip(i + 1));
            assert(langs.skip(i as int)[0] == (table@[i as int].0@, table@[i as int].1@));
        }
        if same_text(table[i].0.as_str(), ext) {
            return table[i].1.clone();
        }
        i = i + 1;
    }
    assert(langs.skip(i as int).len() == 0);
    owned("Plain Text")
}

} // verus!
