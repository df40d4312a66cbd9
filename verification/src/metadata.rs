//! The record kept for each inspected file, and how its type, tags and
//! format details are derived from what was read from disk.

use vstd::prelude::*;
use vstd::slice::slice_subrange;
use crate::config::{AppConfig, language_in, lookup_language, pair_texts};
use crate::text::{
    chars_of, decimal, lowercase, owned, same_text, split_spec, texts, to_lower, to_upper,
    uppercase, usize_decimal, decimal_string, list_contains, lemma_split_nonempty,
};

verus! {

broadcast use vstd::string::group_string_axioms;

/// What is known of one file or directory.
pub struct FileMetadataInfo {
    pub path: String,
    pub name: String,
    pub extension: String,
    pub size_bytes: u64,
    pub file_type: String,
    pub created_at: String,
    pub modified_at: String,
    pub extra_details: Vec<(String, String)>,
    pub file_hash: String,
    pub cached_at: String,
    pub is_directory: bool,
    pub tags: Vec<String>,
}

/// A file record as texts.
pub struct FileInfoView {
    pub path: Seq<char>,
    pub name: Seq<char>,
    pub extension: Seq<char>,
    pub size_bytes: u64,
    pub file_type: Seq<char>,
    pub created_at: Seq<char>,
    pub modified_at: Seq<char>,
    pub extra_details: Seq<(Seq<char>, Seq<char>)>,
    pub file_hash: Seq<char>,
    pub cached_at: Seq<char>,
    pub is_directory: bool,
    pub tags: Seq<Seq<char>>,
}

impl View for FileMetadataInfo {
    type V = FileInfoView;

    open spec fn view(&self) -> FileInfoView {
        FileInfoView {
            path: self.path@,
            name: self.name@,
            extension: self.extension@,
            size_bytes: self.size_bytes,
            file_type: self.file_type@,
            created_at: self.created_at@,
            modified_at: self.modified_at@,
            extra_details: pair_texts(self.extra_details@),
            file_hash: self.file_hash@,
            cached_at: self.cached_at@,
            is_directory: self.is_directory,
            tags: texts(self.tags@),
        }
    }
}

/// A detail entry from two string slices.
pub fn detail(key: &str, value: &str) -> (d: (String, String))
    ensures
        d.0@ == key@,
        d.1@ == value@,
{
    (owned(key), owned(value))
}

/// A detail entry with an owned value.
fn detail_owned(key: &str, value: String) -> (d: (String, String))
    ensures
        d.0@ == key@,
        d.1@ == value@,
{
    (owned(key), value)
}

proof fn lemma_push_pair(v: Seq<(String, String)>, d: (String, String))
    ensures
        pair_texts(v.push(d)) == pair_texts(v).push((d.0@, d.1@)),
{
    assert(pair_texts(v.push(d)) =~= pair_texts(v).push((d.0@, d.1@)));
}

/// Appends one detail entry.
fn push_detail(details: &mut Vec<(String, String)>, d: (String, String))
    ensures
        pair_texts(final(details)@) == pair_texts(old(details)@).push((d.0@, d.1@)),
{
    proof { lemma_push_pair(details@, d); }
    details.push(d);
}

// ---------------------------------------------------------------------------
// Type and tags
// ---------------------------------------------------------------------------

/// The form in which extensions are compared and stored: lower-cased.
pub fn extension_key(raw_extension: &str) -> (r: String)
    ensures
        r@ == lowercase(raw_extension@),
{
    to_lower(raw_extension)
}

/// The type shown for a file with this (lower-case) extension.
pub open spec fn file_type_text(ext: Seq<char>) -> Seq<char> {
    if ext.len() == 0 {
        "unknown / binary"@
    } else {
        lowercase(ext + " file"@)
    }
}

/// The type shown for a file: "unknown / binary" without an extension,
/// otherwise "<extension> file", lower-cased.
pub fn file_type_label(extension: &str) -> (r: String)
    ensures
        r@ == file_type_text(extension@),
{
    if extension.is_empty() {
        owned("unknown / binary")
    } else {
        let mut s = owned(extension);
        s.append(" file");
        to_lower(s.as_str())
    }
}

/// The texts of an optional pair of strings.
pub open spec fn date_texts(d: Option<(String, String)>) -> Option<(Seq<char>, Seq<char>)> {
    match d {
        Some(p) => Some((p.0@, p.1@)),
        None => None,
    }
}

/// The first tags of a new record: its type, "scanned" or "parsed", then the
/// lower-cased year and month of its last modification when known.
pub open spec fn initial_tag_texts(
    file_type: Seq<char>,
    scanned: bool,
    date: Option<(Seq<char>, Seq<char>)>,
) -> Seq<Seq<char>> {
    let head = seq![file_type, if scanned { "scanned"@ } else { "parsed"@ }];
    match date {
        Some((year, month)) => head + seq![lowercase(year), lowercase(month)],
        None => head,
    }
}

/// The first tags of a new record.
pub fn initial_tags(file_type: &str, scanned: bool, date: &Option<(String, String)>) -> (r: Vec<String>)
    ensures
        texts(r@) == initial_tag_texts(file_type@, scanned, date_texts(*date)),
{
    let mut r: Vec<String> = Vec::new();
    r.push(owned(file_type));
    if scanned {
        r.push(owned("scanned"));
    } else {
        r.push(owned("parsed"));
    }
    match date {
        Some(d) => {
            r.push(to_lower(d.0.as_str()));
            r.push(to_lower(d.1.as_str()));
        },
        None => {},
    }
    assert(texts(r@) =~= initial_tag_texts(file_type@, scanned, date_texts(*date)));
    r
}

// ---------------------------------------------------------------------------
// Which analyses apply
// ---------------------------------------------------------------------------

/// Which readers to run on a file.
pub struct ProbePlan {
    pub image: bool,
    pub media: bool,
    pub text: bool,
}

/// Which readers the configuration asks for on files with this extension.
pub fn probe_plan(config: &AppConfig, extension: &str) -> (p: ProbePlan)
    ensures
        p.image == config@.image_extensions.contains(extension@),
        p.media == config@.media_extensions.contains(extension@),
        p.text == config@.text_extensions.contains(extension@),
{
    ProbePlan {
        image: list_contains(config.search_criteria.image_extensions.as_slice(), extension),
        media: list_contains(config.search_criteria.media_extensions.as_slice(), extension),
        text: list_contains(config.search_criteria.text_extensions.as_slice(), extension),
    }
}

/// Image dimensions, with the aspect ratio already rendered.
pub struct ImageSize {
    pub width: u32,
    pub height: u32,
    pub aspect_ratio: String,
}

/// One stream reported by a media prober.
pub struct StreamInfo {
    pub codec_type: String,
    pub codec_name: Option<String>,
    pub width: Option<u32>,
    pub height: Option<u32>,
}

/// What a media prober reported; the duration is already rendered.
pub struct MediaProbe {
    pub streams: Vec<StreamInfo>,
    pub duration_label: Option<String>,
    pub bit_rate: Option<String>,
}

/// What the readers found; `None` where a reader failed or was not run.
pub struct ProbeResults {
    pub image: Option<ImageSize>,
    pub media: Option<MediaProbe>,
    /// The file's text, when it could be read as UTF-8.
    pub text: Option<String>,
}

// ---------------------------------------------------------------------------
// Text statistics
// ---------------------------------------------------------------------------

/// A line without the carriage return that ended it.
pub open spec fn strip_cr(p: Seq<char>) -> Seq<char> {
    if p.len() > 0 && p.last() == '\r' {
        p.drop_last()
    } else {
        p
    }
}

/// The lines of a text as a buffered reader yields them: split at line
/// feeds, a carriage return before a line feed dropped, and no empty last line.
pub open spec fn text_lines(s: Seq<char>) -> Seq<Seq<char>> {
    let p = split_spec(s, '\n');
    let full = p.drop_last().map_values(|l: Seq<char>| strip_cr(l));
    if p.last().len() > 0 {
        full.push(p.last())
    } else {
        full
    }
}

/// The total length of the lines.
pub open spec fn total_len(lines: Seq<Seq<char>>) -> nat
    decreases lines.len(),
{
    if lines.len() == 0 {
        0
    } else {
        total_len(lines.drop_last()) + lines.last().len()
    }
}

/// Line and character counts of a text file, and its language.
pub struct TextStats {
    pub language: String,
    pub loc: usize,
    pub chars: usize,
}

/// Counts lines and characters of a text as a line reader sees it: each
/// line without its line ending, and the language that `lang_map` gives for
/// `ext` ("Plain Text" when none is).
pub fn analyze_text_file(content: &str, ext: &str, lang_map: &[(String, String)]) -> (r: TextStats)
    ensures
        r.loc == text_lines(content@).len(),
        r.chars == total_len(text_lines(content@)),
        r.language@ == lookup_language(pair_texts(lang_map@), ext@),
{
    let cs = chars_of(content);
    let mut loc: usize = 0;
    let mut chars: usize = 0;
    let mut cur_len: usize = 0;
    let mut cur_cr: bool = false;
    let mut i: usize = 0;
    assert(cs@.take(0) =~= Seq::<char>::empty());
    while i < cs.len()
        invariant
            cs@ == content@,
            i <= cs@.len(),
            loc + cur_len <= i,
            chars + cur_len <= i,
            ({
                let p = split_spec(cs@.take(i as int), '\n');
                let full = p.drop_last().map_values(|l: Seq<char>| strip_cr(l));
                &&& p.len() >= 1
                &&& loc == full.len()
                &&& chars == total_len(full)
                &&& cur_len == p.last().len()
                &&& cur_cr == (p.last().len() > 0 && p.last().last() == '\r')
            }),
        decreases cs@.len() - i,
    {
        let c = cs[i];
        let ghost p = split_spec(cs@.take(i as int), '\n');
        let ghost full = p.drop_last().map_values(|l: Seq<char>| strip_cr(l));
        proof {
            assert(cs@.take(i + 1).drop_last() =~= cs@.take(i as int));
            assert(cs@.take(i + 1).last() == c);
            lemma_split_nonempty(cs@.take(i + 1), '\n');
        }
        if c == '\n' {
            let ghost p2 = split_spec(cs@.take(i + 1), '\n');
            proof {
                assert(p2 == p.push(Seq::<char>::empty()));
                assert(p2.drop_last() =~= p);
                let full2 = p2.drop_last().map_values(|l: Seq<char>| strip_cr(l));
                assert(full2 =~= full.push(strip_cr(p.last())));
                assert(full2.drop_last() =~= full);
                if cur_cr {
                    assert(p.last().len() > 0);
                }
            }
            loc = loc + 1;
            if cur_cr {
                chars = chars + (cur_len - 1);
            } else {
                chars = chars + cur_len;
            }
            cur_len = 0;
            cur_cr = false;
        } else {
            let ghost p2 = split_spec(cs@.take(i + 1), '\n');
            proof {
                assert(p2 == p.update(p.len() - 1, p.last().push(c)));
                assert(p2.drop_last() =~= p.drop_last());
                assert(p2.last() == p.last().push(c));
            }
            cur_len = cur_len + 1;
            cur_cr = c == '\r';
        }
        i = i + 1;
    }
    proof {
        assert(cs@.take(cs@.len() as int) =~= cs@);
        let p = split_spec(cs@, '\n');
        let full = p.drop_last().map_values(|l: Seq<char>| strip_cr(l));
        if p.last().len() > 0 {
            assert(full.push(p.last()).drop_last() =~= full);
        }
    }
    if cur_len > 0 {
        loc = loc + 1;
        chars = chars + cur_len;
    }
    TextStats { language: language_in(lang_map, ext), loc, chars }
}

/// The text with every line feed preceded by a carriage return.
pub open spec fn with_crlf(s: Seq<char>) -> Seq<char>
    decreases s.len(),
{
    if s.len() == 0 {
        s
    } else if s.last() == '\n' {
        with_crlf(s.drop_last()) + seq!['\r', '\n']
    } else {
        with_crlf(s.drop_last()).push(s.last())
    }
}

proof fn lemma_split_crlf(s: Seq<char>)
    ensures
        ({
            let p = split_spec(s, '\n');
            let q = split_spec(with_crlf(s), '\n');
            &&& p.len() >= 1
            &&& q.len() == p.len()
            &&& q.last() == p.last()
            &&& forall|i: int| 0 <= i < p.len() - 1 ==> #[trigger] q[i] == p[i].push('\r')
        }),
    decreases s.len(),
{
    lemma_split_nonempty(s, '\n');
    if s.len() > 0 {
        let d = s.drop_last();
        lemma_split_crlf(d);
        lemma_split_nonempty(d, '\n');
        let pd = split_spec(d, '\n');
        let qd = split_spec(with_crlf(d), '\n');
        let c = s.last();
        let cd = with_crlf(d);
        if c == '\n' {
            let mid = cd.push('\r');
            assert(with_crlf(s) =~= mid.push('\n'));
            assert(mid.push('\n').drop_last() =~= mid);
            assert(mid.drop_last() =~= cd);
            lemma_split_nonempty(mid, '\n');
            let qm = split_spec(mid, '\n');
            assert(qm == qd.update(qd.len() - 1, qd.last().push('\r')));
            let q = split_spec(with_crlf(s), '\n');
            assert(q == qm.push(Seq::<char>::empty()));
            let p = split_spec(s, '\n');
            assert(p == pd.push(Seq::<char>::empty()));
            assert forall|i: int| 0 <= i < p.len() - 1 implies #[trigger] q[i] == p[i].push('\r') by {
                if i < p.len() - 2 {
                    assert(q[i] == qd[i]);
                }
            }
        } else {
            assert(with_crlf(s) == cd.push(c));
            assert(cd.push(c).drop_last() =~= cd);
            let q = split_spec(with_crlf(s), '\n');
            let p = split_spec(s, '\n');
            assert(q == qd.update(qd.len() - 1, qd.last().push(c)));
            assert(p == pd.update(pd.len() - 1, pd.last().push(c)));
            assert forall|i: int| 0 <= i < p.len() - 1 implies #[trigger] q[i] == p[i].push('\r') by {
                assert(q[i] == qd[i]);
            }
        }
    }
}

proof fn lemma_split_pieces_avoid(s: Seq<char>, c: char, i: int)
    requires
        !s.contains(c),
        0 <= i < split_spec(s, '\n').len(),
    ensures
        !split_spec(s, '\n')[i].contains(c),
    decreases s.len(),
{
    lemma_split_nonempty(s, '\n');
    if s.len() > 0 {
        let d = s.drop_last();
        assert(!d.contains(c)) by {
            if d.contains(c) {
                let k = choose|k: int| 0 <= k < d.len() && d[k] == c;
                assert(s[k] == c);
            }
        }
        assert(s.last() != c) by {
            assert(s[s.len() - 1] == s.last());
        }
        let pd = split_spec(d, '\n');
        lemma_split_nonempty(d, '\n');
        if i < pd.len() {
            lemma_split_pieces_avoid(d, c, i);
        }
        if s.last() != '\n' && i == pd.len() - 1 {
            lemma_split_pieces_avoid(d, c, i);
            let piece = pd[i].push(s.last());
            assert(split_spec(s, '\n')[i] == piece);
            assert(!piece.contains(c)) by {
                if piece.contains(c) {
                    let k = choose|k: int| 0 <= k < piece.len() && piece[k] == c;
                    if k < pd[i].len() {
                        assert(pd[i][k] == c);
                    }
                }
            }
        }
    }
}

/// A text without carriage returns has the same lines, and so the same line
/// and character counts, when its line feeds become CR LF pairs.
pub proof fn law_crlf_lines_match_lf(s: Seq<char>)
    requires
        !s.contains('\r'),
    ensures
        text_lines(with_crlf(s)) == text_lines(s),
{
    lemma_split_crlf(s);
    let p = split_spec(s, '\n');
    let q = split_spec(with_crlf(s), '\n');
    let fp = p.drop_last().map_values(|l: Seq<char>| strip_cr(l));
    let fq = q.drop_last().map_values(|l: Seq<char>| strip_cr(l));
    assert forall|i: int| 0 <= i < fp.len() implies #[trigger] fq[i] == fp[i] by {
        lemma_split_pieces_avoid(s, '\r', i);
        assert(q[i] == p[i].push('\r'));
        assert(p[i].push('\r').drop_last() =~= p[i]);
        if p[i].len() > 0 {
            assert(p[i].last() != '\r') by {
                assert(p[i][p[i].len() - 1] == p[i].last());
            }
        }
    }
    assert(fq =~= fp);
}

// ---------------------------------------------------------------------------
// Format details
// ---------------------------------------------------------------------------

/// A detail entry as texts.
pub open spec fn entry(key: Seq<char>, value: Seq<char>) -> (Seq<char>, Seq<char>) {
    (key, value)
}

/// "<n> px".
pub open spec fn px_text(n: nat) -> Seq<char> {
    decimal(n) + " px"@
}

/// The entry that marks a priority file, when the name is one.
pub open spec fn config_detail_texts(config: crate::config::ConfigView, name: Seq<char>) -> Seq<(Seq<char>, Seq<char>)> {
    if config.included_files.contains(name) {
        seq![entry("Config Status"@, "Explicitly Included Priority File"@)]
    } else {
        seq![]
    }
}

/// Width, height and aspect ratio of an image.
pub open spec fn image_detail_texts(w: u32, h: u32, aspect: Seq<char>) -> Seq<(Seq<char>, Seq<char>)> {
    seq![
        entry("Width"@, px_text(w as nat)),
        entry("Height"@, px_text(h as nat)),
        entry("Aspect Ratio"@, aspect),
    ]
}

/// The texts of an optional string.
pub open spec fn opt_text(o: Option<String>) -> Option<Seq<char>> {
    match o {
        Some(s) => Some(s@),
        None => None,
    }
}

/// The entries for one stream: its resolution when it is a video stream with
/// both dimensions, then its codec in upper case when named.
pub open spec fn stream_detail_texts(s: StreamInfo) -> Seq<(Seq<char>, Seq<char>)> {
    let resolution = if s.codec_type@ == "video"@ && s.width is Some && s.height is Some {
        seq![
            entry(
                "Video Resolution"@,
                decimal(s.width->0 as nat) + seq!['x'] + decimal(s.height->0 as nat) + " px"@,
            ),
        ]
    } else {
        seq![]
    };
    match opt_text(s.codec_name) {
        Some(c) => resolution.push(entry(uppercase(s.codec_type@) + " Codec"@, uppercase(c))),
        None => resolution,
    }
}

/// The entries for the streams, in order.
pub open spec fn streams_detail_texts(streams: Seq<StreamInfo>) -> Seq<(Seq<char>, Seq<char>)>
    decreases streams.len(),
{
    if streams.len() == 0 {
        seq![]
    } else {
        streams_detail_texts(streams.drop_last()) + stream_detail_texts(streams.last())
    }
}

/// Whether a character is an ASCII digit.
pub open spec fn is_digit(c: char) -> bool {
    '0' <= c <= '9'
}

/// The value of a run of ASCII digits.
pub open spec fn digits_value(s: Seq<char>) -> nat
    decreases s.len(),
{
    if s.len() == 0 {
        0
    } else {
        digits_value(s.drop_last()) * 10 + ((s.last() as nat) - 48) as nat
    }
}

/// The text after an optional leading `+`.
pub open spec fn digits_part(s: Seq<char>) -> Seq<char> {
    if s.len() > 0 && s[0] == '+' {
        s.drop_first()
    } else {
        s
    }
}

/// Every character is an ASCII digit.
pub open spec fn all_digits(d: Seq<char>) -> bool {
    forall|i: int| 0 <= i < d.len() ==> is_digit(#[trigger] d[i])
}

/// What `u64`'s `FromStr` accepts: an optional `+`, then one or more ASCII
/// digits whose value fits in 64 bits.
pub open spec fn parse_u64_text(s: Seq<char>) -> Option<u64> {
    let digits = digits_part(s);
    if digits.len() > 0 && all_digits(digits) && digits_value(digits) <= u64::MAX {
        Some(digits_value(digits) as u64)
    } else {
        None
    }
}

/// The decimal rendering of a number consists of digits whose value is
/// that number.
proof fn lemma_decimal_value(n: nat)
    ensures
        decimal(n).len() > 0,
        all_digits(decimal(n)),
        digits_value(decimal(n)) == n,
    decreases n,
{
    let d = decimal(n);
    if n < 10 {
        assert(d.drop_last() =~= Seq::<char>::empty());
        assert(d.last() == crate::text::digit(n));
        assert((crate::text::digit(n) as nat) == 48 + n);
        assert(digits_value(d) == digits_value(d.drop_last()) * 10 + n);
        assert(digits_value(Seq::<char>::empty()) == 0);
    } else {
        lemma_decimal_value(n / 10);
        let front = decimal(n / 10);
        assert(d.drop_last() =~= front);
        assert(d.last() == crate::text::digit(n % 10));
        assert((crate::text::digit(n % 10) as nat) == 48 + n % 10);
        assert(digits_value(d) == digits_value(front) * 10 + n % 10);
        assert(n == (n / 10) * 10 + n % 10);
        assert forall|i: int| 0 <= i < d.len() implies is_digit(#[trigger] d[i]) by {
            if i < front.len() {
                assert(d[i] == front[i]);
            }
        }
    }
}

/// Reading back the decimal rendering of a 64-bit number gives that number.
pub proof fn law_parse_reads_decimal(n: u64)
    ensures
        parse_u64_text(decimal(n as nat)) == Some(n),
{
    lemma_decimal_value(n as nat);
    let d = decimal(n as nat);
    assert(is_digit(d[0]));
    assert(digits_part(d) == d);
}

proof fn lemma_digits_prefix_bound(x: Seq<char>, k: int)
    requires
        0 <= k <= x.len(),
    ensures
        digits_value(x.take(k)) <= digits_value(x),
    decreases x.len(),
{
    if k < x.len() {
        lemma_digits_prefix_bound(x.drop_last(), k);
        assert(x.drop_last().take(k) =~= x.take(k));
    } else {
        assert(x.take(k) =~= x);
    }
}

/// The value of a run of ASCII digits, or `None` when it holds another
/// character or its value does not fit in 64 bits.
fn digits_u64(ds: &[char]) -> (r: Option<u64>)
    ensures
        match r {
            Some(v) => all_digits(ds@) && v as nat == digits_value(ds@),
            None => !all_digits(ds@) || digits_value(ds@) > u64::MAX,
        },
{
    let mut v: u64 = 0;
    let mut i: usize = 0;
    assert(ds@.take(0) =~= Seq::<char>::empty());
    while i < ds.len()
        invariant
            i <= ds@.len(),
            forall|k: int| 0 <= k < i ==> is_digit(#[trigger] ds@[k]),
            v as nat == digits_value(ds@.take(i as int)),
        decreases ds@.len() - i,
    {
        let c = ds[i];
        if !('0' <= c && c <= '9') {
            assert(!is_digit(ds@[i as int]));
            return None;
        }
        let d: u64 = ((c as u32) - 48) as u64;
        proof {
            assert(ds@.take(i + 1).drop_last() =~= ds@.take(i as int));
            assert(ds@.take(i + 1).last() == c);
        }
        if v > (u64::MAX - d) / 10 {
            proof {
                assert(v * 10 + d > u64::MAX) by (nonlinear_arith)
                    requires
                        v > (u64::MAX - d) / 10,
                        d <= 9,
                ;
                lemma_digits_prefix_bound(ds@, i + 1);
            }
            return None;
        }
        assert(v * 10 + d <= u64::MAX) by (nonlinear_arith)
            requires
                v <= (u64::MAX - d) / 10,
                d <= 9,
        ;
        v = v * 10 + d;
        i = i + 1;
    }
    assert(ds@.take(i as int) =~= ds@);
    Some(v)
}

/// Reads a bit rate the way `u64`'s `FromStr` does: an optional `+`, then
/// one or more ASCII digits whose value fits in 64 bits; anything else (a
/// `-`, spaces, an empty digit run, an overflow) gives `None`.
fn parse_u64(s: &str) -> (r: Option<u64>)
    ensures
        r == parse_u64_text(s@),
{
    let cs = chars_of(s);
    let start: usize = if cs.len() > 0 && cs[0] == '+' { 1 } else { 0 };
    let ds = slice_subrange(cs.as_slice(), start, cs.len());
    assert(digits_part(s@) =~= ds@);
    if ds.len() == 0 {
        return None;
    }
    digits_u64(ds)
}

/// The entries for a media file: stream entries, then the duration, then
/// the bit rate in kbit/s when it is a valid number.
pub open spec fn media_detail_texts(m: MediaProbe) -> Seq<(Seq<char>, Seq<char>)> {
    let streams = streams_detail_texts(m.streams@);
    let with_duration = match opt_text(m.duration_label) {
        Some(d) => streams.push(entry("Media Duration"@, d)),
        None => streams,
    };
    match opt_text(m.bit_rate) {
        Some(b) => match parse_u64_text(b) {
            Some(bits) => with_duration.push(entry("Bitrate"@, decimal((bits / 1000) as nat) + " kbps"@)),
            None => with_duration,
        },
        None => with_duration,
    }
}

/// Language, line count and character count of a text file.
pub open spec fn text_detail_texts(language: Seq<char>, loc: nat, chars: nat) -> Seq<(Seq<char>, Seq<char>)> {
    seq![
        entry("Language Type"@, language),
        entry("Lines of Code (LOC)"@, decimal(loc)),
        entry("Total Characters"@, decimal(chars)),
    ]
}

/// The details of a file with the given results, following the plan that
/// the configuration gives for its extension.
pub open spec fn extra_detail_texts(
    config: crate::config::ConfigView,
    name: Seq<char>,
    ext: Seq<char>,
    results: ProbeResults,
) -> Seq<(Seq<char>, Seq<char>)> {
    let base = config_detail_texts(config, name);
    let with_image = if results.image is Some && config.image_extensions.contains(ext) {
        let img = results.image->0;
        base + image_detail_texts(img.width, img.height, img.aspect_ratio@)
    } else {
        base
    };
    let with_media = if results.media is Some && config.media_extensions.contains(ext) {
        with_image + media_detail_texts(results.media->0)
    } else {
        with_image
    };
    if results.text is Some && config.text_extensions.contains(ext) {
        let t = results.text->0@;
        with_media + text_detail_texts(
            lookup_language(config.languages, ext),
            text_lines(t).len(),
            total_len(text_lines(t)),
        )
    } else {
        with_media
    }
}

/// A file whose extension is listed for media alone, whose name is not a
/// priority file and for which the media reader reported, gets exactly the
/// entries of that report, as `get_media_info` gives them.
pub proof fn law_media_only_details(
    config: crate::config::ConfigView,
    name: Seq<char>,
    ext: Seq<char>,
    results: ProbeResults,
)
    requires
        config.media_extensions.contains(ext),
        !config.image_extensions.contains(ext),
        !config.text_extensions.contains(ext),
        !config.included_files.contains(name),
        results.media is Some,
    ensures
        extra_detail_texts(config, name, ext, results) == media_detail_texts(results.media->0),
{
    assert(seq![] + media_detail_texts(results.media->0) =~= media_detail_texts(results.media->0));
}

/// A file whose extension is listed for images alone, whose name is not a
/// priority file and whose dimensions were read, gets its width, height and
/// aspect ratio, in that order, and nothing else.
pub proof fn law_image_only_details(
    config: crate::config::ConfigView,
    name: Seq<char>,
    ext: Seq<char>,
    results: ProbeResults,
)
    requires
        config.image_extensions.contains(ext),
        !config.media_extensions.contains(ext),
        !config.text_extensions.contains(ext),
        !config.included_files.contains(name),
        results.image is Some,
    ensures
        extra_detail_texts(config, name, ext, results) == seq![
            ("Width"@, decimal(results.image->0.width as nat) + " px"@),
            ("Height"@, decimal(results.image->0.height as nat) + " px"@),
            ("Aspect Ratio"@, results.image->0.aspect_ratio@),
        ],
{
    let img = results.image->0;
    assert(seq![] + image_detail_texts(img.width, img.height, img.aspect_ratio@) =~= seq![
        ("Width"@, decimal(img.width as nat) + " px"@),
        ("Height"@, decimal(img.height as nat) + " px"@),
        ("Aspect Ratio"@, img.aspect_ratio@),
    ]);
}

/// A file whose extension is listed for text alone, whose name is not a
/// priority file and whose content was read, gets its language from the
/// configured table, its line count and its character count, and nothing
/// else.
pub proof fn law_text_only_details(
    config: crate::config::ConfigView,
    name: Seq<char>,
    ext: Seq<char>,
    results: ProbeResults,
)
    requires
        config.text_extensions.contains(ext),
        !config.image_extensions.contains(ext),
        !config.media_extensions.contains(ext),
        !config.included_files.contains(name),
        results.text is Some,
    ensures
        extra_detail_texts(config, name, ext, results) == seq![
            ("Language Type"@, lookup_language(config.languages, ext)),
            ("Lines of Code (LOC)"@, decimal(text_lines(results.text->0@).len())),
            ("Total Characters"@, decimal(total_len(text_lines(results.text->0@)))),
        ],
{
    let t = results.text->0@;
    assert(seq![] + text_detail_texts(lookup_language(config.languages, ext), text_lines(t).len(), total_len(text_lines(t)))
        =~= seq![
        ("Language Type"@, lookup_language(config.languages, ext)),
        ("Lines of Code (LOC)"@, decimal(text_lines(t).len())),
        ("Total Characters"@, decimal(total_len(text_lines(t)))),
    ]);
}

/// A priority file's details start with the entry that marks it, whatever
/// the readers found.
pub proof fn law_priority_mark_first(
    config: crate::config::ConfigView,
    name: Seq<char>,
    ext: Seq<char>,
    results: ProbeResults,
)
    requires
        config.included_files.contains(name),
    ensures
        extra_detail_texts(config, name, ext, results).len() > 0,
        extra_detail_texts(config, name, ext, results)[0] == ("Config Status"@, "Explicitly Included Priority File"@),
{
}

/// Every stream with a named codec contributes an entry with its codec
/// type and codec name in upper case.
proof fn lemma_stream_codec_listed(ss: Seq<StreamInfo>, k: int)
    requires
        0 <= k < ss.len(),
        ss[k].codec_name is Some,
    ensures
        streams_detail_texts(ss).contains(
            (uppercase(ss[k].codec_type@) + " Codec"@, uppercase(ss[k].codec_name->0@)),
        ),
    decreases ss.len(),
{
    let x = (uppercase(ss[k].codec_type@) + " Codec"@, uppercase(ss[k].codec_name->0@));
    let front = streams_detail_texts(ss.drop_last());
    let back = stream_detail_texts(ss.last());
    let all = front + back;
    if k < ss.len() - 1 {
        lemma_stream_codec_listed(ss.drop_last(), k);
        assert(ss.drop_last()[k] == ss[k]);
        let y = choose|y: int| 0 <= y < front.len() && front[y] == x;
        assert(all[y] == front[y]);
    } else {
        assert(back.last() == x);
        assert(all[all.len() - 1] == back[back.len() - 1]);
    }
}

/// Every stream of a media report that names its codec yields an entry with
/// the codec type and the codec name in upper case; so such a report is
/// never empty.
pub proof fn law_media_codec_listed(m: MediaProbe, k: int)
    requires
        0 <= k < m.streams@.len(),
        m.streams@[k].codec_name is Some,
    ensures
        media_detail_texts(m).contains(
            (uppercase(m.streams@[k].codec_type@) + " Codec"@, uppercase(m.streams@[k].codec_name->0@)),
        ),
        media_detail_texts(m).len() > 0,
{
    let x = (uppercase(m.streams@[k].codec_type@) + " Codec"@, uppercase(m.streams@[k].codec_name->0@));
    lemma_stream_codec_listed(m.streams@, k);
    let streams = streams_detail_texts(m.streams@);
    let y = choose|y: int| 0 <= y < streams.len() && streams[y] == x;
    let with_duration = match opt_text(m.duration_label) {
        Some(d) => streams.push(entry("Media Duration"@, d)),
        None => streams,
    };
    assert(with_duration[y] == x);
    match opt_text(m.bit_rate) {
        Some(b) => match parse_u64_text(b) {
            Some(bits) => {
                let full = with_duration.push(entry("Bitrate"@, decimal((bits / 1000) as nat) + " kbps"@));
                assert(full[y] == x);
            },
            None => {},
        },
        None => {},
    }
}

/// A media report whose bit rate is a number, written in decimal, ends with
/// that rate in whole kilobits per second.
pub proof fn law_media_bitrate_in_kbps(m: MediaProbe, bits: u64)
    requires
        m.bit_rate is Some,
        m.bit_rate->0@ == decimal(bits as nat),
    ensures
        media_detail_texts(m).len() > 0,
        media_detail_texts(m).last() == ("Bitrate"@, decimal((bits / 1000) as nat) + " kbps"@),
{
    law_parse_reads_decimal(bits);
}

/// A media report without a bit rate ends with its duration, when it has one.
pub proof fn law_media_duration_last(m: MediaProbe)
    requires
        m.bit_rate is None,
        m.duration_label is Some,
    ensures
        media_detail_texts(m).len() > 0,
        media_detail_texts(m).last() == ("Media Duration"@, m.duration_label->0@),
{
}

/// A video stream with both dimensions is reported first by its resolution,
/// width before height.
pub proof fn law_video_resolution_first(s: StreamInfo)
    requires
        s.codec_type@ == "video"@,
        s.width is Some,
        s.height is Some,
    ensures
        stream_detail_texts(s).len() > 0,
        stream_detail_texts(s)[0] == (
            "Video Resolution"@,
            decimal(s.width->0 as nat) + seq!['x'] + decimal(s.height->0 as nat) + " px"@,
        ),
{
    let r = seq![
        entry(
            "Video Resolution"@,
            decimal(s.width->0 as nat) + seq!['x'] + decimal(s.height->0 as nat) + " px"@,
        ),
    ];
    if s.codec_name is Some {
        assert(r.push(entry(uppercase(s.codec_type@) + " Codec"@, uppercase(s.codec_name->0@)))[0] == r[0]);
    }
}

/// "<n> px".
fn px(n: u32) -> (r: String)
    ensures
        r@ == px_text(n as nat),
{
    let mut r = decimal_string(n as u64);
    r.append(" px");
    r
}

/// The priority-file entry, when the name is configured as one.
pub fn config_details(config: &AppConfig, name: &str) -> (r: Vec<(String, String)>)
    ensures
        pair_texts(r@) == config_detail_texts(config@, name@),
{
    let mut r: Vec<(String, String)> = Vec::new();
    if list_contains(config.included_files.as_slice(), name) {
        push_detail(&mut r, detail("Config Status", "Explicitly Included Priority File"));
    }
    assert(pair_texts(r@) =~= config_detail_texts(config@, name@));
    r
}

/// Appends the width, height and aspect ratio of an image.
fn push_image_details(details: &mut Vec<(String, String)>, img: &ImageSize)
    ensures
        pair_texts(final(details)@) == pair_texts(old(details)@) + image_detail_texts(
            img.width,
            img.height,
            img.aspect_ratio@,
        ),
{
    let ghost start = pair_texts(details@);
    push_detail(details, detail_owned("Width", px(img.width)));
    push_detail(details, detail_owned("Height", px(img.height)));
    push_detail(details, detail("Aspect Ratio", img.aspect_ratio.as_str()));
    assert(pair_texts(details@) =~= start + image_detail_texts(img.width, img.height, img.aspect_ratio@));
}

/// Appends the entries for one stream.
fn push_stream_details(details: &mut Vec<(String, String)>, s: &StreamInfo)
    ensures
        pair_texts(final(details)@) == pair_texts(old(details)@) + stream_detail_texts(*s),
{
    let ghost start = pair_texts(details@);
    let video = same_text(s.codec_type.as_str(), "video");
    let ghost resolution = if s.codec_type@ == "video"@ && s.width is Some && s.height is Some {
        seq![
            entry(
                "Video Resolution"@,
                decimal(s.width->0 as nat) + seq!['x'] + decimal(s.height->0 as nat) + " px"@,
            ),
        ]
    } else {
        Seq::<(Seq<char>, Seq<char>)>::empty()
    };
    if video && s.width.is_some() && s.height.is_some() {
        let w = s.width.unwrap();
        let h = s.height.unwrap();
        let mut v = decimal_string(w as u64);
        v.push('x');
        v.append(decimal_string(h as u64).as_str());
        v.append(" px");
        assert(v@ =~= decimal(w as nat) + seq!['x'] + decimal(h as nat) + " px"@);
        push_detail(details, detail_owned("Video Resolution", v));
        assert(pair_texts(details@) =~= start + resolution);
    } else {
        assert(pair_texts(details@) =~= start + resolution);
    }
    let ghost mid = pair_texts(details@);
    match &s.codec_name {
        Some(codec) => {
            let mut k = to_upper(s.codec_type.as_str());
            k.append(" Codec");
            let v = to_upper(codec.as_str());
            let d = (k, v);
            push_detail(details, d);
            assert(pair_texts(details@) =~= start + resolution.push(
                entry(uppercase(s.codec_type@) + " Codec"@, uppercase(codec@)),
            ));
        },
        None => {},
    }
    assert(pair_texts(details@) =~= start + stream_detail_texts(*s));
}

/// The entries that a media prober's report gives: per stream its
/// resolution (video) and codec, then the duration, then the bit rate.
pub fn get_media_info(probe: &MediaProbe) -> (r: Vec<(String, String)>)
    ensures
        pair_texts(r@) == media_detail_texts(*probe),
{
    let mut r: Vec<(String, String)> = Vec::new();
    let ghost ss = probe.streams@;
    let mut i: usize = 0;
    while i < probe.streams.len()
        invariant
            ss == probe.streams@,
            i <= ss.len(),
            pair_texts(r@) == streams_detail_texts(ss.take(i as int)),
        decreases ss.len() - i,
    {
        proof {
            assert(ss.take(i + 1).drop_last() =~= ss.take(i as int));
            assert(ss.take(i + 1).last() == ss[i as int]);
        }
        push_stream_details(&mut r, &probe.streams[i]);
        i = i + 1;
    }
    assert(ss.take(ss.len() as int) =~= ss);
    match &probe.duration_label {
        Some(d) => push_detail(&mut r, detail("Media Duration", d.as_str())),
        None => {},
    }
    match &probe.bit_rate {
        Some(b) => match parse_u64(b.as_str()) {
            Some(bits) => {
                let mut v = decimal_string(bits / 1000);
                v.append(" kbps");
                push_detail(&mut r, detail_owned("Bitrate", v));
            },
            None => {},
        },
        None => {},
    }
    r
}

/// Appends the language, line count and character count of a text file.
fn push_text_details(details: &mut Vec<(String, String)>, stats: TextStats)
    ensures
        pair_texts(final(details)@) == pair_texts(old(details)@) + text_detail_texts(
            stats.language@,
            stats.loc as nat,
            stats.chars as nat,
        ),
{
    let ghost start = pair_texts(details@);
    let ghost lang = stats.language@;
    push_detail(details, detail_owned("Language Type", stats.language));
    push_detail(details, detail_owned("Lines of Code (LOC)", usize_decimal(stats.loc)));
    push_detail(details, detail_owned("Total Characters", usize_decimal(stats.chars)));
    assert(pair_texts(details@) =~= start + text_detail_texts(lang, stats.loc as nat, stats.chars as nat));
}

/// The format details of a file: the priority-file mark, then what the
/// image, media and text readers found, each only when the configuration
/// lists the extension for it.
pub fn extra_details(config: &AppConfig, name: &str, extension: &str, results: &ProbeResults) -> (r: Vec<(String, String)>)
    ensures
        pair_texts(r@) == extra_detail_texts(config@, name@, extension@, *results),
{
    let plan = probe_plan(config, extension);
    let mut r = config_details(config, name);
    if plan.image {
        match &results.image {
            Some(img) => push_image_details(&mut r, img),
            None => {},
        }
    }
    if plan.media {
        match &results.media {
            Some(m) => {
                let mut more = get_media_info(m);
                append_details(&mut r, &mut more);
            },
            None => {},
        }
    }
    if plan.text {
        match &results.text {
            Some(t) => {
                let stats = analyze_text_file(t.as_str(), extension, config.language_extensions.as_slice());
                push_text_details(&mut r, stats);
            },
            None => {},
        }
    }
    r
}

/// Moves all entries of `more` to the end of `details`.
fn append_details(details: &mut Vec<(String, String)>, more: &mut Vec<(String, String)>)
    ensures
        pair_texts(final(details)@) == pair_texts(old(details)@) + pair_texts(old(more)@),
{
    let ghost a = details@;
    let ghost b = more@;
    details.append(more);
    assert(pair_texts(details@) =~= pair_texts(a) + pair_texts(b));
}

// ---------------------------------------------------------------------------
// New records
// ---------------------------------------------------------------------------

/// What was read from disk about a file, before analysis.
pub struct FileFacts {
    pub path: String,
    pub name: String,
    /// The extension as found on disk, any case.
    pub raw_extension: String,
    pub size_bytes: u64,
    pub created_at: String,
    pub modified_at: String,
    pub file_hash: String,
    pub cached_at: String,
    /// Year and month name of the last modification, when known.
    pub modified_date: Option<(String, String)>,
}

/// The record made for a file inspected on its own (`scanned` false) or
/// found by a directory scan (`scanned` true), with the given details.
pub open spec fn new_record(
    facts: FileFacts,
    scanned: bool,
    details: Seq<(Seq<char>, Seq<char>)>,
) -> FileInfoView {
    let ext = lowercase(facts.raw_extension@);
    FileInfoView {
        path: facts.path@,
        name: facts.name@,
        extension: ext,
        size_bytes: facts.size_bytes,
        file_type: file_type_text(ext),
        created_at: facts.created_at@,
        modified_at: facts.modified_at@,
        extra_details: details,
        file_hash: facts.file_hash@,
        cached_at: facts.cached_at@,
        is_directory: false,
        tags: initial_tag_texts(file_type_text(ext), scanned, date_texts(facts.modified_date)),
    }
}

/// A new file record keeps each fact read from disk in the field of the same
/// name, holds exactly the given details, has the lower-cased extension and
/// is no directory.
pub proof fn law_new_record_keeps_facts(facts: FileFacts, scanned: bool, details: Seq<(Seq<char>, Seq<char>)>)
    ensures
        new_record(facts, scanned, details).path == facts.path@,
        new_record(facts, scanned, details).name == facts.name@,
        new_record(facts, scanned, details).extension == lowercase(facts.raw_extension@),
        new_record(facts, scanned, details).size_bytes == facts.size_bytes,
        new_record(facts, scanned, details).created_at == facts.created_at@,
        new_record(facts, scanned, details).modified_at == facts.modified_at@,
        new_record(facts, scanned, details).file_hash == facts.file_hash@,
        new_record(facts, scanned, details).cached_at == facts.cached_at@,
        new_record(facts, scanned, details).extra_details == details,
        !new_record(facts, scanned, details).is_directory,
{
}

fn assemble(facts: FileFacts, extension: String, scanned: bool, details: Vec<(String, String)>) -> (r: FileMetadataInfo)
    requires
        extension@ == lowercase(facts.raw_extension@),
    ensures
        r@ == new_record(facts, scanned, pair_texts(details@)),
        r.path@ == facts.path@,
        r.name@ == facts.name@,
        r.created_at@ == facts.created_at@,
        r.modified_at@ == facts.modified_at@,
        r.file_hash@ == facts.file_hash@,
        r.cached_at@ == facts.cached_at@,
        r.size_bytes == facts.size_bytes,
        !r.is_directory,
{
    let file_type = file_type_label(extension.as_str());
    let tags = initial_tags(file_type.as_str(), scanned, &facts.modified_date);
    FileMetadataInfo {
        path: facts.path,
        name: facts.name,
        extension,
        size_bytes: facts.size_bytes,
        file_type,
        created_at: facts.created_at,
        modified_at: facts.modified_at,
        extra_details: details,
        file_hash: facts.file_hash,
        cached_at: facts.cached_at,
        is_directory: false,
        tags,
    }
}

/// The record for a file inspected on its own: tagged "parsed", with every
/// detail the configured readers produced.
pub fn inspected_file_info(facts: FileFacts, results: &ProbeResults, config: &AppConfig) -> (r: FileMetadataInfo)
    ensures
        r@ == new_record(
            facts,
            false,
            extra_detail_texts(config@, facts.name@, lowercase(facts.raw_extension@), *results),
        ),
        r.path@ == facts.path@,
        r.name@ == facts.name@,
        r.created_at@ == facts.created_at@,
        r.modified_at@ == facts.modified_at@,
        r.file_hash@ == facts.file_hash@,
        r.cached_at@ == facts.cached_at@,
        r.size_bytes == facts.size_bytes,
        !r.is_directory,
{
    let extension = to_lower(facts.raw_extension.as_str());
    let details = extra_details(config, facts.name.as_str(), extension.as_str(), results);
    assemble(facts, extension, false, details)
}

/// The record for a file found by a directory scan: tagged "scanned", with
/// only the priority-file mark as detail.
pub fn scanned_file_info(facts: FileFacts, config: &AppConfig) -> (r: FileMetadataInfo)
    ensures
        r@ == new_record(facts, true, config_detail_texts(config@, facts.name@)),
        r.path@ == facts.path@,
        r.name@ == facts.name@,
        r.created_at@ == facts.created_at@,
        r.modified_at@ == facts.modified_at@,
        r.file_hash@ == facts.file_hash@,
        r.cached_at@ == facts.cached_at@,
        r.size_bytes == facts.size_bytes,
        !r.is_directory,
{
    let extension = to_lower(facts.raw_extension.as_str());
    let details = config_details(config, facts.name.as_str());
    assemble(facts, extension, true, details)
}

/// What a directory scan stores for a file: nothing when a record with its
/// hash is already stored (so its tags and details are kept), otherwise a
/// new "scanned" record.
pub fn record_for_scan(facts: FileFacts, already_stored: bool, config: &AppConfig) -> (r: Option<FileMetadataInfo>)
    ensures
        already_stored ==> r is None,
        !already_stored ==> (r matches Some(info) && info@ == new_record(
            facts,
            true,
            config_detail_texts(config@, facts.name@),
        )),
{
    if already_stored {
        None
    } else {
        Some(scanned_file_info(facts, config))
    }
}

/// The record shown for a directory while it is being indexed.
pub open spec fn directory_record(
    path: Seq<char>,
    name: Seq<char>,
    created_at: Seq<char>,
    modified_at: Seq<char>,
    cached_at: Seq<char>,
) -> FileInfoView {
    FileInfoView {
        path,
        name,
        extension: seq![],
        size_bytes: 0,
        file_type: "directory"@,
        created_at,
        modified_at,
        extra_details: seq![entry("Status"@, "Indexing in background..."@)],
        file_hash: "dir_"@ + path,
        cached_at,
        is_directory: true,
        tags: seq!["directory"@],
    }
}

/// A directory's record keeps each given text in the field of the same
/// name, is marked as a directory of size zero, and is keyed by its path.
pub proof fn law_directory_record_keeps_fields(
    path: Seq<char>,
    name: Seq<char>,
    created_at: Seq<char>,
    modified_at: Seq<char>,
    cached_at: Seq<char>,
)
    ensures
        directory_record(path, name, created_at, modified_at, cached_at).path == path,
        directory_record(path, name, created_at, modified_at, cached_at).name == name,
        directory_record(path, name, created_at, modified_at, cached_at).created_at == created_at,
        directory_record(path, name, created_at, modified_at, cached_at).modified_at == modified_at,
        directory_record(path, name, created_at, modified_at, cached_at).cached_at == cached_at,
        directory_record(path, name, created_at, modified_at, cached_at).file_hash == "dir_"@ + path,
        directory_record(path, name, created_at, modified_at, cached_at).size_bytes == 0,
        directory_record(path, name, created_at, modified_at, cached_at).is_directory,
{
}

/// The record for a directory about to be indexed.
pub fn directory_info(path: String, name: String, created_at: String, modified_at: String, cached_at: String) -> (r: FileMetadataInfo)
    ensures
        r@ == directory_record(path@, name@, created_at@, modified_at@, cached_at@),
        r.path@ == path@,
        r.name@ == name@,
        r.created_at@ == created_at@,
        r.modified_at@ == modified_at@,
        r.cached_at@ == cached_at@,
        r.file_hash@ == "dir_"@ + path@,
        r.size_bytes == 0,
        r.is_directory,
{
    let mut hash = owned("dir_");
    hash.append(path.as_str());
    let mut details: Vec<(String, String)> = Vec::new();
    push_detail(&mut details, detail("Status", "Indexing in background..."));
    let mut tags: Vec<String> = Vec::new();
    tags.push(owned("directory"));
    let r = FileMetadataInfo {
        path,
        name,
        extension: String::new(),
        size_bytes: 0,
        file_type: owned("directory"),
        created_at,
        modified_at,
        extra_details: details,
        file_hash: hash,
        cached_at,
        is_directory: true,
        tags,
    };
    assert(r@.extra_details =~= seq![entry("Status"@, "Indexing in background..."@)]);
    assert(r@.tags =~= seq!["directory"@]);
    assert(r@.extension =~= seq![]);
    r
}

} // verus!
