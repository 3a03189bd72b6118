//! The WeChat file importer: HTML stripping, timestamp detection, item keys
//! and the deduplication of a batch.

use vstd::prelude::*;
pub use crate::config::opt_view;
use crate::error::BackendError;
use crate::num::{dec_chars, dec_string, fnv1a, hash_hex_chars, hex_string};
use crate::pipeline::normalize::{
    canonical_url, canonicalize_url_chars, extract_url_chars, mentioned_urls, normalized_ts,
    normalize_ts_chars, sorted_unique, ts_cuttable, url_punct, url_punct_exec,
};
use crate::text::{
    all_ascii, byte_len, byte_prefix, byte_prefix_exec, chars_of, collapse_chars, collapse_ws,
    concat, contains, contains_chars, in_set, is_boundary, lemma_ascii_byte_len, lemma_trim_noop,
    lit, replace_char, replace_char_exec, string_of, string_views, strings_of, trim_by, trim_set,
    views, words, words_of,
};

verus! {

#[derive(Debug, Clone)]
pub struct WechatImportSummary {
    pub batch_id: String,
    pub total: u32,
    pub imported: u32,
    pub duplicates: u32,
    pub failed: u32,
}

#[derive(Debug, Clone)]
pub struct WechatImportedItem {
    pub path: String,
    pub content_raw: String,
    pub source_url: Option<String>,
    pub extracted_urls: Vec<String>,
    pub published_at: Option<String>,
    pub dedupe_key: String,
}

#[derive(Debug, Clone)]
pub struct WechatImportError {
    pub path: String,
    pub code: String,
    pub message: String,
    pub retryable: bool,
}

#[derive(Debug, Clone)]
pub struct WechatImportParsed {
    pub items: Vec<WechatImportedItem>,
    pub duplicates: u32,
    pub errors: Vec<WechatImportError>,
}

// ── HTML ────────────────────────────────────────────────────────────────────

/// The text outside tags read so far, and whether a tag is open.
pub open spec fn untagged_state(s: Seq<char>) -> (Seq<char>, bool)
    decreases s.len(),
{
    if s.len() == 0 {
        (Seq::empty(), false)
    } else {
        let (out, in_tag) = untagged_state(s.drop_last());
        let c = s.last();
        if c == '<' {
            (out, true)
        } else if c == '>' {
            (out, false)
        } else if !in_tag {
            (out.push(c), in_tag)
        } else {
            (out, in_tag)
        }
    }
}

/// The characters outside `<...>` tags, white space collapsed.
pub open spec fn html_text(s: Seq<char>) -> Seq<char> {
    collapse_ws(untagged_state(s).0)
}

pub fn strip_html(input: &str) -> (r: String)
    ensures
        r@ == html_text(input@),
{
    let v = chars_of(input);
    let mut out: Vec<char> = Vec::new();
    let mut in_tag = false;
    let mut i: usize = 0;
    while i < v.len()
        invariant
            i <= v.len(),
            (out@, in_tag) == untagged_state(v@.take(i as int)),
        decreases v.len() - i,
    {
        proof {
            crate::text::lemma_take_succ(v@, i as int);
        }
        let c = v[i];
        if c == '<' {
            in_tag = true;
        } else if c == '>' {
            in_tag = false;
        } else if !in_tag {
            out.push(c);
        }
        i = i + 1;
    }
    proof {
        assert(v@.take(v.len() as int) =~= v@);
    }
    string_of(&collapse_chars(&out))
}

// ── Timestamps ──────────────────────────────────────────────────────────────

pub open spec fn is_ascii_digit(c: char) -> bool {
    '0' <= c && c <= '9'
}

/// `YYYY-MM-DD HH:MM:SS`: nineteen characters, digits and separators.
pub open spec fn is_ymd_hms(v: Seq<char>) -> bool {
    &&& v.len() == 19
    &&& is_ascii_digit(v[0]) && is_ascii_digit(v[1]) && is_ascii_digit(v[2]) && is_ascii_digit(
        v[3],
    )
    &&& v[4] == '-' && is_ascii_digit(v[5]) && is_ascii_digit(v[6])
    &&& v[7] == '-' && is_ascii_digit(v[8]) && is_ascii_digit(v[9])
    &&& v[10] == ' ' && is_ascii_digit(v[11]) && is_ascii_digit(v[12])
    &&& v[13] == ':' && is_ascii_digit(v[14]) && is_ascii_digit(v[15])
    &&& v[16] == ':' && is_ascii_digit(v[17]) && is_ascii_digit(v[18])
}

pub fn is_yyyy_mm_dd_hh_mm_ss(v: &Vec<char>) -> (r: bool)
    ensures
        r == is_ymd_hms(v@),
{
    if v.len() != 19 {
        return false;
    }
    let d = |c: char| -> (b: bool)
        ensures
            b == is_ascii_digit(c),
        { '0' <= c && c <= '9' };
    d(v[0]) && d(v[1]) && d(v[2]) && d(v[3]) && v[4] == '-' && d(v[5]) && d(v[6]) && v[7] == '-'
        && d(v[8]) && d(v[9]) && v[10] == ' ' && d(v[11]) && d(v[12]) && v[13] == ':' && d(v[14])
        && d(v[15]) && v[16] == ':' && d(v[17]) && d(v[18])
}

/// A word with surrounding punctuation removed, `/` as `-` and `T` as a space.
pub open spec fn ts_candidate(raw: Seq<char>) -> Seq<char> {
    replace_char(replace_char(trim_by(raw, in_set(url_punct())), '/', '-'), 'T', ' ')
}

/// What reading a word as a timestamp gives: `None` when the word cannot be
/// cut at byte 19 (where the cut panics), else the normalised timestamp
/// when the first 19 bytes read `YYYY-MM-DD HH:MM:SS`, else nothing.
pub open spec fn ts_of_word(raw: Seq<char>) -> Option<Option<Seq<char>>> {
    let s = ts_candidate(raw);
    if byte_len(s) >= 19 {
        if !is_boundary(s, 19) {
            None
        } else if is_ymd_hms(byte_prefix(s, 19)) {
            Some(normalized_ts(byte_prefix(s, 19)))
        } else {
            Some(None)
        }
    } else {
        Some(None)
    }
}

proof fn lemma_ymd_hms_normalizes(p: Seq<char>)
    requires
        is_ymd_hms(p),
    ensures
        ts_cuttable(p),
        normalized_ts(p) is Some,
{
    assert(all_ascii(p)) by {
        assert forall|i: int| 0 <= i < p.len() implies (#[trigger] p[i] as u32) < 0x80 by {
            assert(0 <= i <= 18);
        }
    }
    lemma_trim_noop(p);
    lemma_ascii_byte_len(p);
    assert(p.take(19) =~= p);
    assert(is_boundary(p, 19));
}

fn byte_len_at_least_19(v: &Vec<char>) -> (r: bool)
    ensures
        r == (byte_len(v@) >= 19),
{
    let mut acc: usize = 0;
    let mut k: usize = 0;
    while k < v.len() && acc < 19
        invariant
            k <= v.len(),
            acc == byte_len(v@.take(k as int)),
            acc <= 22,
        decreases v.len() - k,
    {
        proof {
            crate::text::lemma_byte_len_take_succ(v@, k as int);
        }
        acc = acc + crate::text::utf8_len_exec(v[k]);
        k = k + 1;
    }
    proof {
        if k < v.len() {
            crate::text::lemma_byte_len_take_strict(v@, k as int, v@.len() as int);
        }
        assert(v@.take(v@.len() as int) =~= v@);
    }
    acc >= 19
}

/// Reads a word as a timestamp (see `ts_of_word`); `None` where the cut at
/// byte 19 would panic.
fn ts_of_word_exec(raw: &Vec<char>) -> (r: Option<Option<Vec<char>>>)
    ensures
        match r {
            None => ts_of_word(raw@) is None,
            Some(None) => ts_of_word(raw@) == Some(None::<Seq<char>>),
            Some(Some(t)) => ts_of_word(raw@) == Some(Some(t@)),
        },
{
    let punct = url_punct_exec();
    let t = trim_set(raw, &punct);
    let s = replace_char_exec(&replace_char_exec(&t, '/', '-'), 'T', ' ');
    if byte_len_at_least_19(&s) {
        match byte_prefix_exec(&s, 19) {
            Some(p) => {
                if is_yyyy_mm_dd_hh_mm_ss(&p) {
                    proof {
                        lemma_ymd_hms_normalizes(p@);
                    }
                    Some(normalize_ts_chars(&p))
                } else {
                    Some(None)
                }
            },
            None => None,
        }
    } else {
        Some(None)
    }
}

pub fn parse_ts_candidate(raw: &Vec<char>) -> (r: Option<Vec<char>>)
    requires
        ts_of_word(raw@) is Some,
    ensures
        match r {
            Some(t) => ts_of_word(raw@) == Some(Some(t@)),
            None => ts_of_word(raw@) == Some(None::<Seq<char>>),
        },
{
    match ts_of_word_exec(raw) {
        Some(found) => found,
        None => None,
    }
}

/// The first timestamp among the words from position `i` on, each word
/// tried alone and then joined by a space to the next one; `None` when a
/// word that is tried panics.
pub open spec fn detect_ts_from(tokens: Seq<Seq<char>>, i: int) -> Option<Option<Seq<char>>>
    decreases tokens.len() - i,
{
    if i < 0 || i >= tokens.len() {
        Some(None)
    } else {
        match ts_of_word(tokens[i]) {
            None => None,
            Some(Some(t)) => Some(Some(t)),
            Some(None) => if i + 1 < tokens.len() {
                match ts_of_word(tokens[i] + " "@ + tokens[i + 1]) {
                    None => None,
                    Some(Some(t)) => Some(Some(t)),
                    Some(None) => detect_ts_from(tokens, i + 1),
                }
            } else {
                detect_ts_from(tokens, i + 1)
            },
        }
    }
}

/// The publication time that a document's text gives, if any; `None` when
/// looking for it panics.
pub open spec fn detected_ts(content: Seq<char>) -> Option<Option<Seq<char>>> {
    detect_ts_from(words(content), 0)
}

/// Looks for the publication time in a document's text (see
/// `detected_ts`); `None` where the search would panic.
pub fn scan_published_at(content: &str) -> (r: Option<Option<String>>)
    ensures
        match r {
            None => detected_ts(content@) is None,
            Some(None) => detected_ts(content@) == Some(None::<Seq<char>>),
            Some(Some(t)) => detected_ts(content@) == Some(Some(t@)),
        },
{
    let tokens = words_of(&chars_of(content));
    let ghost tv = views(tokens@);
    let mut space: Vec<char> = Vec::new();
    space.push(' ');
    proof {
        assert(space@ =~= " "@) by {
            reveal_strlit(" ");
        }
    }
    let mut i: usize = 0;
    while i < tokens.len()
        invariant
            i <= tokens.len(),
            tv == views(tokens@),
            tv == words(content@),
            space@ == " "@,
            detected_ts(content@) == detect_ts_from(tv, i as int),
        decreases tokens.len() - i,
    {
        proof {
            assert(tv[i as int] == tokens@[i as int]@);
        }
        match ts_of_word_exec(&tokens[i]) {
            None => {
                return None;
            },
            Some(Some(ts)) => {
                return Some(Some(string_of(&ts)));
            },
            Some(None) => {},
        }
        if i + 1 < tokens.len() {
            proof {
                assert(tv[i + 1] == tokens@[i + 1]@);
            }
            let joined = concat(&concat(&tokens[i], &space), &tokens[i + 1]);
            match ts_of_word_exec(&joined) {
                None => {
                    return None;
                },
                Some(Some(ts)) => {
                    return Some(Some(string_of(&ts)));
                },
                Some(None) => {},
            }
        }
        i = i + 1;
    }
    Some(None)
}

pub fn detect_published_at(content: &str) -> (r: Option<String>)
    requires
        detected_ts(content@) is Some,
    ensures
        match r {
            Some(t) => detected_ts(content@) == Some(Some(t@)),
            None => detected_ts(content@) == Some(None::<Seq<char>>),
        },
{
    match scan_published_at(content) {
        Some(found) => found,
        None => None,
    }
}

// ── Items ───────────────────────────────────────────────────────────────────

/// `format!("{}|{}|{}", source_url, short_hash(content), published_at)` where
/// the hash is written in decimal.
pub open spec fn wechat_dedupe_raw(
    source_url: Seq<char>,
    content: Seq<char>,
    published_at: Seq<char>,
) -> Seq<char> {
    source_url + "|"@ + dec_string(fnv1a(vstd::utf8::encode_utf8(content)) as nat) + "|"@
        + published_at
}

pub open spec fn opt_or_empty(o: Option<Seq<char>>) -> Seq<char> {
    match o {
        Some(v) => v,
        None => Seq::empty(),
    }
}

/// An imported document: its links, its canonical source (the first link),
/// its publication time (from its text, else from the file), and its key.
pub open spec fn wechat_item_ok(
    item: WechatImportedItem,
    path: Seq<char>,
    content: Seq<char>,
    modified_at: Option<Seq<char>>,
) -> bool {
    let urls = string_views(item.extracted_urls@);
    let source = if urls.len() > 0 {
        Some(canonical_url(urls[0]))
    } else {
        None
    };
    let published = match detected_ts(content) {
        Some(Some(t)) => Some(t),
        _ => modified_at,
    };
    &&& item.path@ == path
    &&& item.content_raw@ == content
    &&& sorted_unique(urls)
    &&& urls.to_set() == mentioned_urls(content)
    &&& opt_view(item.source_url) == source
    &&& opt_view(item.published_at) == published
    &&& item.dedupe_key@ == hex_string(
        fnv1a(
            vstd::utf8::encode_utf8(
                wechat_dedupe_raw(opt_or_empty(source), content, opt_or_empty(published)),
            ),
        ) as nat,
    )
}

/// Builds the imported item for a document whose text was read.
pub fn build_wechat_item(path: String, content_raw: String, modified_at: Option<String>) -> (r:
    WechatImportedItem)
    requires
        detected_ts(content_raw@) is Some,
    ensures
        wechat_item_ok(r, path@, content_raw@, opt_view(modified_at)),
{
    let content = chars_of(content_raw.as_str());
    let urls = extract_url_chars(&content);
    let source_url: Option<Vec<char>> = if urls.len() > 0 {
        proof {
            assert(views(urls@)[0] == urls@[0]@);
        }
        Some(canonicalize_url_chars(&urls[0]))
    } else {
        None
    };
    let published_at = match detect_published_at(content_raw.as_str()) {
        Some(t) => Some(t),
        None => modified_at,
    };
    let sep = lit("|");
    let mut raw = match &source_url {
        Some(u) => u.clone(),
        None => Vec::new(),
    };
    proof {
        assert(raw@ == opt_or_empty(match source_url {
            Some(u) => Some(u@),
            None => None,
        }));
    }
    raw = concat(&raw, &sep);
    raw = concat(&raw, &dec_chars(crate::num::stable_hash(content_raw.as_str())));
    raw = concat(&raw, &sep);
    let published_chars = match &published_at {
        Some(p) => chars_of(p.as_str()),
        None => Vec::new(),
    };
    raw = concat(&raw, &published_chars);
    let key = hash_hex_chars(&raw);
    WechatImportedItem {
        path,
        content_raw,
        source_url: match source_url {
            Some(u) => Some(string_of(&u)),
            None => None,
        },
        extracted_urls: strings_of(&urls),
        published_at,
        dedupe_key: string_of(&key),
    }
}

// ── Batches ─────────────────────────────────────────────────────────────────

/// The error code that an error's text names: `ING-1001` for a missing or
/// unreadable file, `PAR-2001` for a file that cannot be parsed, else
/// `IPC-6001`.
pub open spec fn error_code_of(e: BackendError) -> Seq<char> {
    if contains(e.display(), "ING-1001"@) {
        "ING-1001"@
    } else if contains(e.display(), "PAR-2001"@) {
        "PAR-2001"@
    } else {
        "IPC-6001"@
    }
}

pub fn map_error_code(e: &BackendError) -> (r: &'static str)
    ensures
        r@ == error_code_of(*e),
{
    let msg = chars_of(e.message().as_str());
    if contains_chars(&msg, &lit("ING-1001")) {
        "ING-1001"
    } else if contains_chars(&msg, &lit("PAR-2001")) {
        "PAR-2001"
    } else {
        "IPC-6001"
    }
}

/// The outcome of reading one file: its path and the item or the error.
pub type FileOutcome = (String, Result<WechatImportedItem, BackendError>);

/// The fields of an import error, by their views.
pub open spec fn error_view(e: WechatImportError) -> (Seq<char>, Seq<char>, Seq<char>, bool) {
    (e.path@, e.code@, e.message@, e.retryable)
}

/// A batch read in order: each item whose key is new is kept, each item
/// whose key was kept already counts as a duplicate, each error is recorded
/// with its path, code and text, not retryable.
pub open spec fn batch_state(outs: Seq<FileOutcome>) -> (
    Seq<WechatImportedItem>,
    nat,
    Seq<(Seq<char>, Seq<char>, Seq<char>, bool)>,
)
    decreases outs.len(),
{
    if outs.len() == 0 {
        (Seq::empty(), 0, Seq::empty())
    } else {
        let (items, dups, errs) = batch_state(outs.drop_last());
        let (path, outcome) = outs.last();
        match outcome {
            Ok(item) => if items.map_values(|it: WechatImportedItem| it.dedupe_key@).contains(
                item.dedupe_key@,
            ) {
                (items, dups + 1, errs)
            } else {
                (items.push(item), dups, errs)
            },
            Err(e) => (items, dups, errs.push((path@, error_code_of(e), e.display(), false))),
        }
    }
}

/// Every file of a batch is accounted for once, as an imported item, a
/// duplicate or an error; and no two imported items share a key.
pub proof fn law_import_batch_accounts_for_every_file(outs: Seq<FileOutcome>)
    ensures
        batch_state(outs).0.len() + batch_state(outs).1 + batch_state(outs).2.len() == outs.len(),
        forall|i: int, j: int|
            #![trigger batch_state(outs).0[i], batch_state(outs).0[j]]
            0 <= i < j < batch_state(outs).0.len() ==> batch_state(outs).0[i].dedupe_key@
                != batch_state(outs).0[j].dedupe_key@,
    decreases outs.len(),
{
    if outs.len() > 0 {
        law_import_batch_accounts_for_every_file(outs.drop_last());
        let (items, dups, errs) = batch_state(outs.drop_last());
        let (path, outcome) = outs.last();
        if let Ok(item) = outcome {
            let keys = items.map_values(|it: WechatImportedItem| it.dedupe_key@);
            if !keys.contains(item.dedupe_key@) {
                let grown = items.push(item);
                assert forall|i: int, j: int|
                    #![trigger grown[i], grown[j]]
                    0 <= i < j < grown.len() implies grown[i].dedupe_key@
                        != grown[j].dedupe_key@ by {
                    if j == items.len() {
                        assert(keys[i] == items[i].dedupe_key@);
                        assert(grown[i] == items[i]);
                    } else {
                        assert(grown[i] == items[i]);
                        assert(grown[j] == items[j]);
                    }
                }
            }
        }
    }
}

fn keys_of(items: &Vec<WechatImportedItem>) -> (r: Vec<Vec<char>>)
    ensures
        views(r@) == items@.map_values(|it: WechatImportedItem| it.dedupe_key@),
{
    let mut r: Vec<Vec<char>> = Vec::new();
    let mut i: usize = 0;
    while i < items.len()
        invariant
            i <= items.len(),
            views(r@) == items@.take(i as int).map_values(|it: WechatImportedItem| it.dedupe_key@),
        decreases items.len() - i,
    {
        let ghost before = r@;
        r.push(chars_of(items[i].dedupe_key.as_str()));
        proof {
            assert(views(r@) =~= views(before).push(items@[i as int].dedupe_key@));
            assert(items@.take(i + 1).map_values(|it: WechatImportedItem| it.dedupe_key@)
                =~= items@.take(i as int).map_values(|it: WechatImportedItem| it.dedupe_key@).push(
                items@[i as int].dedupe_key@,
            ));
        }
        i = i + 1;
    }
    proof {
        assert(items@.take(items.len() as int) =~= items@);
    }
    r
}

/// Gathers the outcomes of reading a batch of files.
pub fn parse_wechat_files(outcomes: Vec<FileOutcome>) -> (r: WechatImportParsed)
    requires
        outcomes@.len() <= u32::MAX,
    ensures
        r.items@ == batch_state(outcomes@).0,
        r.duplicates == batch_state(outcomes@).1,
        r.errors@.map_values(|e: WechatImportError| error_view(e)) == batch_state(outcomes@).2,
{
    let ghost outs = outcomes@;
    let mut items: Vec<WechatImportedItem> = Vec::new();
    let mut keys: Vec<Vec<char>> = Vec::new();
    let mut errors: Vec<WechatImportError> = Vec::new();
    let mut duplicates: u32 = 0;
    let mut i: usize = 0;
    let n = outcomes.len();
    let mut rest = outcomes;
    proof {
        assert(outs.skip(0) =~= outs);
    }
    while i < n
        invariant
            i <= outs.len(),
            n == outs.len(),
            outs.len() <= u32::MAX,
            rest@ == outs.skip(i as int),
            items@ == batch_state(outs.take(i as int)).0,
            views(keys@) == items@.map_values(|it: WechatImportedItem| it.dedupe_key@),
            duplicates == batch_state(outs.take(i as int)).1,
            duplicates <= i,
            errors@.map_values(|e: WechatImportError| error_view(e)) == batch_state(
                outs.take(i as int),
            ).2,
        decreases outs.len() - i,
    {
        proof {
            assert(outs.take(i + 1).drop_last() =~= outs.take(i as int));
            assert(outs.take(i + 1).last() == outs[i as int]);
            assert(rest@[0] == outs[i as int]);
        }
        let (path, outcome) = rest.remove(0);
        proof {
            assert(rest@ =~= outs.skip(i + 1));
        }
        match outcome {
            Ok(item) => {
                let key = chars_of(item.dedupe_key.as_str());
                if crate::text::list_contains(&keys, &key) {
                    duplicates = duplicates + 1;
                } else {
                    let ghost ib = items@;
                    let ghost kb = keys@;
                    items.push(item);
                    keys.push(key);
                    proof {
                        assert(views(keys@) =~= views(kb).push(key@));
                        assert(items@.map_values(|it: WechatImportedItem| it.dedupe_key@) =~= ib.map_values(
                            |it: WechatImportedItem| it.dedupe_key@,
                        ).push(key@));
                    }
                }
            },
            Err(e) => {
                let ghost eb = errors@;
                let code = map_error_code(&e);
                let err = WechatImportError {
                    path,
                    code: crate::text::str_to_string(code),
                    message: e.message(),
                    retryable: false,
                };
                errors.push(err);
                proof {
                    assert(errors@.map_values(|e: WechatImportError| error_view(e)) =~= eb.map_values(
                        |e: WechatImportError| error_view(e),
                    ).push(error_view(err)));
                }
            },
        }
        i = i + 1;
    }
    proof {
        assert(outs.take(outs.len() as int) =~= outs);
    }
    WechatImportParsed { items, duplicates, errors }
}

/// How a file's extension is read.
#[derive(Debug, Clone, Copy, PartialEq, Eq, Structural)]
pub enum WechatFileKind {
    /// `txt` and `md`: read as it is.
    PlainText,
    /// `html` and `htm`: read with its tags stripped.
    Html,
    /// `pdf`, `doc` and `docx`: converted by a local tool.
    LocalTool,
    /// Anything else.
    Unsupported,
}

pub open spec fn file_kind(ext: Seq<char>) -> WechatFileKind {
    if ext == "txt"@ || ext == "md"@ {
        WechatFileKind::PlainText
    } else if ext == "html"@ || ext == "htm"@ {
        WechatFileKind::Html
    } else if ext == "pdf"@ || ext == "doc"@ || ext == "docx"@ {
        WechatFileKind::LocalTool
    } else {
        WechatFileKind::Unsupported
    }
}

/// Which files are read how: `txt` and `md` are read as they are, `html`
/// and `htm` with their tags stripped, `pdf`, `doc` and `docx` by a local
/// tool; nothing else is read.
pub proof fn law_extension_kinds(ext: Seq<char>)
    ensures
        file_kind(ext) == WechatFileKind::PlainText <==> (ext == "txt"@ || ext == "md"@),
        file_kind(ext) == WechatFileKind::Html <==> (ext == "html"@ || ext == "htm"@),
        file_kind(ext) == WechatFileKind::LocalTool <==> (ext == "pdf"@ || ext == "doc"@ || ext
            == "docx"@),
{
    reveal_strlit("txt");
    reveal_strlit("md");
    reveal_strlit("html");
    reveal_strlit("htm");
    reveal_strlit("pdf");
    reveal_strlit("doc");
    reveal_strlit("docx");
    assert("txt"@.len() == 3 && "txt"@[0] == 't');
    assert("md"@.len() == 2);
    assert("html"@.len() == 4 && "html"@[0] == 'h');
    assert("htm"@.len() == 3 && "htm"@[0] == 'h');
    assert("pdf"@.len() == 3 && "pdf"@[0] == 'p');
    assert("doc"@.len() == 3 && "doc"@[0] == 'd');
    assert("docx"@.len() == 4 && "docx"@[0] == 'd');
}

/// The kind of a file by its lower-cased extension.
pub fn classify_extension(ext: &str) -> (r: WechatFileKind)
    ensures
        r == file_kind(ext@),
{
    if crate::text::str_eq(ext, "txt") || crate::text::str_eq(ext, "md") {
        WechatFileKind::PlainText
    } else if crate::text::str_eq(ext, "html") || crate::text::str_eq(ext, "htm") {
        WechatFileKind::Html
    } else if crate::text::str_eq(ext, "pdf") || crate::text::str_eq(ext, "doc")
        || crate::text::str_eq(ext, "docx") {
        WechatFileKind::LocalTool
    } else {
        WechatFileKind::Unsupported
    }
}

/// `ING-1001 file not found: {path}`, for a path that does not exist.
pub fn missing_file_error(path: &str) -> (r: BackendError)
    ensures
        r matches BackendError::Validation(m) && m@ == "ING-1001 file not found: "@ + path@,
{
    BackendError::Validation(string_of(&concat(&lit("ING-1001 file not found: "), &chars_of(path))))
}

/// The kind of an existing file by its lower-cased extension; an extension
/// that none reads is refused with
/// `PAR-2001 unsupported extension '{ext}': {path}`.
pub fn readable_kind(ext: &str, path: &str) -> (r: Result<WechatFileKind, BackendError>)
    ensures
        file_kind(ext@) != WechatFileKind::Unsupported ==> r == Ok::<WechatFileKind, BackendError>(
            file_kind(ext@),
        ),
        file_kind(ext@) == WechatFileKind::Unsupported ==> (r matches Err(
            BackendError::Validation(m),
        ) && m@ == "PAR-2001 unsupported extension '"@ + ext@ + "': "@ + path@),
{
    let kind = classify_extension(ext);
    if kind == WechatFileKind::Unsupported {
        let m = concat(
            &concat(&concat(&lit("PAR-2001 unsupported extension '"), &chars_of(ext)), &lit("': ")),
            &chars_of(path),
        );
        return Err(BackendError::Validation(string_of(&m)));
    }
    Ok(kind)
}

/// The error of a local tool's extraction of `path`: `PAR-2001 empty
/// extraction for {path}` when the tool ran but gave no text, `PAR-2001
/// local extraction failed for {path}` when it did not run successfully.
pub fn extraction_error(path: &str, ran: bool) -> (r: BackendError)
    ensures
        r matches BackendError::Validation(m) && m@ == (if ran {
            "PAR-2001 empty extraction for "@
        } else {
            "PAR-2001 local extraction failed for "@
        }) + path@,
{
    let head = if ran {
        lit("PAR-2001 empty extraction for ")
    } else {
        lit("PAR-2001 local extraction failed for ")
    };
    BackendError::Validation(string_of(&concat(&head, &chars_of(path))))
}

/// The text a local tool extracted, white space collapsed; empty text is a
/// parse error.
pub fn clean_extracted_text(raw: &str) -> (r: Option<String>)
    ensures
        match r {
            Some(t) => t@ == collapse_ws(raw@) && t@.len() > 0,
            None => collapse_ws(raw@).len() == 0,
        },
{
    let c = collapse_chars(&chars_of(raw));
    if c.len() == 0 {
        None
    } else {
        Some(string_of(&c))
    }
}

} // verus!
