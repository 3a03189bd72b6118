//! Normalisation of a collected item: canonical URL, the URLs its text
//! mentions, white-space-collapsed text, content fingerprints and the
//! deduplication key.

use vstd::prelude::*;
pub use crate::config::opt_view;
use crate::num::{fnv1a, hash_hex_chars, hex_string};
use crate::text::{
    before_char, before_char_exec, byte_len, byte_prefix, chars_eq, chars_of, in_set,
    lowercase, lowercase_chars, lemma_seq_lt_total, lemma_seq_lt_transitive, lit, replace_char,
    seq_lt, seq_lt_exec, starts_with, starts_with_chars, string_of, string_views, strings_of, trim,
    trim_by, trim_chars, trim_set, views, words, words_of,
};

verus! {

#[derive(Debug, Clone)]
pub struct NormalizeInput {
    pub source: String,
    pub source_url: String,
    pub published_at: Option<String>,
    pub collected_at: String,
    pub content_raw: String,
}

#[derive(Debug, Clone)]
pub struct NormalizeOutput {
    pub source: String,
    pub canonical_url: String,
    pub extracted_urls: Vec<String>,
    pub url_hash: String,
    pub text_clean: String,
    pub fingerprint: String,
    pub dedupe_key: String,
    pub published_at: Option<String>,
    pub collected_at: String,
}

// ── Canonical URLs ──────────────────────────────────────────────────────────

/// A URL trimmed, lower-cased and cut before its query string.
pub open spec fn canonical_url(u: Seq<char>) -> Seq<char> {
    before_char(lowercase(trim(u)), '?')
}

pub fn canonicalize_url_chars(v: &Vec<char>) -> (r: Vec<char>)
    ensures
        r@ == canonical_url(v@),
{
    let t = trim_chars(v);
    let l = lowercase_chars(&t);
    before_char_exec(&l, '?')
}

pub fn canonicalize_url(url: &str) -> (r: String)
    ensures
        r@ == canonical_url(url@),
{
    let v = chars_of(url);
    string_of(&canonicalize_url_chars(&v))
}

/// A canonical URL carries no query string: it holds no `?`.
pub proof fn law_canonical_url_has_no_query(u: Seq<char>)
    ensures
        !canonical_url(u).contains('?'),
{
    crate::text::lemma_index_of_char_bounds(lowercase(trim(u)), '?');
}

/// The punctuation stripped from both ends of a word before it is taken as a
/// URL.
pub open spec fn url_punct() -> Seq<char> {
    seq![',', '.', ';', ':', '!', '?', '(', ')', '[', ']', '{', '}', '"', '\'']
}

pub open spec fn url_candidate(word: Seq<char>) -> Seq<char> {
    trim_by(word, in_set(url_punct()))
}

pub open spec fn is_http_url(c: Seq<char>) -> bool {
    starts_with(c, "http://"@) || starts_with(c, "https://"@)
}

/// Whether the `i`-th word of `text` is a web link whose canonical form is `u`.
pub open spec fn word_links_to(text: Seq<char>, i: int, u: Seq<char>) -> bool {
    0 <= i < words(text).len() && is_http_url(url_candidate(words(text)[i])) && u
        == canonical_url(url_candidate(words(text)[i]))
}

/// The canonical forms of the web links among the words of `text`.
pub open spec fn mentioned_urls(text: Seq<char>) -> Set<Seq<char>> {
    Set::new(|u: Seq<char>| exists|i: int| word_links_to(text, i, u))
}

/// Strictly increasing in the order of strings: sorted, without repeats.
pub open spec fn sorted_unique(s: Seq<Seq<char>>) -> bool {
    forall|i: int, j: int| 0 <= i < j < s.len() ==> seq_lt(#[trigger] s[i], #[trigger] s[j])
}

/// Inserts `x` into the sorted sequence `out`, unless it is there already.
fn insert_sorted(out: &mut Vec<Vec<char>>, x: Vec<char>)
    requires
        sorted_unique(views(old(out)@)),
    ensures
        sorted_unique(views(final(out)@)),
        views(final(out)@).to_set() == views(old(out)@).to_set().insert(x@),
{
    let ghost s0 = views(out@);
    let mut i: usize = 0;
    while i < out.len() && seq_lt_exec(&out[i], &x)
        invariant
            i <= out.len(),
            out@ == old(out)@,
            s0 == views(out@),
            sorted_unique(s0),
            forall|j: int| 0 <= j < i ==> seq_lt(#[trigger] s0[j], x@),
        decreases out.len() - i,
    {
        i = i + 1;
    }
    if i < out.len() && chars_eq(&out[i], &x) {
        proof {
            assert(s0[i as int] == out@[i as int]@);
            assert(s0.contains(x@));
            assert(s0.to_set().insert(x@) =~= s0.to_set());
        }
        return;
    }
    proof {
        if i < out.len() {
            lemma_seq_lt_total(s0[i as int], x@);
        }
    }
    out.insert(i, x);
    proof {
        let s1 = views(out@);
        assert(s1 =~= s0.take(i as int).push(x@) + s0.skip(i as int));
        assert forall|a: int, b: int| 0 <= a < b < s1.len() implies seq_lt(
            #[trigger] s1[a],
            #[trigger] s1[b],
        ) by {
            if b < i {
                assert(s1[a] == s0[a] && s1[b] == s0[b]);
            } else if b == i {
                assert(s1[a] == s0[a]);
            } else if a == i {
                assert(s1[b] == s0[b - 1]);
                if b - 1 > i {
                    lemma_seq_lt_transitive(x@, s0[i as int], s0[b - 1]);
                }
            } else if a < i {
                assert(s1[a] == s0[a] && s1[b] == s0[b - 1]);
            } else {
                assert(s1[a] == s0[a - 1] && s1[b] == s0[b - 1]);
            }
        }
        assert forall|u: Seq<char>| s1.to_set().contains(u) <==> s0.to_set().insert(x@).contains(
            u,
        ) by {
            if s1.contains(u) {
                let k = choose|k: int| 0 <= k < s1.len() && s1[k] == u;
                if k < i {
                    assert(s0[k] == u);
                } else if k > i {
                    assert(s0[k - 1] == u);
                }
            }
            if s0.contains(u) {
                let k = choose|k: int| 0 <= k < s0.len() && s0[k] == u;
                if k < i {
                    assert(s1[k] == u);
                } else {
                    assert(s1[k + 1] == u);
                }
            }
            if u == x@ {
                assert(s1[i as int] == u);
            }
        }
        assert(s1.to_set() =~= s0.to_set().insert(x@));
    }
}

/// The URL candidates of `url_punct`.
pub fn url_punct_exec() -> (r: Vec<char>)
    ensures
        r@ == url_punct(),
{
    let r = lit(",.;:!?()[]{}\"'");
    proof {
        reveal_strlit(",.;:!?()[]{}\"'");
        assert(r@ =~= url_punct());
    }
    r
}

/// The canonical web links that `text` mentions, sorted and without repeats
/// (`extract_urls` sorts and deduplicates what it finds).
pub fn extract_url_chars(text: &Vec<char>) -> (r: Vec<Vec<char>>)
    ensures
        sorted_unique(views(r@)),
        views(r@).to_set() == mentioned_urls(text@),
{
    let ws = words_of(text);
    let punct = url_punct_exec();
    let http = lit("http://");
    let https = lit("https://");
    let mut out: Vec<Vec<char>> = Vec::new();
    let mut i: usize = 0;
    while i < ws.len()
        invariant
            i <= ws.len(),
            views(ws@) == words(text@),
            punct@ == url_punct(),
            http@ == "http://"@,
            https@ == "https://"@,
            sorted_unique(views(out@)),
            views(out@).to_set() == Set::new(
                |u: Seq<char>| exists|k: int| 0 <= k < i && word_links_to(text@, k, u),
            ),
        decreases ws.len() - i,
    {
        let ghost before = views(out@).to_set();
        let cand = trim_set(&ws[i], &punct);
        proof {
            assert(views(ws@)[i as int] == ws@[i as int]@);
        }
        if starts_with_chars(&cand, &http) || starts_with_chars(&cand, &https) {
            let canon = canonicalize_url_chars(&cand);
            insert_sorted(&mut out, canon);
            proof {
                assert(word_links_to(text@, i as int, canon@));
                assert(views(out@).to_set() =~= Set::new(
                    |u: Seq<char>| exists|k: int| 0 <= k < i + 1 && word_links_to(text@, k, u),
                )) by {
                    assert forall|u: Seq<char>|
                        (exists|k: int| 0 <= k < i + 1 && word_links_to(text@, k, u)) implies
                        #[trigger] views(out@).to_set().contains(u) by {
                        let k = choose|k: int| 0 <= k < i + 1 && word_links_to(text@, k, u);
                        if k < i {
                            assert(before.contains(u));
                        }
                    }
                }
            }
        } else {
            proof {
                assert(views(out@).to_set() =~= Set::new(
                    |u: Seq<char>| exists|k: int| 0 <= k < i + 1 && word_links_to(text@, k, u),
                )) by {
                    assert forall|u: Seq<char>|
                        (exists|k: int| 0 <= k < i + 1 && word_links_to(text@, k, u)) implies
                        #[trigger] views(out@).to_set().contains(u) by {
                        let k = choose|k: int| 0 <= k < i + 1 && word_links_to(text@, k, u);
                        assert(k != i);
                    }
                }
            }
        }
        i = i + 1;
    }
    proof {
        assert(views(out@).to_set() =~= mentioned_urls(text@));
    }
    out
}

pub fn extract_urls(text: &str) -> (r: Vec<String>)
    ensures
        sorted_unique(string_views(r@)),
        string_views(r@).to_set() == mentioned_urls(text@),
{
    let v = chars_of(text);
    strings_of(&extract_url_chars(&v))
}

// ── Timestamps ──────────────────────────────────────────────────────────────

/// A trimmed timestamp of at least 19 bytes keeps its first 19 bytes (a
/// `YYYY-MM-DD HH:MM:SS` prefix) with `T` written as a space; a shorter one
/// is kept; an empty one is absent.
pub open spec fn normalized_ts(t: Seq<char>) -> Option<Seq<char>> {
    let v = trim(t);
    if v.len() == 0 {
        None
    } else if byte_len(v) >= 19 {
        Some(replace_char(byte_prefix(v, 19), 'T', ' '))
    } else {
        Some(v)
    }
}

/// The timestamp can be cut at byte 19 (`&s[..19]` panics otherwise).
pub open spec fn ts_cuttable(t: Seq<char>) -> bool {
    byte_len(trim(t)) >= 19 ==> crate::text::is_boundary(trim(t), 19)
}

pub open spec fn opt_normalized_ts(t: Option<Seq<char>>) -> Option<Seq<char>> {
    match t {
        Some(v) => normalized_ts(v),
        None => None,
    }
}

/// Whether the UTF-8 length of `v` is at least `n`.
fn byte_len_at_least(v: &Vec<char>, n: usize) -> (r: bool)
    requires
        n <= 64,
    ensures
        r == (byte_len(v@) >= n),
{
    let mut acc: usize = 0;
    let mut k: usize = 0;
    while k < v.len() && acc < n
        invariant
            k <= v.len(),
            acc == byte_len(v@.take(k as int)),
            acc <= n + 3,
            n <= 64,
        decreases v.len() - k,
    {
        proof {
            crate::text::lemma_byte_len_take_succ(v@, k as int);
        }
        acc = acc + crate::text::utf8_len_exec(v[k]);
        k = k + 1;
    }
    proof {
        if k < v.len() {
            crate::text::lemma_byte_len_take_strict(v@, k as int, v@.len() as int);
        }
        assert(v@.take(v@.len() as int) =~= v@);
    }
    acc >= n
}

/// Whether a timestamp can be cut at byte 19 (see `ts_cuttable`), which
/// callers test before handing it to `normalize_ts` or `normalize`.
pub fn ts_can_be_cut(t: &str) -> (r: bool)
    ensures
        r == ts_cuttable(t@),
{
    let v = trim_chars(&chars_of(t));
    if byte_len_at_least(&v, 19) {
        crate::text::byte_prefix_exec(&v, 19).is_some()
    } else {
        true
    }
}

pub fn normalize_ts_chars(t: &Vec<char>) -> (r: Option<Vec<char>>)
    requires
        ts_cuttable(t@),
    ensures
        match r {
            Some(v) => normalized_ts(t@) == Some(v@),
            None => normalized_ts(t@) is None,
        },
{
    let v = trim_chars(t);
    if v.len() == 0 {
        return None;
    }
    if byte_len_at_least(&v, 19) {
        match crate::text::byte_prefix_exec(&v, 19) {
            Some(p) => Some(crate::text::replace_char_exec(&p, 'T', ' ')),
            None => None,
        }
    } else {
        Some(v)
    }
}

pub fn normalize_ts(ts: Option<&str>) -> (r: Option<String>)
    requires
        ts matches Some(t) ==> ts_cuttable(t@),
    ensures
        opt_view(r) == match ts {
            Some(t) => normalized_ts(t@),
            None => None,
        },
{
    match ts {
        None => None,
        Some(t) => {
            let v = chars_of(t);
            match normalize_ts_chars(&v) {
                Some(n) => Some(string_of(&n)),
                None => None,
            }
        },
    }
}

// ── Deduplication key ───────────────────────────────────────────────────────

/// The timestamp that dates an item: its publication time, else its
/// collection time, each normalised, else the raw collection time.
pub open spec fn date_scope(published: Option<Seq<char>>, collected: Seq<char>) -> Seq<char> {
    match opt_normalized_ts(published) {
        Some(d) => d,
        None => match normalized_ts(collected) {
            Some(d) => d,
            None => collected,
        },
    }
}

/// `format!("{source}|{url_hash}|{fingerprint}|{day}")`.
pub open spec fn dedupe_raw(
    source: Seq<char>,
    url_hash: Seq<char>,
    fingerprint: Seq<char>,
    day: Seq<char>,
) -> Seq<char> {
    source + "|"@ + url_hash + "|"@ + fingerprint + "|"@ + day
}

/// The hexadecimal FNV-1a hash of a string.
pub open spec fn hash_hex(s: Seq<char>) -> Seq<char> {
    hex_string(fnv1a(vstd::utf8::encode_utf8(s)) as nat)
}

/// The deduplication key: the hash of source, URL hash, fingerprint and the
/// day (first ten characters) of the item's date.
pub open spec fn dedupe_key(
    source: Seq<char>,
    url_hash: Seq<char>,
    fingerprint: Seq<char>,
    published: Option<Seq<char>>,
    collected: Seq<char>,
) -> Seq<char> {
    hash_hex(
        dedupe_raw(
            source,
            url_hash,
            fingerprint,
            crate::text::take_chars(date_scope(published, collected), 10),
        ),
    )
}

fn bar() -> (r: Vec<char>)
    ensures
        r@ == "|"@,
{
    lit("|")
}

pub fn build_dedupe_key(
    source: &str,
    url_hash: &str,
    fingerprint: &str,
    published_at: Option<&str>,
    collected_at: &str,
) -> (r: String)
    requires
        published_at matches Some(p) ==> ts_cuttable(p@),
        ts_cuttable(collected_at@),
    ensures
        r@ == dedupe_key(
            source@,
            url_hash@,
            fingerprint@,
            match published_at {
                Some(p) => Some(p@),
                None => None,
            },
            collected_at@,
        ),
{
    let collected = chars_of(collected_at);
    let from_published = match published_at {
        Some(p) => normalize_ts_chars(&chars_of(p)),
        None => None,
    };
    let scope = match from_published {
        Some(d) => d,
        None => match normalize_ts_chars(&collected) {
            Some(d) => d,
            None => collected,
        },
    };
    let day = crate::text::take_prefix(&scope, 10);
    let sep = bar();
    let mut raw = crate::text::concat(&chars_of(source), &sep);
    raw = crate::text::concat(&raw, &chars_of(url_hash));
    raw = crate::text::concat(&raw, &sep);
    raw = crate::text::concat(&raw, &chars_of(fingerprint));
    raw = crate::text::concat(&raw, &sep);
    raw = crate::text::concat(&raw, &day);
    string_of(&hash_hex_chars(&raw))
}

// ── Normalisation ───────────────────────────────────────────────────────────

/// The timestamps of the input can be cut where normalisation cuts them.
pub open spec fn input_ok(input: &NormalizeInput) -> bool {
    &&& (input.published_at matches Some(p) ==> ts_cuttable(p@))
    &&& ts_cuttable(input.collected_at@)
}

/// The canonical URL of an item: its own URL made canonical, else the first
/// link its text mentions, else `about:blank`.
pub open spec fn item_url(source_url: Seq<char>, extracted: Seq<Seq<char>>) -> Seq<char> {
    if trim(source_url).len() == 0 {
        if extracted.len() > 0 {
            extracted[0]
        } else {
            "about:blank"@
        }
    } else {
        canonical_url(source_url)
    }
}

/// An item's own URL decides its identity: when it is not blank, the
/// canonical URL (and so the URL hash) is that URL made canonical, whatever
/// links the text mentions; two items with the same own URL get the same
/// canonical URL and hash. Only an item without one takes the first link
/// its text mentions, or `about:blank` when there is none.
pub proof fn law_own_url_decides_identity(
    source_url: Seq<char>,
    extracted: Seq<Seq<char>>,
    other_extracted: Seq<Seq<char>>,
)
    ensures
        trim(source_url).len() > 0 ==> item_url(source_url, extracted) == canonical_url(source_url),
        trim(source_url).len() > 0 ==> item_url(source_url, extracted) == item_url(
            source_url,
            other_extracted,
        ) && hash_hex(item_url(source_url, extracted)) == hash_hex(
            item_url(source_url, other_extracted),
        ),
        trim(source_url).len() == 0 && extracted.len() > 0 ==> item_url(source_url, extracted)
            == extracted[0],
        trim(source_url).len() == 0 && extracted.len() == 0 ==> item_url(source_url, extracted)
            == "about:blank"@,
{
}

pub fn normalize(input: &NormalizeInput) -> (out: NormalizeOutput)
    requires
        input_ok(input),
    ensures
        out.source@ == input.source@,
        sorted_unique(string_views(out.extracted_urls@)),
        string_views(out.extracted_urls@).to_set() == mentioned_urls(input.content_raw@),
        out.canonical_url@ == item_url(input.source_url@, string_views(out.extracted_urls@)),
        out.text_clean@ == crate::text::collapse_ws(input.content_raw@),
        out.fingerprint@ == hash_hex(out.text_clean@),
        out.url_hash@ == hash_hex(out.canonical_url@),
        out.dedupe_key@ == dedupe_key(
            input.source@,
            out.url_hash@,
            out.fingerprint@,
            opt_view(input.published_at),
            input.collected_at@,
        ),
        opt_view(out.published_at) == opt_normalized_ts(opt_view(input.published_at)),
        out.collected_at@ == match normalized_ts(input.collected_at@) {
            Some(c) => c,
            None => input.collected_at@,
        },
{
    let raw = chars_of(input.content_raw.as_str());
    let urls = extract_url_chars(&raw);
    let src_url = chars_of(input.source_url.as_str());
    let trimmed_url = trim_chars(&src_url);
    let canonical = if trimmed_url.len() == 0 {
        if urls.len() > 0 {
            urls[0].clone()
        } else {
            lit("about:blank")
        }
    } else {
        canonicalize_url_chars(&src_url)
    };
    proof {
        if trimmed_url.len() == 0 && urls.len() > 0 {
            assert(views(urls@)[0] == urls@[0]@);
        }
    }
    let text_clean = crate::text::collapse_chars(&raw);
    let fingerprint = hash_hex_chars(&text_clean);
    let url_hash = hash_hex_chars(&canonical);
    let fingerprint_s = string_of(&fingerprint);
    let url_hash_s = string_of(&url_hash);
    let published_ref: Option<&str> = match &input.published_at {
        Some(p) => Some(p.as_str()),
        None => None,
    };
    let dedupe_key = build_dedupe_key(
        input.source.as_str(),
        url_hash_s.as_str(),
        fingerprint_s.as_str(),
        published_ref,
        input.collected_at.as_str(),
    );
    let published_at = normalize_ts(published_ref);
    let collected_at = match normalize_ts(Some(input.collected_at.as_str())) {
        Some(c) => c,
        None => input.collected_at.clone(),
    };
    NormalizeOutput {
        source: input.source.clone(),
        canonical_url: string_of(&canonical),
        extracted_urls: strings_of(&urls),
        url_hash: url_hash_s,
        text_clean: string_of(&text_clean),
        fingerprint: fingerprint_s,
        dedupe_key,
        published_at,
        collected_at,
    }
}

/// Running an item's cleaned text through the pipeline again leaves the
/// text, and so the fingerprint that deduplication compares, as they were.
pub proof fn law_clean_text_is_stable(raw: Seq<char>)
    ensures
        crate::text::collapse_ws(crate::text::collapse_ws(raw)) == crate::text::collapse_ws(raw),
        hash_hex(crate::text::collapse_ws(crate::text::collapse_ws(raw))) == hash_hex(
            crate::text::collapse_ws(raw),
        ),
{
    crate::text::lemma_collapse_ws_idempotent(raw);
}

} // verus!
