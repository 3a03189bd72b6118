//! Decisions of the Xiaohongshu collector: settings, request pacing, text
//! clean-up of notes, fallbacks between fetch methods and the paging of a
//! feed.

use vstd::prelude::*;
pub use crate::config::opt_view;
use crate::collectors::items::{CollectWindow, CollectedItem, Collector};
use crate::error::BackendError;
use crate::num::{dec_chars, dec_string, fnv1a, parse_u32, parse_u64, parse_unsigned};
use crate::text::{
    ascii_lower, ascii_lower_chars, before_char, before_char_exec, chars_eq, chars_of,
    collapse_chars, collapse_ws, concat, contains, contains_chars, lit, seq_le, seq_lt,
    seq_lt_exec, starts_with, starts_with_chars, string_of, subst, subst_exec, take_chars,
    take_prefix, trim, trim_chars, trim_start, views,
};

verus! {

/// The Xiaohongshu collector's settings.
#[derive(Debug, Clone)]
pub struct XhsCollector {
    pub cursor: Option<String>,
    page_size: u32,
    max_pages: u32,
    min_delay_ms: u64,
    max_delay_ms: u64,
    pub user_agent: String,
}

/// An unsigned setting parsed as it is, or the default.
pub fn read_env_u32(value: Option<String>, default: u32) -> (r: u32)
    ensures
        r == match opt_view(value) {
            Some(v) => match parse_unsigned(v, u32::MAX as nat) {
                Some(n) => n,
                None => default as nat,
            },
            None => default as nat,
        },
{
    match value {
        Some(v) => match parse_u32(v.as_str()) {
            Some(n) => n,
            None => default,
        },
        None => default,
    }
}

/// An unsigned setting parsed as it is, or the default.
pub fn read_env_u64(value: Option<String>, default: u64) -> (r: u64)
    ensures
        r == match opt_view(value) {
            Some(v) => match parse_unsigned(v, u64::MAX as nat) {
                Some(n) => n,
                None => default as nat,
            },
            None => default as nat,
        },
{
    match value {
        Some(v) => match parse_u64(v.as_str()) {
            Some(n) => n,
            None => default,
        },
        None => default,
    }
}

pub const DEFAULT_PAGE_SIZE: u32 = 20;

pub const DEFAULT_MAX_PAGES: u32 = 120;

pub const DEFAULT_MIN_DELAY_MS: u64 = 1500;

pub const DEFAULT_MAX_DELAY_MS: u64 = 3000;

impl Collector for XhsCollector {
    fn source(&self) -> (r: &'static str)
        ensures
            r@ == "xhs"@,
    {
        "xhs"
    }
}

impl XhsCollector {
    /// A collector with the given settings; page size and page count are at
    /// least one.
    pub fn with_settings(
        cursor: Option<String>,
        page_size: u32,
        max_pages: u32,
        min_delay_ms: u64,
        max_delay_ms: u64,
        user_agent: String,
    ) -> (r: Self)
        ensures
            r.spec_cursor() == cursor,
            r.page_size() == if page_size == 0 {
                1
            } else {
                page_size
            },
            r.max_pages() == if max_pages == 0 {
                1
            } else {
                max_pages
            },
            r.min_delay_ms() == min_delay_ms,
            r.max_delay_ms() == max_delay_ms,
            r.spec_user_agent() == user_agent,
    {
        XhsCollector {
            cursor,
            page_size: if page_size == 0 {
                1
            } else {
                page_size
            },
            max_pages: if max_pages == 0 {
                1
            } else {
                max_pages
            },
            min_delay_ms,
            max_delay_ms,
            user_agent,
        }
    }

    pub closed spec fn spec_cursor(&self) -> Option<String> {
        self.cursor
    }

    pub closed spec fn spec_user_agent(&self) -> String {
        self.user_agent
    }

    pub closed spec fn page_size(&self) -> u32 {
        self.page_size
    }

    pub closed spec fn max_pages(&self) -> u32 {
        self.max_pages
    }

    pub closed spec fn min_delay_ms(&self) -> u64 {
        self.min_delay_ms
    }

    pub closed spec fn max_delay_ms(&self) -> u64 {
        self.max_delay_ms
    }

    pub fn get_page_size(&self) -> (r: u32)
        ensures
            r == self.page_size(),
    {
        self.page_size
    }

    pub fn get_max_pages(&self) -> (r: u32)
        ensures
            r == self.max_pages(),
    {
        self.max_pages
    }

    /// The pause after page `page_index`: the smaller delay when both are
    /// equal, else the smaller delay plus the hash of `xhs-delay-{index}`
    /// modulo the span plus one.
    pub fn delay_for(&self, page_index: u32) -> (r: u64)
        requires
            self.max_delay_ms() - self.min_delay_ms() < u64::MAX && self.min_delay_ms()
                - self.max_delay_ms() < u64::MAX,
        ensures
            r == pacing_delay(self.min_delay_ms(), self.max_delay_ms(), page_index),
    {
        let min = if self.min_delay_ms < self.max_delay_ms {
            self.min_delay_ms
        } else {
            self.max_delay_ms
        };
        let max = if self.max_delay_ms > self.min_delay_ms {
            self.max_delay_ms
        } else {
            self.min_delay_ms
        };
        if min == max {
            return min;
        }
        let span = max - min;
        let key = concat(&lit("xhs-delay-"), &dec_chars(page_index as u64));
        let h = crate::num::stable_hash(string_of(&key).as_str());
        let m = span + 1;
        let off = h % m;
        proof {
            assert(off < m);
        }
        min + off
    }
}

/// The pause between feed pages.
pub open spec fn pacing_delay(a: u64, b: u64, page_index: u32) -> u64 {
    let min = if a < b {
        a
    } else {
        b
    };
    let max = if b > a {
        b
    } else {
        a
    };
    if min == max {
        min
    } else {
        (min + fnv1a(
            vstd::utf8::encode_utf8("xhs-delay-"@ + dec_string(page_index as nat)),
        ) as nat % ((max - min + 1) as nat)) as u64
    }
}

/// The two feeds of a user.
#[derive(Debug, Clone, Copy, PartialEq, Eq, Structural)]
pub enum FeedKind {
    Likes,
    Favorites,
}

impl FeedKind {
    pub open spec fn spec_path(self) -> Seq<char> {
        match self {
            FeedKind::Likes => "/api/sns/web/v1/you/likes"@,
            FeedKind::Favorites => "/web_api/sns/v1/file/faved/list"@,
        }
    }

    pub fn path(self) -> (r: &'static str)
        ensures
            r@ == self.spec_path(),
    {
        match self {
            FeedKind::Likes => "/api/sns/web/v1/you/likes",
            FeedKind::Favorites => "/web_api/sns/v1/file/faved/list",
        }
    }
}

// ── Text ────────────────────────────────────────────────────────────────────

/// Backslash, double quote, carriage return and line feed escaped for an
/// AppleScript string.
pub open spec fn applescript_escaped(v: Seq<char>) -> Seq<char> {
    subst(v, seq!['\\', '"', '\r', '\n'], seq!["\\\\"@, "\\\""@, "\\r"@, "\\n"@])
}

pub fn escape_for_applescript(input: &str) -> (r: String)
    ensures
        r@ == applescript_escaped(input@),
{
    let mut from: Vec<char> = Vec::new();
    from.push('\\');
    from.push('"');
    from.push('\r');
    from.push('\n');
    let mut to: Vec<Vec<char>> = Vec::new();
    crate::text::push_lit(&mut to, "\\\\");
    crate::text::push_lit(&mut to, "\\\"");
    crate::text::push_lit(&mut to, "\\r");
    crate::text::push_lit(&mut to, "\\n");
    proof {
        assert(from@ =~= seq!['\\', '"', '\r', '\n']);
        assert(views(to@) =~= seq!["\\\\"@, "\\\""@, "\\r"@, "\\n"@]);
    }
    string_of(&subst_exec(&chars_of(input), &from, &to))
}

/// A response body that is an HTML page rather than JSON.
pub open spec fn is_html_text(text: Seq<char>) -> bool {
    let lower = ascii_lower(trim_start(text));
    starts_with(lower, "<!doctype html"@) || starts_with(lower, "<html"@) || starts_with(
        lower,
        "<body"@,
    ) || contains(lower, "<head"@)
}

pub fn looks_like_html(text: &str) -> (r: bool)
    ensures
        r == is_html_text(text@),
{
    let v = chars_of(text);
    let k = skip_leading_ws(&v);
    let lower = ascii_lower_chars(&k);
    starts_with_chars(&lower, &lit("<!doctype html")) || starts_with_chars(&lower, &lit("<html"))
        || starts_with_chars(&lower, &lit("<body")) || contains_chars(&lower, &lit("<head"))
}

/// `str::trim_start`.
pub fn skip_leading_ws(v: &Vec<char>) -> (r: Vec<char>)
    ensures
        r@ == trim_start(v@),
{
    let mut k: usize = 0;
    proof {
        assert(v@.skip(0) =~= v@);
    }
    while k < v.len() && crate::text::is_whitespace(v[k])
        invariant
            k <= v.len(),
            trim_start(v@) == trim_start(v@.skip(k as int)),
        decreases v.len() - k,
    {
        proof {
            crate::text::lemma_skip_succ(v@, k as int);
        }
        k = k + 1;
    }
    proof {
        if k < v.len() {
            assert(v@.skip(k as int)[0] == v@[k as int]);
        }
    }
    let mut r: Vec<char> = Vec::new();
    let mut i = k;
    while i < v.len()
        invariant
            k <= i <= v.len(),
            r@ == v@.subrange(k as int, i as int),
        decreases v.len() - i,
    {
        r.push(v[i]);
        i = i + 1;
        proof {
            assert(r@ =~= v@.subrange(k as int, i as int));
        }
    }
    proof {
        assert(v@.subrange(k as int, v.len() as int) =~= v@.skip(k as int));
    }
    r
}

/// `s.trim_start_matches(p)` for a non-empty pattern: every leading copy of
/// `p` removed.
pub open spec fn strip_prefix_repeated(s: Seq<char>, p: Seq<char>) -> Seq<char>
    decreases s.len(),
{
    if p.len() > 0 && starts_with(s, p) {
        strip_prefix_repeated(s.skip(p.len() as int), p)
    } else {
        s
    }
}

/// The first position of `{` or `[`, or the length when there is none.
pub open spec fn json_start(s: Seq<char>) -> int
    decreases s.len(),
{
    if s.len() == 0 || s[0] == '{' || s[0] == '[' {
        0
    } else {
        1 + json_start(s.drop_first())
    }
}

/// The JSON part of a response body: without the `)]}',` guard prefix and
/// the white space after it, or from the first `{` or `[` on.
pub open spec fn json_body(text: Seq<char>) -> Seq<char> {
    if starts_with(text, ")]}',"@) {
        trim_start(strip_prefix_repeated(text, ")]}',"@))
    } else if json_start(text) < text.len() {
        text.skip(json_start(text))
    } else {
        text
    }
}

proof fn lemma_json_start_bounds(s: Seq<char>)
    ensures
        0 <= json_start(s) <= s.len(),
    decreases s.len(),
{
    if !(s.len() == 0 || s[0] == '{' || s[0] == '[') {
        lemma_json_start_bounds(s.drop_first());
    }
}

pub fn strip_to_json_start(text: &str) -> (r: String)
    ensures
        r@ == json_body(text@),
{
    let v = chars_of(text);
    let guard = lit(")]}',");
    if starts_with_chars(&v, &guard) {
        let mut k: usize = 0;
        proof {
            assert(v@.skip(0) =~= v@);
            reveal_strlit(")]}',");
        }
        while k <= v.len() && v.len() - k >= guard.len() && occurs_guard(&v, &guard, k)
            invariant
                k <= v.len(),
                guard@ == ")]}',"@,
                guard@.len() == 5,
                strip_prefix_repeated(v@, guard@) == strip_prefix_repeated(v@.skip(k as int), guard@),
            decreases v.len() - k,
        {
            proof {
                assert(v@.skip(k as int).subrange(0, 5) =~= v@.subrange(k as int, k + 5));
                assert(v@.skip(k as int).take(5) =~= v@.subrange(k as int, k + 5));
                assert(v@.skip(k as int).skip(5) =~= v@.skip(k + 5));
            }
            k = k + 5;
        }
        proof {
            if k + 5 <= v.len() {
                assert(v@.skip(k as int).take(5) =~= v@.subrange(k as int, k + 5));
            }
        }
        let mut rest: Vec<char> = Vec::new();
        let mut i = k;
        while i < v.len()
            invariant
                k <= i <= v.len(),
                rest@ == v@.subrange(k as int, i as int),
            decreases v.len() - i,
        {
            rest.push(v[i]);
            i = i + 1;
            proof {
                assert(rest@ =~= v@.subrange(k as int, i as int));
            }
        }
        proof {
            assert(v@.subrange(k as int, v.len() as int) =~= v@.skip(k as int));
        }
        return string_of(&skip_leading_ws(&rest));
    }
    let mut i: usize = 0;
    proof {
        assert(v@.skip(0) =~= v@);
    }
    while i < v.len() && v[i] != '{' && v[i] != '['
        invariant
            i <= v.len(),
            json_start(v@) == i + json_start(v@.skip(i as int)),
        decreases v.len() - i,
    {
        proof {
            crate::text::lemma_skip_succ(v@, i as int);
        }
        i = i + 1;
    }
    proof {
        if i < v.len() {
            assert(v@.skip(i as int)[0] == v@[i as int]);
        }
    }
    if i < v.len() {
        let mut r: Vec<char> = Vec::new();
        let mut j = i;
        while j < v.len()
            invariant
                i <= j <= v.len(),
                r@ == v@.subrange(i as int, j as int),
            decreases v.len() - j,
        {
            r.push(v[j]);
            j = j + 1;
            proof {
                assert(r@ =~= v@.subrange(i as int, j as int));
            }
        }
        proof {
            assert(v@.subrange(i as int, v.len() as int) =~= v@.skip(i as int));
        }
        string_of(&r)
    } else {
        crate::text::str_to_string(text)
    }
}

fn occurs_guard(v: &Vec<char>, guard: &Vec<char>, k: usize) -> (r: bool)
    requires
        k <= v.len(),
    ensures
        r == (k + guard@.len() <= v@.len() && v@.subrange(k as int, k + guard@.len()) == guard@),
{
    crate::text::occurs_at_exec(v, guard, k)
}

/// Note text with white space collapsed.
pub fn normalize_content_text(text: &str) -> (r: String)
    ensures
        r@ == trim(collapse_ws(text@)),
{
    string_of(&trim_chars(&collapse_chars(&chars_of(text))))
}

/// The note page of an id.
pub open spec fn explore_url(id: Seq<char>) -> Seq<char> {
    "https://www.xiaohongshu.com/explore/"@ + id
}

/// A note's URL trimmed and without its fragment, or its explore page when
/// the URL is empty.
pub open spec fn profile_item_url(url: Seq<char>, id: Seq<char>) -> Seq<char> {
    if trim(url).len() == 0 {
        explore_url(id)
    } else {
        before_char(trim(url), '#')
    }
}

pub fn normalize_profile_item_url(url: &str, id: &str) -> (r: String)
    ensures
        r@ == profile_item_url(url@, id@),
{
    let t = trim_chars(&chars_of(url));
    if t.len() == 0 {
        string_of(&concat(&lit("https://www.xiaohongshu.com/explore/"), &chars_of(id)))
    } else {
        string_of(&before_char_exec(&t, '#'))
    }
}

pub fn truncate_chars(input: &str, max_chars: usize) -> (r: String)
    ensures
        r@ == take_chars(input@, max_chars as int),
{
    string_of(&take_prefix(&chars_of(input), max_chars))
}

pub open spec fn opt_str_view(o: Option<&str>) -> Option<Seq<char>> {
    match o {
        Some(s) => Some(s@),
        None => None,
    }
}

/// A note's content: title and description on two lines when both are set
/// and differ, else whichever is set, trimmed.
pub open spec fn merged_content(title: Option<Seq<char>>, desc: Option<Seq<char>>) -> Option<
    Seq<char>,
> {
    match (title, desc) {
        (Some(t), Some(d)) if trim(t).len() > 0 && trim(d).len() > 0 && trim(t) != trim(d) => Some(
            trim(t) + "\n"@ + trim(d),
        ),
        (Some(t), _) if trim(t).len() > 0 => Some(trim(t)),
        (_, Some(d)) if trim(d).len() > 0 => Some(trim(d)),
        _ => None,
    }
}

pub fn merge_content(title: Option<&str>, desc: Option<&str>) -> (r: Option<String>)
    ensures
        opt_view(r) == merged_content(opt_str_view(title), opt_str_view(desc)),
{
    let t = match title {
        Some(t) => Some(trim_chars(&chars_of(t))),
        None => None,
    };
    let d = match desc {
        Some(d) => Some(trim_chars(&chars_of(d))),
        None => None,
    };
    match (&t, &d) {
        (Some(tt), Some(dd)) => {
            if tt.len() > 0 && dd.len() > 0 && !chars_eq(tt, dd) {
                let mut nl: Vec<char> = Vec::new();
                nl.push('\n');
                proof {
                    assert(nl@ =~= "\n"@) by {
                        reveal_strlit("\n");
                    }
                }
                return Some(string_of(&concat(&concat(tt, &nl), dd)));
            }
        },
        _ => {},
    }
    match (&t, &d) {
        (Some(tt), _) => {
            if tt.len() > 0 {
                return Some(string_of(tt));
            }
        },
        _ => {},
    }
    match (&t, &d) {
        (_, Some(dd)) => {
            if dd.len() > 0 {
                return Some(string_of(dd));
            }
        },
        _ => {},
    }
    None
}

/// An item without a publication time is always in the window; otherwise it
/// must not be before `since` nor after `until`, comparing as strings.
pub open spec fn in_window(since: Option<Seq<char>>, until: Option<Seq<char>>, ts: Option<Seq<char>>) -> bool {
    match ts {
        None => true,
        Some(t) => (match since {
            Some(s) => seq_le(s, t),
            None => true,
        }) && (match until {
            Some(u) => seq_le(t, u),
            None => true,
        }),
    }
}

pub fn within_window(window: &CollectWindow, published_at: Option<&str>) -> (r: bool)
    ensures
        r == in_window(opt_view(window.since), opt_view(window.until), opt_str_view(published_at)),
{
    match published_at {
        None => true,
        Some(ts) => {
            let t = chars_of(ts);
            let since_ok = match &window.since {
                Some(s) => {
                    let sv = chars_of(s.as_str());
                    let lt = seq_lt_exec(&t, &sv);
                    proof {
                        crate::text::lemma_seq_lt_total(sv@, t@);
                        if lt {
                            crate::text::lemma_seq_lt_asymmetric(t@, sv@);
                        }
                    }
                    !lt
                },
                None => true,
            };
            let until_ok = match &window.until {
                Some(u) => {
                    let uv = chars_of(u.as_str());
                    let lt = seq_lt_exec(&uv, &t);
                    proof {
                        crate::text::lemma_seq_lt_total(t@, uv@);
                        if lt {
                            crate::text::lemma_seq_lt_asymmetric(uv@, t@);
                        }
                    }
                    !lt
                },
                None => true,
            };
            since_ok && until_ok
        },
    }
}

// ── Browser fetches ─────────────────────────────────────────────────────────

/// The browser's script printed no result: nothing, `undefined` in any
/// ASCII case, `null`, or the pending marker.
pub open spec fn browser_output_empty(trimmed: Seq<char>) -> bool {
    trimmed.len() == 0 || ascii_lower(trimmed) == "undefined"@ || trimmed == "null"@
        || trimmed == "__PENDING__"@
}

/// The message for a browser fetch that printed no result.
pub open spec fn empty_payload_message() -> Seq<char> {
    "xhs browser fetch returned empty payload: enable Chrome menu `View -> Developer -> Allow JavaScript from Apple Events`, or configure XHS_COOKIE/XHS_COOKIE_FILE to run without AppleScript"@
}

/// The trimmed output of the browser's script, or the error for one that
/// printed no result.
pub fn browser_output(output: &str) -> (r: Result<String, BackendError>)
    ensures
        browser_output_empty(trim(output@)) ==> (r matches Err(BackendError::Validation(m)) && m@
            == empty_payload_message()),
        !browser_output_empty(trim(output@)) ==> (r matches Ok(t) && t@ == trim(output@)),
{
    let t = trim_chars(&chars_of(output));
    if t.len() == 0 || chars_eq(&ascii_lower_chars(&t), &lit("undefined")) || chars_eq(&t, &lit("null"))
        || chars_eq(&t, &lit("__PENDING__")) {
        Err(
            BackendError::Validation(
                crate::text::str_to_string(
                    "xhs browser fetch returned empty payload: enable Chrome menu `View -> Developer -> Allow JavaScript from Apple Events`, or configure XHS_COOKIE/XHS_COOKIE_FILE to run without AppleScript",
                ),
            ),
        )
    } else {
        Ok(string_of(&t))
    }
}

/// What a browser fetch's envelope leads to: the JSON part of the body, or
/// the error for a failed fetch, a missing body, a status outside 2xx, an
/// empty body or an HTML page (the status is 200 when not reported).
pub open spec fn envelope_outcome(
    ok: bool,
    status: Option<u16>,
    body: Option<Seq<char>>,
    error: Option<Seq<char>>,
) -> Result<Seq<char>, (bool, Seq<char>)> {
    if !ok {
        Err((
            true,
            "xhs browser fetch failed: "@ + match error {
                Some(e) => e,
                None => "unknown"@,
            },
        ))
    } else {
        match body {
            None => Err((false, "xhs browser fetch body missing"@)),
            Some(b) => {
                let code: u16 = match status {
                    Some(s) => s,
                    None => 200,
                };
                let t = trim(b);
                let preview = take_chars(t, 120);
                if code < 200 || code >= 300 {
                    Err((
                        true,
                        "xhs browser request rejected: http_status="@ + dec_string(code as nat)
                            + ", body_preview="@ + preview,
                    ))
                } else if t.len() == 0 {
                    Err((
                        true,
                        "xhs browser response body is empty: ensure Chrome is logged in to xiaohongshu.com and retry"@,
                    ))
                } else if is_html_text(t) {
                    Err((
                        true,
                        "xhs browser returned html page (likely login/captcha): body_preview="@
                            + preview,
                    ))
                } else {
                    Ok(json_body(t))
                }
            },
        }
    }
}

/// The spec view of a checked envelope: the body, or whether the error is a
/// validation error (else an internal one) and its detail.
pub open spec fn envelope_view(r: Result<String, BackendError>) -> Result<Seq<char>, (bool, Seq<char>)> {
    match r {
        Ok(s) => Ok(s@),
        Err(e) => Err((e is Validation, e.detail())),
    }
}

/// Checks the envelope of a browser fetch (see `envelope_outcome`); the
/// caller reads the JSON that comes back.
pub fn browser_envelope_body(
    ok: bool,
    status: Option<u16>,
    body: Option<String>,
    error: Option<String>,
) -> (r: Result<String, BackendError>)
    ensures
        envelope_view(r) == envelope_outcome(ok, status, opt_view(body), opt_view(error)),
        r matches Err(e) ==> (e is Validation || e is Internal),
{
    if !ok {
        let detail = match error {
            Some(e) => chars_of(e.as_str()),
            None => lit("unknown"),
        };
        return Err(BackendError::Validation(string_of(&concat(&lit("xhs browser fetch failed: "), &detail))));
    }
    let b = match body {
        Some(b) => b,
        None => {
            return Err(BackendError::Internal(crate::text::str_to_string("xhs browser fetch body missing")));
        },
    };
    let code: u16 = match status {
        Some(s) => s,
        None => 200,
    };
    let t = trim_chars(&chars_of(b.as_str()));
    let preview = take_prefix(&t, 120);
    if code < 200 || code >= 300 {
        let m = concat(
            &concat(&concat(&lit("xhs browser request rejected: http_status="), &dec_chars(code as u64)), &lit(", body_preview=")),
            &preview,
        );
        return Err(BackendError::Validation(string_of(&m)));
    }
    if t.len() == 0 {
        return Err(
            BackendError::Validation(
                crate::text::str_to_string(
                    "xhs browser response body is empty: ensure Chrome is logged in to xiaohongshu.com and retry",
                ),
            ),
        );
    }
    let text = string_of(&t);
    if looks_like_html(text.as_str()) {
        let m = concat(&lit("xhs browser returned html page (likely login/captcha): body_preview="), &preview);
        return Err(BackendError::Validation(string_of(&m)));
    }
    Ok(strip_to_json_start(text.as_str()))
}

// ── Fallbacks ───────────────────────────────────────────────────────────────

/// A request that failed in one of these ways is tried again through the
/// browser.
pub open spec fn falls_back_to_browser(err: BackendError) -> bool {
    match err {
        BackendError::Validation(m) => contains(m@, "http_status=500"@) || contains(
            m@,
            "http_status=401"@,
        ) || contains(m@, "http_status=403"@),
        BackendError::Internal(m) => contains(m@, "xhs response json decode failed"@),
        _ => false,
    }
}

pub fn should_fallback_to_chrome(err: &BackendError) -> (r: bool)
    ensures
        r == falls_back_to_browser(*err),
{
    match err {
        BackendError::Validation(m) => {
            let v = chars_of(m.as_str());
            contains_chars(&v, &lit("http_status=500")) || contains_chars(
                &v,
                &lit("http_status=401"),
            ) || contains_chars(&v, &lit("http_status=403"))
        },
        BackendError::Internal(m) => {
            contains_chars(&chars_of(m.as_str()), &lit("xhs response json decode failed"))
        },
        _ => false,
    }
}

/// A feed that failed in one of these ways is read from the profile pages
/// instead.
pub open spec fn falls_back_to_profile(err: BackendError) -> bool {
    match err {
        BackendError::Validation(m) => contains(m@, "http_status=500"@) || contains(
            m@,
            "create invoker failed"@,
        ) || contains(m@, "xhs browser request rejected"@) || contains(
            m@,
            "xhs request rejected: http_status=500"@,
        ) || contains(m@, "xhs browser response is not valid json"@),
        BackendError::Internal(m) => contains(m@, "xhs browser envelope decode failed"@) || contains(
            m@,
            "xhs browser body decode failed"@,
        ) || contains(m@, "xhs response json decode failed"@),
        _ => false,
    }
}

pub fn should_fallback_to_profile_scrape(err: &BackendError) -> (r: bool)
    ensures
        r == falls_back_to_profile(*err),
{
    match err {
        BackendError::Validation(m) => {
            let v = chars_of(m.as_str());
            contains_chars(&v, &lit("http_status=500")) || contains_chars(
                &v,
                &lit("create invoker failed"),
            ) || contains_chars(&v, &lit("xhs browser request rejected")) || contains_chars(
                &v,
                &lit("xhs request rejected: http_status=500"),
            ) || contains_chars(&v, &lit("xhs browser response is not valid json"))
        },
        BackendError::Internal(m) => {
            let v = chars_of(m.as_str());
            contains_chars(&v, &lit("xhs browser envelope decode failed")) || contains_chars(
                &v,
                &lit("xhs browser body decode failed"),
            ) || contains_chars(&v, &lit("xhs response json decode failed"))
        },
        _ => false,
    }
}

} // verus!
