//! The text of a Xiaohongshu page that the structured content may read: its
//! title and the descriptions in its meta tags.

use vstd::prelude::*;
pub use crate::config::opt_view;
use crate::sync_notion::content::{text_output, text_output_chars};
use crate::text::{
    byte_len, byte_len_exceeds, byte_prefix, byte_prefix_exec, chars_of, concat, contains,
    contains_chars, find_exec, find_seq, index_of_char, index_of_char_exec, is_boundary, join,
    join_chars, lemma_find_seq_from_bounds, lemma_index_of_char_bounds, lit, occurs_at, slice_chars,
    string_of, trim, trim_chars,
};

verus! {

/// The page to fetch for an item: its trimmed link, when that is a link to
/// xiaohongshu.com.
pub open spec fn fetch_target(source_url: Seq<char>) -> Option<Seq<char>> {
    let url = trim(source_url);
    if url.len() == 0 || !contains(url, "xiaohongshu.com"@) {
        None
    } else {
        Some(url)
    }
}

pub fn xhs_fetch_target(source_url: &str) -> (r: Option<String>)
    ensures
        opt_view(r) == fetch_target(source_url@),
{
    let url = trim_chars(&chars_of(source_url));
    if url.len() == 0 || !contains_chars(&url, &lit("xiaohongshu.com")) {
        None
    } else {
        Some(string_of(&url))
    }
}

// ── The title ───────────────────────────────────────────────────────────────

/// The text between the first `<title>` and the first `</title>` after it,
/// cleaned and cut to 200 characters; nothing when it is empty or missing.
pub open spec fn html_title(html: Seq<char>) -> Option<Seq<char>> {
    match find_seq(html, "<title>"@) {
        None => None,
        Some(s) => match find_seq(html.skip(s), "</title>"@) {
            None => None,
            Some(e) => {
                let t = text_output(html.subrange(s + 7, s + e), 200);
                if t.len() == 0 {
                    None
                } else {
                    Some(t)
                }
            },
        },
    }
}

pub fn extract_html_title(html: &str) -> (r: Option<String>)
    ensures
        opt_view(r) == html_title(html@),
{
    let h = chars_of(html);
    let open = lit("<title>");
    let close = lit("</title>");
    proof {
        reveal_strlit("<title>");
        reveal_strlit("</title>");
        assert(open@.len() == 7);
        assert(close@.len() == 8);
    }
    let s = match find_exec(&h, &open) {
        Some(s) => s,
        None => return None,
    };
    proof {
        lemma_find_seq_from_bounds(h@, open@, 0);
    }
    let tail = slice_chars(&h, s, h.len());
    proof {
        assert(tail@ =~= h@.skip(s as int));
    }
    let e = match find_exec(&tail, &close) {
        Some(e) => e,
        None => return None,
    };
    proof {
        lemma_find_seq_from_bounds(tail@, close@, 0);
        assert(tail@.subrange(e as int, e + 8) == close@);
        assert(tail@[e as int] == close@[0]);
        assert(h@.subrange(s as int, s + 7) == open@);
        if e < 7 {
            assert(tail@[e as int] == open@[e as int]);
            if e == 0 {
                assert(tail@[1] == close@[1]);
                assert(tail@[1] == open@[1]);
            }
        }
    }
    let content = slice_chars(&h, s + 7, s + e);
    let t = text_output_chars(&content, 200);
    if t.len() == 0 {
        None
    } else {
        Some(string_of(&t))
    }
}

// ── Meta tags ───────────────────────────────────────────────────────────────

/// What follows `marker` in `sample` up to the next `quote`, cleaned and cut
/// to 600 characters: `None` when the marker is missing, `Some(None)` when
/// no quote closes the value.
pub open spec fn quoted_value(sample: Seq<char>, marker: Seq<char>, quote: char) -> Option<Option<Seq<char>>> {
    match find_seq(sample, marker) {
        None => None,
        Some(st) => {
            let rest = sample.skip(st + marker.len());
            let c = index_of_char(rest, quote);
            if c >= rest.len() {
                Some(None)
            } else {
                Some(Some(text_output(rest.take(c), 600)))
            }
        },
    }
}

/// The value of the first `content='…'` attribute, when it is not empty.
pub open spec fn single_quoted_content(sample: Seq<char>) -> Option<Seq<char>> {
    match quoted_value(sample, "content='"@, '\'') {
        Some(Some(t)) => if t.len() > 0 {
            Some(t)
        } else {
            None
        },
        _ => None,
    }
}

/// The value of the first `content="…"` attribute, or else of the first
/// `content='…'` one, when it is not empty; nothing when a value found first
/// is not closed.
pub open spec fn content_attr(sample: Seq<char>) -> Option<Seq<char>> {
    match quoted_value(sample, "content=\""@, '"') {
        Some(None) => None,
        Some(Some(t)) => if t.len() > 0 {
            Some(t)
        } else {
            single_quoted_content(sample)
        },
        None => single_quoted_content(sample),
    }
}

/// The first `window` bytes of `slice`, or all of it when it is shorter.
pub open spec fn window_sample(slice: Seq<char>, window: nat) -> Seq<char> {
    if byte_len(slice) <= window {
        slice
    } else {
        byte_prefix(slice, window)
    }
}

/// The window of `slice` ends on a character: the text can be cut there.
pub open spec fn window_fits(slice: Seq<char>, window: nat) -> bool {
    byte_len(slice) <= window || is_boundary(slice, window)
}

fn quoted_value_exec(sample: &Vec<char>, marker: &Vec<char>, quote: char) -> (r: Option<Option<Vec<char>>>)
    ensures
        match r {
            None => quoted_value(sample@, marker@, quote) is None,
            Some(None) => quoted_value(sample@, marker@, quote) == Some(None::<Seq<char>>),
            Some(Some(t)) => quoted_value(sample@, marker@, quote) == Some(Some(t@)),
        },
{
    let st = match find_exec(sample, marker) {
        Some(st) => st,
        None => return None,
    };
    proof {
        lemma_find_seq_from_bounds(sample@, marker@, 0);
        assert(occurs_at(sample@, marker@, st as int));
        assert(st + marker@.len() <= sample@.len());
        assert(st + marker.len() <= sample.len());
    }
    let rest = slice_chars(sample, st + marker.len(), sample.len());
    proof {
        assert(rest@ =~= sample@.skip(st + marker@.len()));
    }
    let c = index_of_char_exec(&rest, quote);
    proof {
        lemma_index_of_char_bounds(rest@, quote);
    }
    if c >= rest.len() {
        Some(None)
    } else {
        let v = slice_chars(&rest, 0, c);
        proof {
            assert(v@ =~= rest@.take(c as int));
        }
        Some(Some(text_output_chars(&v, 600)))
    }
}

fn single_quoted_content_exec(sample: &Vec<char>) -> (r: Option<Vec<char>>)
    ensures
        match r {
            Some(t) => single_quoted_content(sample@) == Some(t@),
            None => single_quoted_content(sample@) is None,
        },
{
    match quoted_value_exec(sample, &lit("content='"), '\'') {
        Some(Some(t)) => if t.len() > 0 {
            Some(t)
        } else {
            None
        },
        _ => None,
    }
}

/// The value of the `content` attribute in the first `window` bytes of
/// `slice`.
pub fn extract_content_attr(slice: &Vec<char>, window: usize) -> (r: Option<String>)
    requires
        window_fits(slice@, window as nat),
    ensures
        opt_view(r) == content_attr(window_sample(slice@, window as nat)),
{
    let sample = if byte_len_exceeds(slice, window) {
        match byte_prefix_exec(slice, window) {
            Some(p) => p,
            None => return None,
        }
    } else {
        crate::text::copy_chars(slice)
    };
    let r = match quoted_value_exec(&sample, &lit("content=\""), '"') {
        Some(None) => None,
        Some(Some(t)) => if t.len() > 0 {
            Some(t)
        } else {
            single_quoted_content_exec(&sample)
        },
        None => single_quoted_content_exec(&sample),
    };
    match r {
        Some(t) => Some(string_of(&t)),
        None => None,
    }
}

/// The meta tag marked by `marker` in `html` can be read: it is missing, or
/// the 512-byte window after it ends on a character.
pub open spec fn meta_window_ok(html: Seq<char>, marker: Seq<char>) -> bool {
    match find_seq(html, marker) {
        None => true,
        Some(i) => window_fits(html.skip(i), 512),
    }
}

/// The content of the meta tag marked by `marker`, read from the 512 bytes
/// that start at the marker.
pub open spec fn meta_value(html: Seq<char>, marker: Seq<char>) -> Option<Seq<char>> {
    match find_seq(html, marker) {
        None => None,
        Some(i) => content_attr(window_sample(html.skip(i), 512)),
    }
}

fn meta_exec(html: &Vec<char>, marker: &Vec<char>) -> (r: Option<String>)
    requires
        meta_window_ok(html@, marker@),
    ensures
        opt_view(r) == meta_value(html@, marker@),
{
    let i = match find_exec(html, marker) {
        Some(i) => i,
        None => return None,
    };
    proof {
        lemma_find_seq_from_bounds(html@, marker@, 0);
    }
    let tail = slice_chars(html, i, html.len());
    proof {
        assert(tail@ =~= html@.skip(i as int));
    }
    extract_content_attr(&tail, 512)
}

/// `name="{name}"`.
pub open spec fn name_marker(name: Seq<char>) -> Seq<char> {
    "name=\""@ + name + "\""@
}

/// `property="{property}"`.
pub open spec fn property_marker(property: Seq<char>) -> Seq<char> {
    "property=\""@ + property + "\""@
}

pub fn extract_meta_content(html: &str, name: &str) -> (r: Option<String>)
    requires
        meta_window_ok(html@, name_marker(name@)),
    ensures
        opt_view(r) == meta_value(html@, name_marker(name@)),
{
    let marker = concat(&concat(&lit("name=\""), &chars_of(name)), &lit("\""));
    meta_exec(&chars_of(html), &marker)
}

pub fn extract_meta_property_content(html: &str, property: &str) -> (r: Option<String>)
    requires
        meta_window_ok(html@, property_marker(property@)),
    ensures
        opt_view(r) == meta_value(html@, property_marker(property@)),
{
    let marker = concat(&concat(&lit("property=\""), &chars_of(property)), &lit("\""));
    meta_exec(&chars_of(html), &marker)
}

// ── The page text ───────────────────────────────────────────────────────────

/// Both meta tags the page text reads can be read.
pub open spec fn page_windows_ok(html: Seq<char>) -> bool {
    meta_window_ok(html, name_marker("description"@)) && meta_window_ok(
        html,
        property_marker("og:description"@),
    )
}

pub open spec fn push_some(parts: Seq<Seq<char>>, o: Option<Seq<char>>) -> Seq<Seq<char>> {
    match o {
        Some(t) => parts.push(t),
        None => parts,
    }
}

/// The text of a page: its title, its description and its Open Graph
/// description, those that it has, one per line, cleaned and cut to 3000
/// characters; nothing when that is empty.
pub open spec fn page_text(html: Seq<char>) -> Option<Seq<char>> {
    let parts = push_some(
        push_some(push_some(Seq::empty(), html_title(html)), meta_value(html, name_marker("description"@))),
        meta_value(html, property_marker("og:description"@)),
    );
    let t = text_output(join(parts, seq!['\n']), 3000);
    if t.len() == 0 {
        None
    } else {
        Some(t)
    }
}

/// Whether the page text of `html` can be read (see `page_windows_ok`).
pub fn xhs_page_windows_fit(html: &str) -> (r: bool)
    ensures
        r == page_windows_ok(html@),
{
    let h = chars_of(html);
    let a = concat(&concat(&lit("name=\""), &lit("description")), &lit("\""));
    let b = concat(&concat(&lit("property=\""), &lit("og:description")), &lit("\""));
    window_ok_exec(&h, &a) && window_ok_exec(&h, &b)
}

fn window_ok_exec(html: &Vec<char>, marker: &Vec<char>) -> (r: bool)
    ensures
        r == meta_window_ok(html@, marker@),
{
    match find_exec(html, marker) {
        None => true,
        Some(i) => {
            proof {
                lemma_find_seq_from_bounds(html@, marker@, 0);
            }
            let tail = slice_chars(html, i, html.len());
            proof {
                assert(tail@ =~= html@.skip(i as int));
            }
            if !byte_len_exceeds(&tail, 512) {
                true
            } else {
                match byte_prefix_exec(&tail, 512) {
                    Some(_) => true,
                    None => false,
                }
            }
        },
    }
}

fn push_some_exec(parts: &mut Vec<Vec<char>>, o: Option<String>)
    ensures
        final(parts)@.len() == old(parts)@.len() + (if o is Some { 1int } else { 0int }),
        crate::text::views(final(parts)@) == push_some(crate::text::views(old(parts)@), opt_view(o)),
{
    if let Some(t) = o {
        let ghost before = parts@;
        parts.push(chars_of(t.as_str()));
        proof {
            assert(crate::text::views(parts@) =~= crate::text::views(before).push(t@));
        }
    }
}

/// The text of a fetched page (see `page_text`).
pub fn xhs_page_text(html: &str) -> (r: Option<String>)
    requires
        page_windows_ok(html@),
    ensures
        opt_view(r) == page_text(html@),
{
    let mut parts: Vec<Vec<char>> = Vec::new();
    proof {
        assert(crate::text::views(parts@) =~= Seq::<Seq<char>>::empty());
    }
    push_some_exec(&mut parts, extract_html_title(html));
    push_some_exec(&mut parts, extract_meta_content(html, "description"));
    push_some_exec(&mut parts, extract_meta_property_content(html, "og:description"));
    let mut nl: Vec<char> = Vec::new();
    nl.push('\n');
    proof {
        assert(nl@ =~= seq!['\n']);
    }
    let merged = join_chars(&parts, &nl);
    let t = text_output_chars(&merged, 3000);
    if t.len() == 0 {
        None
    } else {
        Some(string_of(&t))
    }
}

} // verus!
