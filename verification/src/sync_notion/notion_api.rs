//! What the Notion HTTP client computes on its own: token and title clean-up
//! and the records it reads back.

use vstd::prelude::*;
use crate::error::BackendError;
use crate::json::{array_in, get, get_in, json_array, json_get, json_get_str, str_in, str_of, JsonValue};
use crate::text::{
    concat,
    ascii_lower, ascii_lower_chars, chars_of, in_set, lemma_trim_by_len, lit, starts_with,
    starts_with_chars, string_of, take_chars, take_prefix, trim, trim_by, trim_chars, trim_set,
    ws_pred,
};

verus! {

/// A database page as read back from Notion.
#[derive(Debug, Clone)]
pub struct NotionPageSnapshot {
    pub page_id: String,
    pub normalized_item_id: String,
    pub title: String,
    pub summary: String,
    pub source: String,
    pub source_url: Option<String>,
}

/// A child page of a tree page.
#[derive(Debug, Clone, PartialEq, Eq)]
pub struct NotionChildPage {
    pub page_id: String,
    pub title: String,
}

/// Every leading `Bearer ` (in any ASCII case) removed, trimming after each.
pub open spec fn strip_bearer(t: Seq<char>) -> Seq<char>
    decreases t.len(),
{
    if starts_with(ascii_lower(t), "bearer "@) && t.len() >= 7 {
        proof {
            lemma_trim_by_len(t.skip(7), ws_pred());
        }
        strip_bearer(trim(t.skip(7)))
    } else {
        t
    }
}

/// A token as users paste it, reduced to the token itself: trimmed,
/// unquoted, without `Bearer ` prefixes.
pub open spec fn clean_token(raw: Seq<char>) -> Seq<char> {
    strip_bearer(trim_by(trim_by(trim(raw), in_set(seq!['"'])), in_set(seq!['\''])))
}

pub fn normalize_notion_token(raw: &str) -> (r: String)
    ensures
        r@ == clean_token(raw@),
{
    let mut dq: Vec<char> = Vec::new();
    dq.push('"');
    let mut sq: Vec<char> = Vec::new();
    sq.push('\'');
    proof {
        assert(dq@ =~= seq!['"']);
        assert(sq@ =~= seq!['\'']);
    }
    let mut token = trim_set(&trim_set(&trim_chars(&chars_of(raw)), &dq), &sq);
    let prefix = lit("bearer ");
    proof {
        reveal_strlit("bearer ");
    }
    while starts_with_chars(&ascii_lower_chars(&token), &prefix)
        invariant
            prefix@ == "bearer "@,
            prefix@.len() == 7,
            strip_bearer(token@) == clean_token(raw@),
        decreases token@.len(),
    {
        proof {
            assert(ascii_lower(token@).len() == token@.len());
            lemma_trim_by_len(token@.skip(7), ws_pred());
        }
        let mut rest: Vec<char> = Vec::new();
        let mut i: usize = 7;
        while i < token.len()
            invariant
                7 <= i <= token.len(),
                rest@ == token@.subrange(7, i as int),
            decreases token.len() - i,
        {
            rest.push(token[i]);
            i = i + 1;
            proof {
                assert(rest@ =~= token@.subrange(7, i as int));
            }
        }
        proof {
            assert(rest@ =~= token@.skip(7));
        }
        token = trim_chars(&rest);
    }
    proof {
        assert(ascii_lower(token@).len() == token@.len());
    }
    string_of(&token)
}

/// A page title trimmed and cut to 120 characters, or `Untitled`.
pub open spec fn page_title(title: Seq<char>) -> Seq<char> {
    if trim(title).len() == 0 {
        "Untitled"@
    } else {
        take_chars(trim(title), 120)
    }
}

pub fn sanitize_page_title(title: &str) -> (r: String)
    ensures
        r@ == page_title(title@),
{
    let t = trim_chars(&chars_of(title));
    if t.len() == 0 {
        return crate::text::str_to_string("Untitled");
    }
    string_of(&take_prefix(&t, 120))
}

// ── Request bodies ──────────────────────────────────────────────────────────

/// `{"type": "text", "text": {"content": text}}`.
pub open spec fn is_rich_text_item(v: JsonValue, text: Seq<char>) -> bool {
    &&& v matches JsonValue::Object(entries)
    &&& entries@.len() == 2
    &&& entries@[0].0@ == "type"@ && str_of(entries@[0].1) == Some("text"@)
    &&& entries@[1].0@ == "text"@
    &&& entries@[1].1 matches JsonValue::Object(inner)
    &&& inner@.len() == 1
    &&& inner@[0].0@ == "content"@ && str_of(inner@[0].1) == Some(text)
}

/// A piece of rich text holding `text`.
pub fn rich_text_item(text: &str) -> (r: JsonValue)
    ensures
        is_rich_text_item(r, text@),
{
    let mut inner: Vec<(String, JsonValue)> = Vec::new();
    inner.push((crate::text::str_to_string("content"), JsonValue::Str(crate::text::str_to_string(text))));
    let mut entries: Vec<(String, JsonValue)> = Vec::new();
    entries.push((crate::text::str_to_string("type"), JsonValue::Str(crate::text::str_to_string("text"))));
    entries.push((crate::text::str_to_string("text"), JsonValue::Object(inner)));
    JsonValue::Object(entries)
}

// ── Reading Notion's replies ────────────────────────────────────────────────

/// The text of a rich-text item: its plain text, else its text content.
pub open spec fn rich_piece(item: JsonValue) -> Seq<char> {
    match str_in(get(item, "plain_text"@)) {
        Some(t) => t,
        None => match str_in(get_in(get(item, "text"@), "content"@)) {
            Some(t) => t,
            None => Seq::empty(),
        },
    }
}

/// The texts of rich-text items, joined.
pub open spec fn rich_text(items: Seq<JsonValue>) -> Seq<char>
    decreases items.len(),
{
    if items.len() == 0 {
        Seq::empty()
    } else {
        rich_text(items.drop_last()) + rich_piece(items.last())
    }
}

fn rich_piece_exec(item: &JsonValue) -> (r: Vec<char>)
    ensures
        r@ == rich_piece(*item),
{
    match json_get_str(item, "plain_text") {
        Some(t) => chars_of(t.as_str()),
        None => match json_get(item, "text") {
            Some(inner) => match json_get_str(inner, "content") {
                Some(t) => chars_of(t.as_str()),
                None => Vec::new(),
            },
            None => Vec::new(),
        },
    }
}

pub fn read_rich_text_items(items: &Vec<JsonValue>) -> (r: String)
    ensures
        r@ == rich_text(items@),
{
    let mut out: Vec<char> = Vec::new();
    let mut i: usize = 0;
    while i < items.len()
        invariant
            i <= items.len(),
            out@ == rich_text(items@.take(i as int)),
        decreases items.len() - i,
    {
        proof {
            assert(items@.take(i + 1).drop_last() =~= items@.take(i as int));
            assert(items@.take(i + 1).last() == items@[i as int]);
        }
        out = concat(&out, &rich_piece_exec(&items[i]));
        i = i + 1;
    }
    proof {
        assert(items@.take(items.len() as int) =~= items@);
    }
    string_of(&out)
}

/// The text of property `key`, read from its `kind` list (`rich_text` or
/// `title`); empty when there is none.
pub open spec fn property_text(properties: JsonValue, key: Seq<char>, kind: Seq<char>) -> Seq<char> {
    match array_in(get_in(get(properties, key), kind)) {
        Some(items) => rich_text(items),
        None => Seq::empty(),
    }
}

fn property_text_exec(properties: &JsonValue, key: &str, kind: &str) -> (r: String)
    ensures
        r@ == property_text(*properties, key@, kind@),
{
    match json_get(properties, key) {
        Some(p) => match json_get(p, kind) {
            Some(list) => match json_array(list) {
                Some(items) => read_rich_text_items(items),
                None => String::new(),
            },
            None => String::new(),
        },
        None => String::new(),
    }
}

pub fn read_text_property(properties: &JsonValue, key: &str) -> (r: String)
    ensures
        r@ == property_text(*properties, key@, "rich_text"@),
{
    property_text_exec(properties, key, "rich_text")
}

pub fn read_title_property(properties: &JsonValue, key: &str) -> (r: String)
    ensures
        r@ == property_text(*properties, key@, "title"@),
{
    property_text_exec(properties, key, "title")
}

/// A database page read back: its id and properties are required; the
/// item id, summary (rich text), title, source (a select) and URL are read
/// from the properties, missing ones as empty (or absent, for the URL).
pub fn parse_page_snapshot(page: &JsonValue) -> (r: Result<NotionPageSnapshot, BackendError>)
    ensures
        str_in(get(*page, "id"@)) is None ==> (r matches Err(BackendError::Internal(m)) && m@
            == "notion page missing id"@),
        str_in(get(*page, "id"@)) is Some && get(*page, "properties"@) is None ==> (r matches Err(
            BackendError::Internal(m),
        ) && m@ == "notion page missing properties"@),
        str_in(get(*page, "id"@)) is Some && get(*page, "properties"@) is Some ==> (r matches Ok(
            snap,
        ) && {
            let props = get(*page, "properties"@)->0;
            &&& Some(snap.page_id@) == str_in(get(*page, "id"@))
            &&& snap.normalized_item_id@ == property_text(props, "NormalizedItemID"@, "rich_text"@)
            &&& snap.title@ == property_text(props, "Title"@, "title"@)
            &&& snap.summary@ == property_text(props, "Summary"@, "rich_text"@)
            &&& snap.source@ == match str_in(get_in(get_in(get(props, "Source"@), "select"@), "name"@)) {
                Some(t) => t,
                None => Seq::empty(),
            }
            &&& match str_in(get_in(get(props, "SourceURL"@), "url"@)) {
                Some(u) => snap.source_url is Some && snap.source_url->0@ == u,
                None => snap.source_url is None,
            }
        }),
{
    let page_id = match json_get_str(page, "id") {
        Some(id) => crate::text::str_to_string(id.as_str()),
        None => {
            return Err(BackendError::Internal(crate::text::str_to_string("notion page missing id")));
        },
    };
    let properties = match json_get(page, "properties") {
        Some(p) => p,
        None => {
            return Err(
                BackendError::Internal(crate::text::str_to_string("notion page missing properties")),
            );
        },
    };
    let normalized_item_id = read_text_property(properties, "NormalizedItemID");
    let title = read_title_property(properties, "Title");
    let summary = read_text_property(properties, "Summary");
    let source = match json_get(properties, "Source") {
        Some(s) => match json_get(s, "select") {
            Some(sel) => match json_get_str(sel, "name") {
                Some(n) => crate::text::str_to_string(n.as_str()),
                None => String::new(),
            },
            None => String::new(),
        },
        None => String::new(),
    };
    let source_url = match json_get(properties, "SourceURL") {
        Some(u) => match json_get_str(u, "url") {
            Some(t) => Some(crate::text::str_to_string(t.as_str())),
            None => None,
        },
        None => None,
    };
    Ok(NotionPageSnapshot { page_id, normalized_item_id, title, summary, source, source_url })
}

/// The first non-blank title among the properties, in order (each read
/// from its `title` list); empty when there is none.
pub open spec fn first_title(entries: Seq<(String, JsonValue)>) -> Seq<char>
    decreases entries.len(),
{
    if entries.len() == 0 {
        Seq::empty()
    } else {
        match array_in(get(entries[0].1, "title"@)) {
            Some(items) => if trim(rich_text(items)).len() > 0 {
                rich_text(items)
            } else {
                first_title(entries.drop_first())
            },
            None => first_title(entries.drop_first()),
        }
    }
}

/// The title of a tree page: the first non-blank title property.
pub fn parse_page_title_from_payload(page: &JsonValue) -> (r: Result<String, BackendError>)
    ensures
        match get(*page, "properties"@) {
            None => r matches Err(BackendError::Internal(m)) && m@
                == "notion page missing properties"@,
            Some(JsonValue::Object(entries)) => r matches Ok(t) && t@ == first_title(entries@),
            Some(_) => r matches Ok(t) && t@ == Seq::<char>::empty(),
        },
{
    let properties = match json_get(page, "properties") {
        Some(p) => p,
        None => {
            return Err(
                BackendError::Internal(crate::text::str_to_string("notion page missing properties")),
            );
        },
    };
    match properties {
        JsonValue::Object(entries) => {
            let mut i: usize = 0;
            proof {
                assert(entries@.skip(0) =~= entries@);
            }
            while i < entries.len()
                invariant
                    i <= entries.len(),
                    get(*page, "properties"@) == Some(JsonValue::Object(*entries)),
                    first_title(entries@) == first_title(entries@.skip(i as int)),
                decreases entries.len() - i,
            {
                proof {
                    assert(entries@.skip(i as int).drop_first() =~= entries@.skip(i + 1));
                    assert(entries@.skip(i as int)[0] == entries@[i as int]);
                }
                match json_get(&entries[i].1, "title") {
                    Some(list) => match json_array(list) {
                        Some(items) => {
                            let parsed = read_rich_text_items(items);
                            if trim_chars(&chars_of(parsed.as_str())).len() > 0 {
                                proof {
                                    let sk = entries@.skip(i as int);
                                    assert(sk.len() > 0);
                                    assert(array_in(get(sk[0].1, "title"@)) == Some(items@));
                                    assert(first_title(sk) == rich_text(items@));
                                }
                                return Ok(parsed);
                            }
                        },
                        None => {},
                    },
                    None => {},
                }
                i = i + 1;
            }
            Ok(String::new())
        },
        _ => Ok(String::new()),
    }
}

/// The text of a paragraph block; any other block type is refused, as is a
/// paragraph without rich text.
pub fn parse_paragraph_block_text(block: &JsonValue) -> (r: Result<String, BackendError>)
    ensures
        ({
            let block_type = match str_in(get(*block, "type"@)) {
                Some(t) => t,
                None => Seq::empty(),
            };
            &&& block_type != "paragraph"@ ==> (r matches Err(BackendError::Internal(m)) && m@
                == "notion block is not paragraph: "@ + block_type)
            &&& block_type == "paragraph"@ ==> match array_in(
                get_in(get(*block, "paragraph"@), "rich_text"@),
            ) {
                Some(items) => r matches Ok(t) && t@ == rich_text(items),
                None => r matches Err(BackendError::Internal(m)) && m@
                    == "notion paragraph block missing rich_text"@,
            }
        }),
{
    let block_type: Vec<char> = match json_get_str(block, "type") {
        Some(t) => chars_of(t.as_str()),
        None => Vec::new(),
    };
    if !crate::text::chars_eq(&block_type, &lit("paragraph")) {
        return Err(
            BackendError::Internal(
                string_of(&concat(&lit("notion block is not paragraph: "), &block_type)),
            ),
        );
    }
    let rich = match json_get(block, "paragraph") {
        Some(p) => match json_get(p, "rich_text") {
            Some(list) => json_array(list),
            None => None,
        },
        None => None,
    };
    match rich {
        Some(items) => Ok(read_rich_text_items(items)),
        None => Err(
            BackendError::Internal(
                crate::text::str_to_string("notion paragraph block missing rich_text"),
            ),
        ),
    }
}

/// The child pages among listed blocks: those of type `child_page` with an
/// id, titled by their own title or `Untitled`, in order.
pub open spec fn child_pages(results: Seq<JsonValue>) -> Seq<(Seq<char>, Seq<char>)>
    decreases results.len(),
{
    if results.len() == 0 {
        Seq::empty()
    } else {
        let prev = child_pages(results.drop_last());
        let item = results.last();
        if str_in(get(item, "type"@)) == Some("child_page"@) && str_in(get(item, "id"@)) is Some {
            let title = match str_in(get_in(get(item, "child_page"@), "title"@)) {
                Some(t) => t,
                None => "Untitled"@,
            };
            prev.push((str_in(get(item, "id"@))->0, title))
        } else {
            prev
        }
    }
}

pub open spec fn pages_view(pages: Seq<NotionChildPage>) -> Seq<(Seq<char>, Seq<char>)> {
    pages.map_values(|p: NotionChildPage| (p.page_id@, p.title@))
}

pub fn parse_child_pages_from_results(results: &Vec<JsonValue>) -> (r: Vec<NotionChildPage>)
    ensures
        pages_view(r@) == child_pages(results@),
{
    let mut out: Vec<NotionChildPage> = Vec::new();
    let mut i: usize = 0;
    while i < results.len()
        invariant
            i <= results.len(),
            pages_view(out@) == child_pages(results@.take(i as int)),
        decreases results.len() - i,
    {
        proof {
            assert(results@.take(i + 1).drop_last() =~= results@.take(i as int));
            assert(results@.take(i + 1).last() == results@[i as int]);
        }
        let item = &results[i];
        let is_page = match json_get_str(item, "type") {
            Some(t) => crate::text::str_eq(t.as_str(), "child_page"),
            None => false,
        };
        if is_page {
            match json_get_str(item, "id") {
                Some(id) => {
                    let title = match json_get(item, "child_page") {
                        Some(cp) => match json_get_str(cp, "title") {
                            Some(t) => crate::text::str_to_string(t.as_str()),
                            None => crate::text::str_to_string("Untitled"),
                        },
                        None => crate::text::str_to_string("Untitled"),
                    };
                    let ghost before = out@;
                    let page = NotionChildPage {
                        page_id: crate::text::str_to_string(id.as_str()),
                        title,
                    };
                    out.push(page);
                    proof {
                        assert(pages_view(out@) =~= pages_view(before).push(
                            (page.page_id@, page.title@),
                        ));
                    }
                },
                None => {},
            }
        }
        i = i + 1;
    }
    proof {
        assert(results@.take(results.len() as int) =~= results@);
    }
    out
}

} // verus!
