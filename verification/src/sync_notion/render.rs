//! The page of a synced item in the Notion tree: the texts of its blocks,
//! which blocks to update, to append or to create, the ids they end up
//! with, the labels it is routed by and the ids of its tree nodes.

use vstd::prelude::*;
pub use crate::config::opt_view;
use crate::error::BackendError;
use crate::json::{str_of, JsonValue};
use crate::num::{dec_chars, dec_string, fnv1a, stable_hash};
use crate::pipeline::analyze::take_seq;
use crate::sync_notion::content::opt_str;
use crate::sync_notion::notion_api::{is_rich_text_item, rich_text_item, NotionChildPage};
use crate::text::{
    chars_eq, chars_list, chars_of, concat, eq_ignore_ascii_case, eq_ignore_ascii_case_exec, join,
    join_chars, keep_trimmed, kept_trimmed, list_contains, lit, string_of, string_views, strings_of,
    take_chars, take_prefix, trim, trim_chars, trim_str, views,
};

verus! {

// ── Block texts ─────────────────────────────────────────────────────────────

/// The summary block: its heading, then the trimmed summary or `-`.
pub open spec fn summary_block(summary: Seq<char>) -> Seq<char> {
    "结论摘要\n"@ + if trim(summary).len() == 0 {
        "-"@
    } else {
        trim(summary)
    }
}

pub fn render_summary_block(summary: &str) -> (r: String)
    ensures
        r@ == summary_block(summary@),
{
    let t = trim_str(summary);
    let body = if t.len() == 0 {
        lit("-")
    } else {
        t
    };
    string_of(&concat(&lit("结论摘要\n"), &body))
}

/// `- ` before each entry.
pub open spec fn bullets(items: Seq<Seq<char>>) -> Seq<Seq<char>> {
    items.map_values(|p: Seq<char>| "- "@ + p)
}

/// The lines of the key-points block: the first five non-blank points,
/// trimmed; without any, the summary's first 80 characters, or a note that
/// there are none when the summary is blank or `-`.
pub open spec fn key_point_lines(points: Seq<Seq<char>>, summary: Seq<char>) -> Seq<Seq<char>> {
    let lines = bullets(take_seq(kept_trimmed(points), 5));
    if lines.len() > 0 {
        lines
    } else if trim(summary).len() == 0 || trim(summary) == "-"@ {
        seq!["- 暂无要点"@]
    } else {
        seq!["- "@ + take_chars(trim(summary), 80)]
    }
}

pub open spec fn key_points_block(points: Seq<Seq<char>>, summary: Seq<char>) -> Seq<char> {
    "关键要点\n"@ + join(key_point_lines(points, summary), seq!['\n'])
}

fn newline() -> (r: Vec<char>)
    ensures
        r@ == seq!['\n'],
{
    let mut nl: Vec<char> = Vec::new();
    nl.push('\n');
    proof {
        assert(nl@ =~= seq!['\n']);
    }
    nl
}

pub fn render_key_points_block(key_points: &Vec<String>, summary: &str) -> (r: String)
    ensures
        r@ == key_points_block(string_views(key_points@), summary@),
{
    let kept = keep_trimmed(&chars_list(key_points));
    let n = if kept.len() < 5 {
        kept.len()
    } else {
        5
    };
    let ghost firsts = take_seq(views(kept@), 5);
    let mut lines: Vec<Vec<char>> = Vec::new();
    let mut i: usize = 0;
    while i < n
        invariant
            i <= n,
            n <= kept.len(),
            n == firsts.len(),
            firsts == take_seq(views(kept@), 5),
            views(lines@) == bullets(firsts.take(i as int)),
        decreases n - i,
    {
        let ghost before = views(lines@);
        let line = concat(&lit("- "), &kept[i]);
        lines.push(line);
        proof {
            assert(firsts[i as int] == kept@[i as int]@);
            assert(views(lines@) =~= before.push(line@));
            assert(bullets(firsts.take(i + 1)) =~= bullets(firsts.take(i as int)).push(
                "- "@ + firsts[i as int],
            ));
        }
        i = i + 1;
    }
    proof {
        assert(firsts.take(n as int) =~= firsts);
    }
    if lines.len() == 0 {
        let fallback = trim_str(summary);
        if fallback.len() == 0 || chars_eq(&fallback, &lit("-")) {
            lines.push(lit("- 暂无要点"));
            proof {
                assert(views(lines@) =~= seq!["- 暂无要点"@]);
            }
        } else {
            let line = concat(&lit("- "), &take_prefix(&fallback, 80));
            lines.push(line);
            proof {
                assert(views(lines@) =~= seq![line@]);
            }
        }
    }
    string_of(&concat(&lit("关键要点\n"), &join_chars(&lines, &newline())))
}

/// The source-link block: the trimmed URL, or `-`.
pub open spec fn source_link_block(url: Option<Seq<char>>) -> Seq<char> {
    "原文链接\n"@ + match url {
        Some(u) => if trim(u).len() > 0 {
            trim(u)
        } else {
            "-"@
        },
        None => "-"@,
    }
}

pub fn render_source_link_block(source_url: Option<&str>) -> (r: String)
    ensures
        r@ == source_link_block(opt_str(source_url)),
{
    let body = match source_url {
        Some(u) => {
            let t = trim_str(u);
            if t.len() > 0 {
                t
            } else {
                lit("-")
            }
        },
        None => lit("-"),
    };
    string_of(&concat(&lit("原文链接\n"), &body))
}

/// The tags block: the tags, else the labels, comma-separated; the
/// unclassified tag when both are empty.
pub open spec fn tags_block(tags: Seq<Seq<char>>, labels: Seq<Seq<char>>) -> Seq<char> {
    let values = if tags.len() == 0 {
        labels
    } else {
        tags
    };
    if values.len() == 0 {
        "标签\n未分类"@
    } else {
        "标签\n"@ + join(values, ", "@)
    }
}

pub fn render_tags_block(tags: &Vec<String>, labels: &Vec<String>) -> (r: String)
    ensures
        r@ == tags_block(string_views(tags@), string_views(labels@)),
{
    let values = if tags.len() == 0 {
        chars_list(labels)
    } else {
        chars_list(tags)
    };
    if values.len() == 0 {
        return crate::text::str_to_string("标签\n未分类");
    }
    string_of(&concat(&lit("标签\n"), &join_chars(&values, &lit(", "))))
}

/// The numbered image lines: `图k: url` for the first three non-blank
/// URLs, trimmed.
pub open spec fn numbered_images(urls: Seq<Seq<char>>) -> Seq<Seq<char>> {
    let firsts = take_seq(kept_trimmed(urls), 3);
    Seq::new(firsts.len(), |i: int| "图"@ + dec_string((i + 1) as nat) + ": "@ + firsts[i])
}

/// The lines of the images block: the trimmed cover when there is one,
/// then the numbered images.
pub open spec fn image_lines(cover: Option<Seq<char>>, urls: Seq<Seq<char>>) -> Seq<Seq<char>> {
    let head: Seq<Seq<char>> = match cover {
        Some(c) => if trim(c).len() > 0 {
            seq!["封面: "@ + trim(c)]
        } else {
            Seq::empty()
        },
        None => Seq::empty(),
    };
    head + numbered_images(urls)
}

/// The images block, empty when there is no picture.
pub open spec fn images_block(cover: Option<Seq<char>>, urls: Seq<Seq<char>>) -> Seq<char> {
    let lines = image_lines(cover, urls);
    if lines.len() == 0 {
        Seq::empty()
    } else {
        "图片\n"@ + join(lines, seq!['\n'])
    }
}

pub fn render_images_block(cover_url: Option<&str>, image_urls: &Vec<String>) -> (r: String)
    ensures
        r@ == images_block(opt_str(cover_url), string_views(image_urls@)),
{
    let mut lines: Vec<Vec<char>> = Vec::new();
    match cover_url {
        Some(c) => {
            let t = trim_str(c);
            if t.len() > 0 {
                lines.push(concat(&lit("封面: "), &t));
            }
        },
        None => {},
    }
    let ghost head = views(lines@);
    proof {
        assert(head =~= match opt_str(cover_url) {
            Some(c) => if trim(c).len() > 0 {
                seq!["封面: "@ + trim(c)]
            } else {
                Seq::<Seq<char>>::empty()
            },
            None => Seq::<Seq<char>>::empty(),
        });
    }
    let kept = keep_trimmed(&chars_list(image_urls));
    let n = if kept.len() < 3 {
        kept.len()
    } else {
        3
    };
    let ghost firsts = take_seq(views(kept@), 3);
    let ghost numbered = numbered_images(string_views(image_urls@));
    let mut i: usize = 0;
    while i < n
        invariant
            i <= n,
            n <= 3,
            n <= kept.len(),
            n == firsts.len(),
            firsts == take_seq(views(kept@), 3),
            views(kept@) == kept_trimmed(string_views(image_urls@)),
            numbered == numbered_images(string_views(image_urls@)),
            views(lines@) == head + numbered.take(i as int),
        decreases n - i,
    {
        let ghost before = views(lines@);
        let line = concat(
            &concat(&concat(&lit("图"), &dec_chars((i + 1) as u64)), &lit(": ")),
            &kept[i],
        );
        lines.push(line);
        proof {
            assert(firsts[i as int] == kept@[i as int]@);
            assert(numbered[i as int] == line@);
            assert(views(lines@) =~= before.push(line@));
            assert(numbered.take(i + 1) =~= numbered.take(i as int).push(numbered[i as int]));
        }
        i = i + 1;
    }
    proof {
        assert(numbered.take(n as int) =~= numbered);
        assert(views(lines@) == image_lines(opt_str(cover_url), string_views(image_urls@)));
    }
    if lines.len() == 0 {
        return String::new();
    }
    string_of(&concat(&lit("图片\n"), &join_chars(&lines, &newline())))
}

/// A tree node's key: trimmed and lower-cased.
pub fn normalize_node_key(raw: &str) -> (r: String)
    ensures
        r@ == crate::sync_notion::tree::node_key(raw@),
{
    crate::sync_notion::tree::normalize_key(raw)
}

// ── Blocks of an item page ──────────────────────────────────────────────────

/// The blocks of an item page.
#[derive(Debug, Clone, Copy, PartialEq, Eq, Structural)]
pub enum BlockKind {
    Summary,
    KeyPoints,
    SourceLink,
    Tags,
    Metadata,
    Images,
}

/// The texts of an item page's blocks.
#[derive(Debug, Clone)]
pub struct ItemBlockTexts {
    pub summary: String,
    pub key_points: String,
    pub source_link: String,
    pub tags: String,
    pub metadata: String,
    pub images: String,
}

/// The ids of an item page's blocks, where they exist.
#[derive(Debug, Clone)]
pub struct ItemBlockIds {
    pub summary: Option<String>,
    pub key_points: Option<String>,
    pub source_link: Option<String>,
    pub tags: Option<String>,
    pub metadata: Option<String>,
    pub images: Option<String>,
}

/// The id of one block.
pub open spec fn id_of(ids: ItemBlockIds, k: BlockKind) -> Option<Seq<char>> {
    match k {
        BlockKind::Summary => opt_view(ids.summary),
        BlockKind::KeyPoints => opt_view(ids.key_points),
        BlockKind::SourceLink => opt_view(ids.source_link),
        BlockKind::Tags => opt_view(ids.tags),
        BlockKind::Metadata => opt_view(ids.metadata),
        BlockKind::Images => opt_view(ids.images),
    }
}

/// The text of one block.
pub open spec fn text_of(texts: ItemBlockTexts, k: BlockKind) -> Seq<char> {
    match k {
        BlockKind::Summary => texts.summary@,
        BlockKind::KeyPoints => texts.key_points@,
        BlockKind::SourceLink => texts.source_link@,
        BlockKind::Tags => texts.tags@,
        BlockKind::Metadata => texts.metadata@,
        BlockKind::Images => texts.images@,
    }
}

/// The metadata and images blocks exist only while they have something to
/// show; the others always.
pub open spec fn shown(texts: ItemBlockTexts, k: BlockKind) -> bool {
    match k {
        BlockKind::Metadata => trim(texts.metadata@).len() > 0,
        BlockKind::Images => trim(texts.images@).len() > 0,
        _ => true,
    }
}

/// The blocks in page order.
pub open spec fn page_order() -> Seq<BlockKind> {
    seq![
        BlockKind::Summary,
        BlockKind::KeyPoints,
        BlockKind::SourceLink,
        BlockKind::Tags,
        BlockKind::Metadata,
        BlockKind::Images,
    ]
}

/// The blocks (in page order) that are shown but have no id yet, with
/// their texts.
pub open spec fn missing_of(ids: ItemBlockIds, texts: ItemBlockTexts, order: Seq<BlockKind>) -> Seq<
    (BlockKind, Seq<char>),
>
    decreases order.len(),
{
    if order.len() == 0 {
        Seq::empty()
    } else {
        let prev = missing_of(ids, texts, order.drop_last());
        let k = order.last();
        if id_of(ids, k) is None && shown(texts, k) {
            prev.push((k, text_of(texts, k)))
        } else {
            prev
        }
    }
}

pub open spec fn plan_view(plan: Seq<(BlockKind, String)>) -> Seq<(BlockKind, Seq<char>)> {
    plan.map_values(|e: (BlockKind, String)| (e.0, e.1@))
}

fn opt_copy(o: &Option<String>) -> (r: Option<String>)
    ensures
        opt_view(r) == opt_view(*o),
{
    match o {
        Some(s) => Some(crate::text::str_to_string(s.as_str())),
        None => None,
    }
}

fn id_of_exec(ids: &ItemBlockIds, k: BlockKind) -> (r: Option<String>)
    ensures
        opt_view(r) == id_of(*ids, k),
{
    match k {
        BlockKind::Summary => opt_copy(&ids.summary),
        BlockKind::KeyPoints => opt_copy(&ids.key_points),
        BlockKind::SourceLink => opt_copy(&ids.source_link),
        BlockKind::Tags => opt_copy(&ids.tags),
        BlockKind::Metadata => opt_copy(&ids.metadata),
        BlockKind::Images => opt_copy(&ids.images),
    }
}

fn text_of_exec(texts: &ItemBlockTexts, k: BlockKind) -> (r: String)
    ensures
        r@ == text_of(*texts, k),
{
    let s = match k {
        BlockKind::Summary => &texts.summary,
        BlockKind::KeyPoints => &texts.key_points,
        BlockKind::SourceLink => &texts.source_link,
        BlockKind::Tags => &texts.tags,
        BlockKind::Metadata => &texts.metadata,
        BlockKind::Images => &texts.images,
    };
    crate::text::str_to_string(s.as_str())
}

fn shown_exec(texts: &ItemBlockTexts, k: BlockKind) -> (r: bool)
    ensures
        r == shown(*texts, k),
{
    match k {
        BlockKind::Metadata => trim_str(texts.metadata.as_str()).len() > 0,
        BlockKind::Images => trim_str(texts.images.as_str()).len() > 0,
        _ => true,
    }
}

fn page_order_exec() -> (r: Vec<BlockKind>)
    ensures
        r@ == page_order(),
{
    let r = vec![
        BlockKind::Summary,
        BlockKind::KeyPoints,
        BlockKind::SourceLink,
        BlockKind::Tags,
        BlockKind::Metadata,
        BlockKind::Images,
    ];
    proof {
        assert(r@ =~= page_order());
    }
    r
}

/// The blocks to append to an item page that lacks some: those shown
/// without an id, in page order, with their texts.
pub fn missing_blocks(ids: &ItemBlockIds, texts: &ItemBlockTexts) -> (r: Vec<(BlockKind, String)>)
    ensures
        plan_view(r@) == missing_of(*ids, *texts, page_order()),
{
    let order = page_order_exec();
    let mut r: Vec<(BlockKind, String)> = Vec::new();
    let mut i: usize = 0;
    while i < order.len()
        invariant
            i <= order.len(),
            order@ == page_order(),
            plan_view(r@) == missing_of(*ids, *texts, order@.take(i as int)),
        decreases order.len() - i,
    {
        proof {
            assert(order@.take(i + 1).drop_last() =~= order@.take(i as int));
        }
        let k = order[i];
        let ghost before = r@;
        if id_of_exec(ids, k).is_none() && shown_exec(texts, k) {
            let t = text_of_exec(texts, k);
            r.push((k, t));
            proof {
                assert(plan_view(r@) =~= plan_view(before).push((k, t@)));
            }
        }
        i = i + 1;
    }
    proof {
        assert(order@.take(order.len() as int) =~= order@);
    }
    r
}

/// No block yet: everything that is shown, in page order.
pub open spec fn no_ids() -> ItemBlockIds {
    ItemBlockIds {
        summary: None,
        key_points: None,
        source_link: None,
        tags: None,
        metadata: None,
        images: None,
    }
}

/// The blocks of a new item page: all that are shown, in page order.
pub fn new_page_blocks(texts: &ItemBlockTexts) -> (r: Vec<(BlockKind, String)>)
    ensures
        plan_view(r@) == missing_of(no_ids(), *texts, page_order()),
{
    let none = ItemBlockIds {
        summary: None,
        key_points: None,
        source_link: None,
        tags: None,
        metadata: None,
        images: None,
    };
    missing_blocks(&none, texts)
}

/// A block that already exists gets its new text; a blank metadata or
/// images text is written as one space, which clears the block.
pub open spec fn update_text(texts: ItemBlockTexts, k: BlockKind) -> Seq<char> {
    if (k == BlockKind::Metadata || k == BlockKind::Images) && trim(text_of(texts, k)).len() == 0 {
        " "@
    } else {
        text_of(texts, k)
    }
}

/// The order in which existing blocks are rewritten.
pub open spec fn update_order() -> Seq<BlockKind> {
    seq![
        BlockKind::Metadata,
        BlockKind::Summary,
        BlockKind::KeyPoints,
        BlockKind::SourceLink,
        BlockKind::Tags,
        BlockKind::Images,
    ]
}

/// The rewrites of the blocks that exist, as (block id, text).
pub open spec fn updates_of(ids: ItemBlockIds, texts: ItemBlockTexts, order: Seq<BlockKind>) -> Seq<
    (Seq<char>, Seq<char>),
>
    decreases order.len(),
{
    if order.len() == 0 {
        Seq::empty()
    } else {
        let prev = updates_of(ids, texts, order.drop_last());
        let k = order.last();
        match id_of(ids, k) {
            Some(id) => prev.push((id, update_text(texts, k))),
            None => prev,
        }
    }
}

pub open spec fn pairs_view(v: Seq<(String, String)>) -> Seq<(Seq<char>, Seq<char>)> {
    v.map_values(|e: (String, String)| (e.0@, e.1@))
}

/// The blocks of an existing item page to rewrite, with their texts.
pub fn block_updates(ids: &ItemBlockIds, texts: &ItemBlockTexts) -> (r: Vec<(String, String)>)
    ensures
        pairs_view(r@) == updates_of(*ids, *texts, update_order()),
{
    let order = vec![
        BlockKind::Metadata,
        BlockKind::Summary,
        BlockKind::KeyPoints,
        BlockKind::SourceLink,
        BlockKind::Tags,
        BlockKind::Images,
    ];
    proof {
        assert(order@ =~= update_order());
    }
    let mut r: Vec<(String, String)> = Vec::new();
    let mut i: usize = 0;
    while i < order.len()
        invariant
            i <= order.len(),
            order@ == update_order(),
            pairs_view(r@) == updates_of(*ids, *texts, order@.take(i as int)),
        decreases order.len() - i,
    {
        proof {
            assert(order@.take(i + 1).drop_last() =~= order@.take(i as int));
        }
        let k = order[i];
        let ghost before = r@;
        match id_of_exec(ids, k) {
            Some(id) => {
                let t = text_of_exec(texts, k);
                let is_optional = match k {
                    BlockKind::Metadata | BlockKind::Images => true,
                    _ => false,
                };
                let text = if is_optional && trim_str(t.as_str()).len() == 0 {
                    crate::text::str_to_string(" ")
                } else {
                    t
                };
                r.push((id, text));
                proof {
                    assert(pairs_view(r@) =~= pairs_view(before).push((id@, text@)));
                }
            },
            None => {},
        }
        i = i + 1;
    }
    proof {
        assert(order@.take(order.len() as int) =~= order@);
    }
    r
}

/// The id a block ends up with once the blocks `kinds` were appended and
/// Notion answered with `new_ids` (in the same order): the id at its
/// position, none when the answer is short, else the id it had.
pub open spec fn assigned_id(
    base: Option<Seq<char>>,
    kinds: Seq<BlockKind>,
    new_ids: Seq<Seq<char>>,
    k: BlockKind,
) -> Option<Seq<char>>
    decreases kinds.len(),
{
    if kinds.len() == 0 {
        base
    } else if kinds.last() == k {
        if kinds.len() - 1 < new_ids.len() {
            Some(new_ids[kinds.len() - 1])
        } else {
            None
        }
    } else {
        assigned_id(base, kinds.drop_last(), new_ids, k)
    }
}

fn set_id(ids: &mut ItemBlockIds, k: BlockKind, id: Option<String>)
    ensures
        forall|j: BlockKind|
            #![trigger id_of(*final(ids), j)]
            id_of(*final(ids), j) == if j == k {
                opt_view(id)
            } else {
                id_of(*old(ids), j)
            },
{
    match k {
        BlockKind::Summary => ids.summary = id,
        BlockKind::KeyPoints => ids.key_points = id,
        BlockKind::SourceLink => ids.source_link = id,
        BlockKind::Tags => ids.tags = id,
        BlockKind::Metadata => ids.metadata = id,
        BlockKind::Images => ids.images = id,
    }
}

/// The block ids after appending the blocks `kinds` and receiving
/// `new_ids` for them.
pub fn assign_block_ids(ids: ItemBlockIds, kinds: &Vec<BlockKind>, new_ids: &Vec<String>) -> (r:
    ItemBlockIds)
    ensures
        forall|k: BlockKind|
            #![trigger id_of(r, k)]
            id_of(r, k) == assigned_id(id_of(ids, k), kinds@, string_views(new_ids@), k),
{
    let mut r = ids;
    let ghost start = ids;
    let mut i: usize = 0;
    while i < kinds.len()
        invariant
            i <= kinds.len(),
            forall|k: BlockKind|
                #![trigger id_of(r, k)]
                id_of(r, k) == assigned_id(
                    id_of(start, k),
                    kinds@.take(i as int),
                    string_views(new_ids@),
                    k,
                ),
        decreases kinds.len() - i,
    {
        let k = kinds[i];
        let id = if i < new_ids.len() {
            Some(crate::text::str_to_string(new_ids[i].as_str()))
        } else {
            None
        };
        let ghost before = r;
        set_id(&mut r, k, id);
        proof {
            assert forall|j: BlockKind| #[trigger]
                id_of(r, j) == assigned_id(
                    id_of(start, j),
                    kinds@.take(i + 1),
                    string_views(new_ids@),
                    j,
                ) by {
                assert(kinds@.take(i + 1).drop_last() =~= kinds@.take(i as int));
                assert(kinds@.take(i + 1).last() == k);
                if i < new_ids.len() {
                    assert(string_views(new_ids@)[i as int] == new_ids@[i as int]@);
                }
                assert(id_of(before, j) == assigned_id(
                    id_of(start, j),
                    kinds@.take(i as int),
                    string_views(new_ids@),
                    j,
                ));
            }
        }
        i = i + 1;
    }
    proof {
        assert(kinds@.take(kinds.len() as int) =~= kinds@);
    }
    r
}

/// The kinds of a plan of blocks, in order.
pub open spec fn kinds_of(plan: Seq<(BlockKind, Seq<char>)>) -> Seq<BlockKind> {
    plan.map_values(|e: (BlockKind, Seq<char>)| e.0)
}

proof fn lemma_assigned_after_missing(
    ids: ItemBlockIds,
    texts: ItemBlockTexts,
    order: Seq<BlockKind>,
    new_ids: Seq<Seq<char>>,
    k: BlockKind,
)
    requires
        forall|i: int, j: int| 0 <= i < j < order.len() ==> order[i] != order[j],
        new_ids.len() >= missing_of(ids, texts, order).len(),
    ensures
        (order.contains(k) && id_of(ids, k) is None && shown(texts, k)) ==> assigned_id(
            id_of(ids, k),
            kinds_of(missing_of(ids, texts, order)),
            new_ids,
            k,
        ) is Some,
        !(order.contains(k) && id_of(ids, k) is None && shown(texts, k)) ==> assigned_id(
            id_of(ids, k),
            kinds_of(missing_of(ids, texts, order)),
            new_ids,
            k,
        ) == id_of(ids, k),
    decreases order.len(),
{
    if order.len() > 0 {
        let prev_order = order.drop_last();
        let last = order.last();
        let prev = missing_of(ids, texts, prev_order);
        assert forall|i: int, j: int| 0 <= i < j < prev_order.len() implies prev_order[i]
            != prev_order[j] by {
            assert(prev_order[i] == order[i] && prev_order[j] == order[j]);
        }
        lemma_assigned_after_missing(ids, texts, prev_order, new_ids, k);
        let pk = kinds_of(prev);
        assert(pk.len() == prev.len());
        assert(order.contains(k) <==> (prev_order.contains(k) || k == last)) by {
            if order.contains(k) {
                let i = choose|i: int| 0 <= i < order.len() && order[i] == k;
                if i < order.len() - 1 {
                    assert(prev_order[i] == k);
                }
            }
            if prev_order.contains(k) {
                let i = choose|i: int| 0 <= i < prev_order.len() && prev_order[i] == k;
                assert(order[i] == k);
            }
            if k == last {
                assert(order[order.len() - 1] == k);
            }
        }
        if k == last {
            assert(!prev_order.contains(k)) by {
                if prev_order.contains(k) {
                    let i = choose|i: int| 0 <= i < prev_order.len() && prev_order[i] == k;
                    assert(order[i] == order[order.len() - 1]);
                }
            }
        }
        if id_of(ids, last) is None && shown(texts, last) {
            let m = prev.push((last, text_of(texts, last)));
            assert(missing_of(ids, texts, order) == m);
            assert(kinds_of(m) =~= pk.push(last));
            assert(pk.push(last).drop_last() =~= pk);
            assert(pk.push(last).last() == last);
            if k != last {
                assert(assigned_id(id_of(ids, k), pk.push(last), new_ids, k) == assigned_id(
                    id_of(ids, k),
                    pk,
                    new_ids,
                    k,
                ));
            } else {
                assert(pk.push(last).len() - 1 == pk.len());
                assert(pk.len() < new_ids.len());
            }
        } else {
            assert(missing_of(ids, texts, order) == prev);
        }
    }
}

/// Once the missing blocks of an item page are appended and Notion gives an
/// id for each, every block that is shown has an id, and every block that
/// had one keeps it.
pub proof fn law_blocks_complete_after_append(
    ids: ItemBlockIds,
    texts: ItemBlockTexts,
    new_ids: Seq<Seq<char>>,
    k: BlockKind,
)
    requires
        new_ids.len() >= missing_of(ids, texts, page_order()).len(),
    ensures
        shown(texts, k) ==> assigned_id(
            id_of(ids, k),
            kinds_of(missing_of(ids, texts, page_order())),
            new_ids,
            k,
        ) is Some,
        id_of(ids, k) is Some ==> assigned_id(
            id_of(ids, k),
            kinds_of(missing_of(ids, texts, page_order())),
            new_ids,
            k,
        ) == id_of(ids, k),
{
    let order = page_order();
    assert forall|i: int, j: int| 0 <= i < j < order.len() implies order[i] != order[j] by {}
    assert(order.contains(k)) by {
        match k {
            BlockKind::Summary => assert(order[0] == k),
            BlockKind::KeyPoints => assert(order[1] == k),
            BlockKind::SourceLink => assert(order[2] == k),
            BlockKind::Tags => assert(order[3] == k),
            BlockKind::Metadata => assert(order[4] == k),
            BlockKind::Images => assert(order[5] == k),
        }
    }
    lemma_assigned_after_missing(ids, texts, order, new_ids, k);
}

// ── Routing labels and node ids ─────────────────────────────────────────────

/// `acc` followed by the trimmed entries of `items` that are not blank and
/// not already present, in order.
pub open spec fn add_distinct(acc: Seq<Seq<char>>, items: Seq<Seq<char>>) -> Seq<Seq<char>>
    decreases items.len(),
{
    if items.len() == 0 {
        acc
    } else {
        let prev = add_distinct(acc, items.drop_last());
        let t = trim(items.last());
        if t.len() > 0 && !prev.contains(t) {
            prev.push(t)
        } else {
            prev
        }
    }
}

/// The labels an item is routed by: its final category first (when not
/// blank), then its labels and tags without repeats, all trimmed; the
/// unknown category when there is none.
pub open spec fn route_labels_of(
    final_category: Option<Seq<char>>,
    labels: Seq<Seq<char>>,
    tags: Seq<Seq<char>>,
    unknown: Seq<char>,
) -> Seq<Seq<char>> {
    let start: Seq<Seq<char>> = match final_category {
        Some(f) => if trim(f).len() > 0 {
            seq![trim(f)]
        } else {
            Seq::empty()
        },
        None => Seq::empty(),
    };
    let all = add_distinct(start, labels + tags);
    if all.len() == 0 {
        seq![unknown]
    } else {
        all
    }
}

pub fn route_labels(
    final_category: Option<&str>,
    labels: &Vec<String>,
    tags: &Vec<String>,
    unknown_category: &str,
) -> (r: Vec<String>)
    ensures
        string_views(r@) == route_labels_of(
            opt_str(final_category),
            string_views(labels@),
            string_views(tags@),
            unknown_category@,
        ),
{
    let mut acc: Vec<Vec<char>> = Vec::new();
    match final_category {
        Some(f) => {
            let t = trim_str(f);
            if t.len() > 0 {
                acc.push(t);
            }
        },
        None => {},
    }
    let ghost start = views(acc@);
    proof {
        assert(start =~= match opt_str(final_category) {
            Some(f) => if trim(f).len() > 0 {
                seq![trim(f)]
            } else {
                Seq::<Seq<char>>::empty()
            },
            None => Seq::<Seq<char>>::empty(),
        });
    }
    let mut items = chars_list(labels);
    let mut more = chars_list(tags);
    let ghost lv = views(items@);
    items.append(&mut more);
    let ghost all = views(items@);
    proof {
        assert(all =~= string_views(labels@) + string_views(tags@));
    }
    let mut i: usize = 0;
    while i < items.len()
        invariant
            i <= items.len(),
            all == views(items@),
            views(acc@) == add_distinct(start, all.take(i as int)),
        decreases items.len() - i,
    {
        proof {
            assert(all.take(i + 1).drop_last() =~= all.take(i as int));
            assert(all.take(i + 1).last() == items@[i as int]@);
        }
        let t = trim_chars(&items[i]);
        if t.len() > 0 && !list_contains(&acc, &t) {
            let ghost before = views(acc@);
            acc.push(t);
            proof {
                assert(views(acc@) =~= before.push(t@));
            }
        }
        i = i + 1;
    }
    proof {
        assert(all.take(items.len() as int) =~= all);
    }
    if acc.len() == 0 {
        acc.push(chars_of(unknown_category));
        proof {
            assert(views(acc@) =~= seq![unknown_category@]);
        }
    }
    strings_of(&acc)
}

/// The id of an item's tree node: `ntn_item_` and the decimal hash of its
/// normalized item id.
pub open spec fn item_node_id(normalized_item_id: Seq<char>) -> Seq<char> {
    "ntn_item_"@ + dec_string(fnv1a(vstd::utf8::encode_utf8(normalized_item_id)) as nat)
}

pub fn tree_item_id(normalized_item_id: &str) -> (r: String)
    ensures
        r@ == item_node_id(normalized_item_id@),
{
    string_of(&concat(&lit("ntn_item_"), &dec_chars(stable_hash(normalized_item_id))))
}

/// The id of a group node (a category or a week): its type and the decimal
/// hash of `type|parent|key`.
pub open spec fn group_node_id(node_type: Seq<char>, parent_page_id: Seq<char>, node_key: Seq<char>) -> Seq<
    char,
> {
    "ntn_"@ + node_type + "_"@ + dec_string(
        fnv1a(
            vstd::utf8::encode_utf8(node_type + "|"@ + parent_page_id + "|"@ + node_key),
        ) as nat,
    )
}

pub fn tree_group_id(node_type: &str, parent_page_id: &str, node_key: &str) -> (r: String)
    ensures
        r@ == group_node_id(node_type@, parent_page_id@, node_key@),
{
    let t = chars_of(node_type);
    let bar = lit("|");
    let joined = string_of(
        &concat(&concat(&concat(&concat(&t, &bar), &chars_of(parent_page_id)), &bar), &chars_of(node_key)),
    );
    let h = stable_hash(joined.as_str());
    string_of(&concat(&concat(&concat(&lit("ntn_"), &t), &lit("_")), &dec_chars(h)))
}

/// The child page a group node is found under: the first whose title
/// equals the wanted one up to ASCII case.
pub open spec fn first_titled(children: Seq<NotionChildPage>, title: Seq<char>) -> Option<int>
    decreases children.len(),
{
    if children.len() == 0 {
        None
    } else if eq_ignore_ascii_case(children[0].title@, title) {
        Some(0)
    } else {
        match first_titled(children.drop_first(), title) {
            Some(i) => Some(i + 1),
            None => None,
        }
    }
}

pub fn find_child_page(children: &Vec<NotionChildPage>, title: &str) -> (r: Option<String>)
    ensures
        match first_titled(children@, title@) {
            Some(i) => 0 <= i < children.len() && r.is_some() && r.unwrap()@
                == children@[i].page_id@,
            None => r.is_none(),
        },
{
    let t = chars_of(title);
    let mut k: usize = 0;
    proof {
        assert(children@.skip(0) =~= children@);
    }
    while k < children.len()
        invariant
            k <= children.len(),
            t@ == title@,
            match first_titled(children@, title@) {
                Some(i) => match first_titled(children@.skip(k as int), title@) {
                    Some(j) => i == j + k,
                    None => false,
                },
                None => first_titled(children@.skip(k as int), title@) is None,
            },
        decreases children.len() - k,
    {
        proof {
            assert(children@.skip(k as int).drop_first() =~= children@.skip(k + 1));
            assert(children@.skip(k as int)[0] == children@[k as int]);
        }
        if eq_ignore_ascii_case_exec(&chars_of(children[k].title.as_str()), &t) {
            return Some(crate::text::str_to_string(children[k].page_id.as_str()));
        }
        k = k + 1;
    }
    None
}

/// Whether moving an item to `new` changes its category (compared up to
/// ASCII case); an item without a category has no history to extend.
pub fn category_changed(old: Option<&str>, new: &str) -> (r: bool)
    ensures
        r == match old {
            Some(o) => !eq_ignore_ascii_case(o@, new@),
            None => false,
        },
{
    match old {
        Some(o) => !eq_ignore_ascii_case_exec(&chars_of(o), &chars_of(new)),
        None => false,
    }
}

/// `{"object": "block", "type": "paragraph", "paragraph": {"rich_text":
/// [item]}}` with `item` a piece of rich text holding `text`.
pub open spec fn is_paragraph_block(v: JsonValue, text: Seq<char>) -> bool {
    &&& v matches JsonValue::Object(entries)
    &&& entries@.len() == 3
    &&& entries@[0].0@ == "object"@ && str_of(entries@[0].1) == Some("block"@)
    &&& entries@[1].0@ == "type"@ && str_of(entries@[1].1) == Some("paragraph"@)
    &&& entries@[2].0@ == "paragraph"@
    &&& entries@[2].1 matches JsonValue::Object(p)
    &&& p@.len() == 1
    &&& p@[0].0@ == "rich_text"@
    &&& p@[0].1 matches JsonValue::Array(items)
    &&& items@.len() == 1
    &&& is_rich_text_item(items@[0], text)
}

/// A paragraph block holding `text`, as appended to a page.
pub fn paragraph_block(text: &str) -> (r: JsonValue)
    ensures
        is_paragraph_block(r, text@),
{
    let mut items: Vec<JsonValue> = Vec::new();
    items.push(rich_text_item(text));
    let mut p: Vec<(String, JsonValue)> = Vec::new();
    p.push((crate::text::str_to_string("rich_text"), JsonValue::Array(items)));
    let mut entries: Vec<(String, JsonValue)> = Vec::new();
    entries.push((crate::text::str_to_string("object"), JsonValue::Str(crate::text::str_to_string("block"))));
    entries.push((crate::text::str_to_string("type"), JsonValue::Str(crate::text::str_to_string("paragraph"))));
    entries.push((crate::text::str_to_string("paragraph"), JsonValue::Object(p)));
    JsonValue::Object(entries)
}

/// The entry that records a move of an item from category `from` to `to` at
/// the local time `at`: an object with the members `from`, `to` and `at`.
pub open spec fn is_history_entry(v: JsonValue, from: Seq<char>, to: Seq<char>, at: Seq<char>) -> bool {
    &&& v matches JsonValue::Object(entries)
    &&& entries@.len() == 3
    &&& entries@[0].0@ == "from"@ && str_of(entries@[0].1) == Some(from)
    &&& entries@[1].0@ == "to"@ && str_of(entries@[1].1) == Some(to)
    &&& entries@[2].0@ == "at"@ && str_of(entries@[2].1) == Some(at)
}

/// The category history of an item after it was routed to `new`: one entry
/// more when its category changed, the same history otherwise.
pub fn append_category_history(history: Vec<JsonValue>, old: Option<&str>, new: &str, at: &str) -> (r: Vec<JsonValue>)
    ensures
        match old {
            Some(o) => if !eq_ignore_ascii_case(o@, new@) {
                &&& r@.len() == history@.len() + 1
                &&& r@.take(history@.len() as int) == history@
                &&& is_history_entry(r@.last(), o@, new@, at@)
            } else {
                r@ == history@
            },
            None => r@ == history@,
        },
{
    let mut out = history;
    if let Some(o) = old {
        if category_changed(old, new) {
            let mut entries: Vec<(String, JsonValue)> = Vec::new();
            entries.push((crate::text::str_to_string("from"), JsonValue::Str(crate::text::str_to_string(o))));
            entries.push((crate::text::str_to_string("to"), JsonValue::Str(crate::text::str_to_string(new))));
            entries.push((crate::text::str_to_string("at"), JsonValue::Str(crate::text::str_to_string(at))));
            let ghost before = out@;
            out.push(JsonValue::Object(entries));
            proof {
                assert(out@.take(before.len() as int) =~= before);
            }
        }
    }
    out
}

/// A score in thirds rounded to whole points, halves up.
pub open spec fn rounded_points(thirds: nat) -> nat {
    ((2 * thirds + 3) / 6) as nat
}

/// The error that stops an item whose content failed the quality gate.
pub fn quality_gate_error(score_thirds: u32, content_source: &str) -> (r: BackendError)
    ensures
        r matches BackendError::Validation(m) && m@ == "content quality gate failed: score="@
            + dec_string(rounded_points(score_thirds as nat)) + " source="@ + content_source@,
{
    let rounded: u64 = (2 * (score_thirds as u64) + 3) / 6;
    let m = concat(
        &concat(&concat(&lit("content quality gate failed: score="), &dec_chars(rounded)), &lit(" source=")),
        &chars_of(content_source),
    );
    BackendError::Validation(string_of(&m))
}

} // verus!
