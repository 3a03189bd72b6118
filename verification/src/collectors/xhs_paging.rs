//! Walking a Xiaohongshu feed page by page: the query of each page, which
//! items of a fetched page are kept, and whether and where to go on.

use vstd::prelude::*;
use crate::collectors::items::{CollectWindow, CollectedItem};
use crate::collectors::xhs::{in_window, opt_view, within_window, FeedKind};
use crate::collectors::xhs_feed::PageExtract;
use crate::num::{dec_chars, dec_string};
use crate::text::{chars_eq, chars_of, list_contains, string_of, string_views, views};

verus! {

/// Where a feed walk stands: the cursor of the likes feed and the page of
/// the favourites feed.
#[derive(Debug, Clone)]
pub struct FeedPosition {
    pub cursor: String,
    pub page: u32,
}

/// The query parameters of a page: `num` and `cursor` for the likes,
/// `page` and `page_size` for the favourites.
pub open spec fn page_params(kind: FeedKind, page_size: u32, pos_cursor: Seq<char>, page: u32) -> Seq<(Seq<char>, Seq<char>)> {
    match kind {
        FeedKind::Likes => seq![("num"@, dec_string(page_size as nat)), ("cursor"@, pos_cursor)],
        FeedKind::Favorites => seq![("page"@, dec_string(page as nat)), ("page_size"@, dec_string(page_size as nat))],
    }
}

pub open spec fn params_view(v: Seq<(String, String)>) -> Seq<(Seq<char>, Seq<char>)> {
    v.map_values(|e: (String, String)| (e.0@, e.1@))
}

pub fn feed_page_params(kind: FeedKind, page_size: u32, pos: &FeedPosition) -> (r: Vec<(String, String)>)
    ensures
        params_view(r@) == page_params(kind, page_size, pos.cursor@, pos.page),
{
    let mut r: Vec<(String, String)> = Vec::new();
    match kind {
        FeedKind::Likes => {
            r.push((crate::text::str_to_string("num"), string_of(&dec_chars(page_size as u64))));
            r.push((crate::text::str_to_string("cursor"), string_of(&chars_of(pos.cursor.as_str()))));
        },
        FeedKind::Favorites => {
            r.push((crate::text::str_to_string("page"), string_of(&dec_chars(pos.page as u64))));
            r.push((crate::text::str_to_string("page_size"), string_of(&dec_chars(page_size as u64))));
        },
    }
    proof {
        assert(params_view(r@) =~= page_params(kind, page_size, pos.cursor@, pos.page));
    }
    r
}

/// Taking in the first `n` items of a page, in order: the walk stops at an
/// item it was told to stop at; an item seen before is skipped; a new item
/// is remembered and kept when it falls in the window. The result is the
/// kept items, the ids seen and whether the walk stopped.
pub open spec fn absorb_upto(
    items: Seq<CollectedItem>,
    stop_ids: Seq<Seq<char>>,
    seen: Seq<Seq<char>>,
    window: CollectWindow,
    n: int,
) -> (Seq<CollectedItem>, Seq<Seq<char>>, bool)
    decreases n,
{
    if n <= 0 {
        (Seq::empty(), seen, false)
    } else {
        let (kept, s, stopped) = absorb_upto(items, stop_ids, seen, window, n - 1);
        let item = items[n - 1];
        let id = item.external_id@;
        if stopped {
            (kept, s, true)
        } else if stop_ids.contains(id) {
            (kept, s, true)
        } else if s.contains(id) {
            (kept, s, false)
        } else if in_window(opt_view(window.since), opt_view(window.until), opt_view(item.published_at)) {
            (kept.push(item), s.push(id), false)
        } else {
            (kept, s.push(id), false)
        }
    }
}

/// What follows a page of `page_item_count` items: nothing when it was
/// empty or the walk stopped; for the likes, the next cursor, unless the
/// feed says (or, when silent, the collected count below a page suggests)
/// there is no more, or the cursor is empty or unchanged; for the
/// favourites, the next page unless there is no more.
pub open spec fn next_position(
    kind: FeedKind,
    page_size: u32,
    cursor: Seq<char>,
    page: u32,
    page_item_count: nat,
    stopped: bool,
    has_more: Option<bool>,
    next_cursor: Option<Seq<char>>,
    collected: nat,
) -> Option<(Seq<char>, u32)> {
    if page_item_count == 0 || stopped {
        None
    } else {
        match kind {
            FeedKind::Likes => {
                let more = match has_more {
                    Some(b) => b,
                    None => collected >= page_size,
                };
                let next = match next_cursor {
                    Some(c) => c,
                    None => Seq::empty(),
                };
                if !more || next.len() == 0 || next == cursor {
                    None
                } else {
                    Some((next, page))
                }
            },
            FeedKind::Favorites => {
                let more = match has_more {
                    Some(b) => b,
                    None => page_item_count >= page_size,
                };
                if !more {
                    None
                } else {
                    Some((cursor, (page + 1) as u32))
                }
            },
        }
    }
}

pub open spec fn pos_view(p: Option<FeedPosition>) -> Option<(Seq<char>, u32)> {
    match p {
        Some(x) => Some((x.cursor@, x.page)),
        None => None,
    }
}

/// Takes in a fetched page: the items kept are appended to `out` and their
/// ids, with those skipped for the window, to `seen`; the result is where
/// the walk goes next, or nothing when it ends here.
pub fn feed_page_step(
    kind: FeedKind,
    page_size: u32,
    pos: &FeedPosition,
    extracted: PageExtract,
    window: &CollectWindow,
    stop_ids: &Vec<String>,
    seen: &mut Vec<String>,
    out: &mut Vec<CollectedItem>,
) -> (r: Option<FeedPosition>)
    requires
        pos.page < u32::MAX,
    ensures
        ({
            let (kept, s, stopped) = absorb_upto(
                extracted.items@,
                string_views(stop_ids@),
                string_views(old(seen)@),
                *window,
                extracted.items@.len() as int,
            );
            &&& final(out)@ == old(out)@ + kept
            &&& string_views(final(seen)@) == s
            &&& pos_view(r) == next_position(
                kind,
                page_size,
                pos.cursor@,
                pos.page,
                extracted.items@.len(),
                stopped,
                extracted.has_more,
                opt_view(extracted.next_cursor),
                final(out)@.len(),
            )
        }),
{
    let PageExtract { items, has_more, next_cursor } = extracted;
    let ghost all = items@;
    let ghost stops = string_views(stop_ids@);
    let ghost seen0 = string_views(seen@);
    let ghost out0 = out@;
    let count = items.len();
    let mut rest = items;
    let mut i: usize = 0;
    let mut stopped = false;
    while i < count && !stopped
        invariant
            count == all.len(),
            i <= count,
            rest@ == all.skip(i as int),
            stops == string_views(stop_ids@),
            ({
                let (kept, s, st) = absorb_upto(all, stops, seen0, *window, i as int);
                &&& out@ == out0 + kept
                &&& string_views(seen@) == s
                &&& st == stopped
            }),
        decreases count - i,
    {
        let ghost before_out = out@;
        let ghost before_seen = string_views(seen@);
        let item = rest.remove(0);
        proof {
            assert(item == all[i as int]);
            assert(rest@ =~= all.skip(i + 1));
        }
        let id = chars_of(item.external_id.as_str());
        let stop_here = list_contains(&crate::text::chars_list(stop_ids), &id);
        if stop_here {
            stopped = true;
        } else {
            let already = list_contains(&crate::text::chars_list(seen), &id);
            if !already {
                let keep = within_window(window, match &item.published_at {
                    Some(p) => Some(p.as_str()),
                    None => None,
                });
                seen.push(string_of(&id));
                proof {
                    assert(string_views(seen@) =~= before_seen.push(item.external_id@));
                }
                if keep {
                    out.push(item);
                    proof {
                        assert(out@ =~= out0 + absorb_upto(all, stops, seen0, *window, i as int).0.push(all[i as int]));
                    }
                }
            }
        }
        i = i + 1;
    }
    proof {
        let n = count as int;
        if i < count {
            assert forall|j: int| i <= j <= n implies absorb_upto(all, stops, seen0, *window, j) == absorb_upto(all, stops, seen0, *window, i as int) by {
                lemma_absorb_stays_stopped(all, stops, seen0, *window, i as int, j);
            }
        }
    }
    if count == 0 || stopped {
        return None;
    }
    match kind {
        FeedKind::Likes => {
            let more = match has_more {
                Some(b) => b,
                None => out.len() >= page_size as usize,
            };
            let next = match next_cursor {
                Some(c) => chars_of(c.as_str()),
                None => Vec::new(),
            };
            if !more || next.len() == 0 || chars_eq(&next, &chars_of(pos.cursor.as_str())) {
                None
            } else {
                Some(FeedPosition { cursor: string_of(&next), page: pos.page })
            }
        },
        FeedKind::Favorites => {
            let more = match has_more {
                Some(b) => b,
                None => count >= page_size as usize,
            };
            if !more {
                None
            } else {
                Some(FeedPosition { cursor: string_of(&chars_of(pos.cursor.as_str())), page: pos.page + 1 })
            }
        },
    }
}

/// Once the walk stopped, later items change nothing.
proof fn lemma_absorb_stays_stopped(
    items: Seq<CollectedItem>,
    stop_ids: Seq<Seq<char>>,
    seen: Seq<Seq<char>>,
    window: CollectWindow,
    i: int,
    j: int,
)
    requires
        0 <= i <= j,
        absorb_upto(items, stop_ids, seen, window, i).2,
    ensures
        absorb_upto(items, stop_ids, seen, window, j) == absorb_upto(items, stop_ids, seen, window, i),
    decreases j - i,
{
    if j > i {
        lemma_absorb_stays_stopped(items, stop_ids, seen, window, i, j - 1);
    }
}

/// No two items share an external id.
pub open spec fn ids_distinct(v: Seq<CollectedItem>) -> bool {
    forall|i: int, j: int|
        #![trigger v[i], v[j]]
        0 <= i < j < v.len() ==> v[i].external_id@ != v[j].external_id@
}

/// Every item's external id is among `seen`.
pub open spec fn all_seen(v: Seq<CollectedItem>, seen: Seq<Seq<char>>) -> bool {
    forall|i: int| 0 <= i < v.len() ==> seen.contains(#[trigger] v[i].external_id@)
}

proof fn lemma_push_keeps_contains(s: Seq<Seq<char>>, a: Seq<char>, x: Seq<char>)
    requires
        s.contains(x),
    ensures
        s.push(a).contains(x),
{
    let k = choose|k: int| 0 <= k < s.len() && s[k] == x;
    assert(s.push(a)[k] == x);
}

proof fn lemma_absorb_keeps_walk_invariant(
    items: Seq<CollectedItem>,
    stop_ids: Seq<Seq<char>>,
    seen: Seq<Seq<char>>,
    window: CollectWindow,
    out: Seq<CollectedItem>,
    n: int,
)
    requires
        ids_distinct(out),
        all_seen(out, seen),
    ensures
        ids_distinct(out + absorb_upto(items, stop_ids, seen, window, n).0),
        all_seen(out + absorb_upto(items, stop_ids, seen, window, n).0, absorb_upto(items, stop_ids, seen, window, n).1),
        forall|i: int|
            0 <= i < absorb_upto(items, stop_ids, seen, window, n).0.len() ==> !stop_ids.contains(
                #[trigger] absorb_upto(items, stop_ids, seen, window, n).0[i].external_id@,
            ),
    decreases n,
{
    if n <= 0 {
        assert(out + Seq::<CollectedItem>::empty() =~= out);
    } else {
        lemma_absorb_keeps_walk_invariant(items, stop_ids, seen, window, out, n - 1);
        let (kept, s, stopped) = absorb_upto(items, stop_ids, seen, window, n - 1);
        let item = items[n - 1];
        let id = item.external_id@;
        let before = out + kept;
        if !stopped && !stop_ids.contains(id) && !s.contains(id) {
            let s2 = s.push(id);
            let grown = if in_window(opt_view(window.since), opt_view(window.until), opt_view(item.published_at)) {
                kept.push(item)
            } else {
                kept
            };
            assert forall|i: int| 0 <= i < before.len() implies s2.contains(#[trigger] before[i].external_id@) by {
                lemma_push_keeps_contains(s, id, before[i].external_id@);
            }
            if grown.len() > kept.len() {
                let after = out + grown;
                assert(after =~= before.push(item));
                assert(s2[s.len() as int] == id);
                assert forall|i: int| 0 <= i < after.len() implies s2.contains(#[trigger] after[i].external_id@) by {
                    if i < before.len() {
                        assert(after[i] == before[i]);
                    }
                }
                assert forall|i: int, j: int|
                    #![trigger after[i], after[j]]
                    0 <= i < j < after.len() implies after[i].external_id@ != after[j].external_id@ by {
                    if j == before.len() {
                        assert(after[i] == before[i]);
                        assert(s.contains(before[i].external_id@));
                    } else {
                        assert(after[i] == before[i]);
                        assert(after[j] == before[j]);
                    }
                }
                assert forall|i: int| 0 <= i < grown.len() implies !stop_ids.contains(
                    #[trigger] grown[i].external_id@,
                ) by {
                    if i < kept.len() {
                        assert(grown[i] == kept[i]);
                    }
                }
            }
        }
    }
}

/// A feed walk collects each item once: if the items collected so far have
/// distinct ids that were all seen, then after taking in a page the
/// collected items still have distinct ids, all among the ids seen now, and
/// none of the newly kept items is one the walk was told to stop at.
pub proof fn law_feed_walk_collects_each_item_once(
    items: Seq<CollectedItem>,
    stop_ids: Seq<Seq<char>>,
    seen: Seq<Seq<char>>,
    window: CollectWindow,
    out: Seq<CollectedItem>,
)
    requires
        ids_distinct(out),
        all_seen(out, seen),
    ensures
        ({
            let (kept, s, _) = absorb_upto(items, stop_ids, seen, window, items.len() as int);
            &&& ids_distinct(out + kept)
            &&& all_seen(out + kept, s)
            &&& forall|i: int| 0 <= i < kept.len() ==> !stop_ids.contains(#[trigger] kept[i].external_id@)
        }),
{
    lemma_absorb_keeps_walk_invariant(items, stop_ids, seen, window, out, items.len() as int);
}

} // verus!
