//! The page tree: category routing, week pages and item titles.

use vstd::prelude::*;
use crate::text::{
    ascii_lower, chars_of, collapse_chars, collapse_ws, concat, eq_ignore_ascii_case,
    eq_ignore_ascii_case_exec, list_contains, lit, lowercase, lowercase_chars, push_lit,
    string_of, string_views, strings_of, take_chars, take_prefix, trim, trim_chars, views,
};
use crate::num::{dec_chars, dec_string};

verus! {

/// Where an item goes in the tree, why, and whether its category is new.
#[derive(Debug, Clone)]
pub struct CategoryRouteDecision {
    pub category: String,
    pub reason: Option<String>,
    pub created_new_custom_category: bool,
}

/// The key under which a category name is compared.
pub open spec fn node_key(s: Seq<char>) -> Seq<char> {
    lowercase(trim(s))
}

pub fn normalize_key(input: &str) -> (r: String)
    ensures
        r@ == node_key(input@),
{
    string_of(&lowercase_chars(&trim_chars(&chars_of(input))))
}

fn node_key_chars(v: &Vec<char>) -> (r: Vec<char>)
    ensures
        r@ == node_key(v@),
{
    lowercase_chars(&trim_chars(v))
}

/// The first-level categories.
pub open spec fn default_categories() -> Seq<Seq<char>> {
    seq!["学习"@, "工作"@, "生活"@, "健康"@, "财务"@, "灵感"@, "Inbox"@]
}

pub fn default_category_strings() -> (r: Vec<String>)
    ensures
        string_views(r@) == default_categories(),
{
    let mut v: Vec<Vec<char>> = Vec::new();
    push_lit(&mut v, "学习");
    push_lit(&mut v, "工作");
    push_lit(&mut v, "生活");
    push_lit(&mut v, "健康");
    push_lit(&mut v, "财务");
    push_lit(&mut v, "灵感");
    push_lit(&mut v, "Inbox");
    proof {
        assert(views(v@) =~= default_categories());
    }
    crate::text::strings_of(&v)
}

/// The first default category equal to `label` ignoring ASCII case.
pub open spec fn find_default(defaults: Seq<Seq<char>>, label: Seq<char>) -> Option<Seq<char>>
    decreases defaults.len(),
{
    if defaults.len() == 0 {
        None
    } else if eq_ignore_ascii_case(defaults[0], label) {
        Some(defaults[0])
    } else {
        find_default(defaults.drop_first(), label)
    }
}

/// The default category of the first label that names one.
pub open spec fn first_default_match(labels: Seq<Seq<char>>, defaults: Seq<Seq<char>>) -> Option<
    Seq<char>,
>
    decreases labels.len(),
{
    if labels.len() == 0 {
        None
    } else {
        match find_default(defaults, labels[0]) {
            Some(d) => Some(d),
            None => first_default_match(labels.drop_first(), defaults),
        }
    }
}

/// The first default category whose key is `key`.
pub open spec fn find_default_by_key(defaults: Seq<Seq<char>>, key: Seq<char>) -> Option<Seq<char>>
    decreases defaults.len(),
{
    if defaults.len() == 0 {
        None
    } else if node_key(defaults[0]) == key {
        Some(defaults[0])
    } else {
        find_default_by_key(defaults.drop_first(), key)
    }
}

/// The category that an item without a default match falls back to: its
/// first label, unless that is blank, else the unknown category.
pub open spec fn fallback_category(labels: Seq<Seq<char>>, unknown: Seq<char>) -> Seq<char> {
    if labels.len() > 0 && trim(labels[0]).len() > 0 {
        labels[0]
    } else {
        unknown
    }
}

/// The routing decision, as (category, reason, whether a custom category is
/// created).
pub open spec fn route_decision(
    labels: Seq<Seq<char>>,
    confident: bool,
    unknown: Seq<char>,
    defaults: Seq<Seq<char>>,
    known_custom: Seq<Seq<char>>,
    growth_limit: u32,
) -> (Seq<char>, Option<Seq<char>>, bool) {
    let fallback = fallback_category(labels, unknown);
    let fkey = node_key(fallback);
    if !confident {
        (unknown, Some("low_confidence"@), false)
    } else if first_default_match(labels, defaults) is Some {
        (first_default_match(labels, defaults)->0, None, false)
    } else if fkey == node_key(unknown) || fkey.len() == 0 {
        (unknown, None, false)
    } else if find_default_by_key(defaults, fkey) is Some {
        (find_default_by_key(defaults, fkey)->0, None, false)
    } else if growth_limit == 0 {
        (unknown, Some("growth_limit_exceeded"@), false)
    } else if known_custom.contains(fkey) {
        (fallback, None, false)
    } else if known_custom.len() >= growth_limit {
        (unknown, Some("growth_limit_exceeded"@), false)
    } else {
        (fallback, None, true)
    }
}

/// Custom categories never outgrow their limit: a custom category is
/// created only below the limit, for a key that is not yet known, so the
/// known keys grown by it stay within the limit; a limit of zero creates
/// none, and an item routed with too little confidence goes to the unknown
/// category.
pub proof fn law_custom_categories_within_limit(
    labels: Seq<Seq<char>>,
    confident: bool,
    unknown: Seq<char>,
    defaults: Seq<Seq<char>>,
    known_custom: Seq<Seq<char>>,
    growth_limit: u32,
)
    requires
        known_custom.len() <= growth_limit,
    ensures
        ({
            let (category, reason, created) = route_decision(
                labels,
                confident,
                unknown,
                defaults,
                known_custom,
                growth_limit,
            );
            &&& created ==> known_custom.len() < growth_limit && !known_custom.contains(
                node_key(category),
            ) && known_custom.push(node_key(category)).len() <= growth_limit
            &&& growth_limit == 0 ==> !created
            &&& !confident ==> category == unknown && !created
        }),
{
}

/// The first default category that `label` names, ignoring ASCII case, is
/// one of the defaults.
proof fn lemma_find_default_in(defaults: Seq<Seq<char>>, label: Seq<char>)
    ensures
        find_default(defaults, label) matches Some(d) ==> defaults.contains(d),
    decreases defaults.len(),
{
    if defaults.len() > 0 && !eq_ignore_ascii_case(defaults[0], label) {
        lemma_find_default_in(defaults.drop_first(), label);
        if let Some(d) = find_default(defaults.drop_first(), label) {
            let k = choose|k: int| 0 <= k < defaults.drop_first().len() && defaults.drop_first()[k] == d;
            assert(defaults[k + 1] == d);
        }
    } else if defaults.len() > 0 {
        assert(defaults[0] == defaults[0]);
    }
}

proof fn lemma_first_default_in(labels: Seq<Seq<char>>, defaults: Seq<Seq<char>>)
    ensures
        first_default_match(labels, defaults) matches Some(d) ==> defaults.contains(d),
    decreases labels.len(),
{
    if labels.len() > 0 {
        lemma_find_default_in(defaults, labels[0]);
        lemma_first_default_in(labels.drop_first(), defaults);
    }
}

proof fn lemma_find_default_by_key_in(defaults: Seq<Seq<char>>, key: Seq<char>)
    ensures
        find_default_by_key(defaults, key) matches Some(d) ==> defaults.contains(d),
    decreases defaults.len(),
{
    if defaults.len() > 0 && node_key(defaults[0]) != key {
        lemma_find_default_by_key_in(defaults.drop_first(), key);
        if let Some(d) = find_default_by_key(defaults.drop_first(), key) {
            let k = choose|k: int| 0 <= k < defaults.drop_first().len() && defaults.drop_first()[k] == d;
            assert(defaults[k + 1] == d);
        }
    } else if defaults.len() > 0 {
        assert(defaults[0] == defaults[0]);
    }
}

/// Where an item can go: to the unknown category, to one of the default
/// categories, or to its own first label; a reason is given only with the
/// unknown category, and a new custom category is created only for the
/// item's own first label.
pub proof fn law_route_targets(
    labels: Seq<Seq<char>>,
    confident: bool,
    unknown: Seq<char>,
    defaults: Seq<Seq<char>>,
    known_custom: Seq<Seq<char>>,
    growth_limit: u32,
)
    ensures
        ({
            let (category, reason, created) = route_decision(
                labels,
                confident,
                unknown,
                defaults,
                known_custom,
                growth_limit,
            );
            &&& category == unknown || defaults.contains(category) || (labels.len() > 0
                && category == labels[0])
            &&& reason is Some ==> category == unknown
            &&& created ==> labels.len() > 0 && category == labels[0]
        }),
{
    lemma_first_default_in(labels, defaults);
    lemma_find_default_by_key_in(defaults, node_key(fallback_category(labels, unknown)));
}

/// A label that names no default category, used as the item's category:
/// once its key is among the known custom categories, items with it keep
/// going to it, with no reason and nothing created, whatever the number of
/// known custom categories (the limit only has to allow custom categories
/// at all). A new key is created as a custom category while the known ones
/// are below the limit, and sends the item to the unknown category with
/// `growth_limit_exceeded` once they reach it.
pub proof fn law_custom_label_routing(
    labels: Seq<Seq<char>>,
    unknown: Seq<char>,
    defaults: Seq<Seq<char>>,
    known_custom: Seq<Seq<char>>,
    growth_limit: u32,
)
    requires
        labels.len() > 0,
        trim(labels[0]).len() > 0,
        first_default_match(labels, defaults) is None,
        node_key(labels[0]).len() > 0,
        node_key(labels[0]) != node_key(unknown),
        find_default_by_key(defaults, node_key(labels[0])) is None,
    ensures
        ({
            let key = node_key(labels[0]);
            let d = route_decision(labels, true, unknown, defaults, known_custom, growth_limit);
            &&& growth_limit > 0 && known_custom.contains(key) ==> d == (labels[0], None::<Seq<char>>, false)
            &&& growth_limit > 0 && !known_custom.contains(key) && known_custom.len() < growth_limit
                ==> d == (labels[0], None::<Seq<char>>, true)
            &&& growth_limit == 0 || (!known_custom.contains(key) && known_custom.len()
                >= growth_limit) ==> d == (unknown, Some("growth_limit_exceeded"@), false)
        }),
{
}

pub open spec fn decision_view(d: CategoryRouteDecision) -> (Seq<char>, Option<Seq<char>>, bool) {
    (
        d.category@,
        match d.reason {
            Some(r) => Some(r@),
            None => None,
        },
        d.created_new_custom_category,
    )
}

fn find_default_exec(defaults: &Vec<Vec<char>>, label: &Vec<char>) -> (r: Option<usize>)
    ensures
        match r {
            Some(k) => k < defaults@.len() && find_default(views(defaults@), label@) == Some(
                defaults@[k as int]@,
            ),
            None => find_default(views(defaults@), label@) is None,
        },
{
    let mut k: usize = 0;
    proof {
        assert(views(defaults@).skip(0) =~= views(defaults@));
    }
    while k < defaults.len()
        invariant
            k <= defaults.len(),
            find_default(views(defaults@), label@) == find_default(
                views(defaults@).skip(k as int),
                label@,
            ),
        decreases defaults.len() - k,
    {
        proof {
            assert(views(defaults@).skip(k as int).drop_first() =~= views(defaults@).skip(k + 1));
            assert(views(defaults@).skip(k as int)[0] == defaults@[k as int]@);
        }
        if eq_ignore_ascii_case_exec(&defaults[k], label) {
            return Some(k);
        }
        k = k + 1;
    }
    None
}

fn find_default_by_key_exec(defaults: &Vec<Vec<char>>, key: &Vec<char>) -> (r: Option<usize>)
    ensures
        match r {
            Some(k) => k < defaults@.len() && find_default_by_key(views(defaults@), key@) == Some(
                defaults@[k as int]@,
            ),
            None => find_default_by_key(views(defaults@), key@) is None,
        },
{
    let mut k: usize = 0;
    proof {
        assert(views(defaults@).skip(0) =~= views(defaults@));
    }
    while k < defaults.len()
        invariant
            k <= defaults.len(),
            find_default_by_key(views(defaults@), key@) == find_default_by_key(
                views(defaults@).skip(k as int),
                key@,
            ),
        decreases defaults.len() - k,
    {
        proof {
            assert(views(defaults@).skip(k as int).drop_first() =~= views(defaults@).skip(k + 1));
            assert(views(defaults@).skip(k as int)[0] == defaults@[k as int]@);
        }
        if crate::text::chars_eq(&node_key_chars(&defaults[k]), key) {
            return Some(k);
        }
        k = k + 1;
    }
    None
}

fn decision(category: Vec<char>, reason: Option<&str>, created: bool) -> (r: CategoryRouteDecision)
    ensures
        decision_view(r) == (category@, match reason {
            Some(s) => Some(s@),
            None => None,
        }, created),
{
    CategoryRouteDecision {
        category: string_of(&category),
        reason: match reason {
            Some(s) => Some(crate::text::str_to_string(s)),
            None => None,
        },
        created_new_custom_category: created,
    }
}

/// Routes an item to a category. `meets_min_confidence` says whether the
/// classification's confidence reached the routing threshold; the custom
/// categories already known are given by their keys, without repeats.
pub fn route_category_with_growth_limit(
    labels: &Vec<String>,
    meets_min_confidence: bool,
    unknown_category: &str,
    default_categories: &Vec<String>,
    known_custom_categories: &Vec<String>,
    category_growth_limit: u32,
) -> (r: CategoryRouteDecision)
    ensures
        decision_view(r) == route_decision(
            string_views(labels@),
            meets_min_confidence,
            unknown_category@,
            string_views(default_categories@),
            string_views(known_custom_categories@),
            category_growth_limit,
        ),
{
    let unknown = chars_of(unknown_category);
    if !meets_min_confidence {
        return decision(unknown, Some("low_confidence"), false);
    }
    let ls = crate::text::chars_list(labels);
    let ds = crate::text::chars_list(default_categories);
    let ks = crate::text::chars_list(known_custom_categories);
    let ghost lv = views(ls@);
    let mut i: usize = 0;
    proof {
        assert(lv.skip(0) =~= lv);
    }
    while i < ls.len()
        invariant
            i <= ls.len(),
            lv == views(ls@),
            lv == string_views(labels@),
            views(ds@) == string_views(default_categories@),
            meets_min_confidence,
            first_default_match(lv, views(ds@)) == first_default_match(lv.skip(i as int), views(ds@)),
        decreases ls.len() - i,
    {
        proof {
            assert(lv.skip(i as int).drop_first() =~= lv.skip(i + 1));
            assert(lv.skip(i as int)[0] == ls@[i as int]@);
        }
        match find_default_exec(&ds, &ls[i]) {
            Some(k) => {
                proof {
                    let sk = lv.skip(i as int);
                    assert(sk.len() > 0);
                    assert(find_default(views(ds@), sk[0]) == Some(ds@[k as int]@));
                    assert(first_default_match(sk, views(ds@)) == Some(ds@[k as int]@));
                }
                return decision(crate::text::copy_chars(&ds[k]), None, false);
            },
            None => {},
        }
        i = i + 1;
    }
    let fallback = if ls.len() > 0 && trim_chars(&ls[0]).len() > 0 {
        proof {
            assert(lv[0] == ls@[0]@);
        }
        crate::text::copy_chars(&ls[0])
    } else {
        proof {
            if ls.len() > 0 {
                assert(lv[0] == ls@[0]@);
            }
        }
        crate::text::copy_chars(&unknown)
    };
    let fkey = node_key_chars(&fallback);
    if crate::text::chars_eq(&fkey, &node_key_chars(&unknown)) || fkey.len() == 0 {
        return decision(unknown, None, false);
    }
    match find_default_by_key_exec(&ds, &fkey) {
        Some(k) => {
            return decision(crate::text::copy_chars(&ds[k]), None, false);
        },
        None => {},
    }
    if category_growth_limit == 0 {
        return decision(unknown, Some("growth_limit_exceeded"), false);
    }
    if list_contains(&ks, &fkey) {
        return decision(fallback, None, false);
    }
    if known_custom_categories.len() >= category_growth_limit as usize {
        return decision(unknown, Some("growth_limit_exceeded"), false);
    }
    decision(fallback, None, true)
}

/// A title with white space collapsed, cut to 80 characters, or `Untitled`.
pub open spec fn clean_title(title: Seq<char>) -> Seq<char> {
    let compact = trim(collapse_ws(title));
    if compact.len() == 0 {
        "Untitled"@
    } else {
        take_chars(compact, 80)
    }
}

pub fn clean_item_title(title: &str) -> (r: String)
    ensures
        r@ == clean_title(title@),
{
    let compact = trim_chars(&collapse_chars(&chars_of(title)));
    if compact.len() == 0 {
        return crate::text::str_to_string("Untitled");
    }
    string_of(&take_prefix(&compact, 80))
}

// ── Weeks ───────────────────────────────────────────────────────────────────

/// The ISO week-numbering year and week of the instant `secs` (seconds since
/// the Unix epoch) in the time zone named `tz`, when chrono-tz knows that
/// name.
pub uninterp spec fn zone_iso_week(secs: int, tz: Seq<char>) -> Option<(i32, u32)>;

/// The ISO year and week of an instant in a named time zone (chrono-tz's
/// `Tz::from_str`, then chrono's `with_timezone` and `iso_week`). `None`
/// when the name is not a known zone, and also for an instant outside
/// chrono's range, which no `DateTime` holds.
#[verifier::external_body]
fn iso_week_in_zone(secs: i64, tz: &str) -> (r: Option<(i32, u32)>)
    ensures
        r == zone_iso_week(secs as int, tz@),
{
    let zone: chrono_tz::Tz = tz.parse().ok()?;
    let local = chrono::DateTime::from_timestamp(secs, 0)?.with_timezone(&zone);
    let iso = chrono::Datelike::iso_week(&local);
    Some((iso.year(), iso.week()))
}

/// A number written with at least two digits (`{:02}`).
pub open spec fn two_digits(n: nat) -> Seq<char> {
    if n < 10 {
        seq!['0'] + dec_string(n)
    } else {
        dec_string(n)
    }
}

/// A year as `{}` writes it.
pub open spec fn year_text(y: i32) -> Seq<char> {
    if y < 0 {
        seq!['-'] + dec_string((-y) as nat)
    } else {
        dec_string(y as nat)
    }
}

/// The week's key `YYYY-Www` and its title `YYYY年第ww周`.
pub open spec fn week_texts(year: i32, week: u32) -> (Seq<char>, Seq<char>) {
    (
        year_text(year) + "-W"@ + two_digits(week as nat),
        year_text(year) + "年第"@ + two_digits(week as nat) + "周"@,
    )
}

fn two_digits_exec(n: u32) -> (r: Vec<char>)
    ensures
        r@ == two_digits(n as nat),
{
    if n < 10 {
        let mut z: Vec<char> = Vec::new();
        z.push('0');
        proof {
            assert(z@ =~= seq!['0']);
        }
        concat(&z, &dec_chars(n as u64))
    } else {
        dec_chars(n as u64)
    }
}

fn year_text_exec(y: i32) -> (r: Vec<char>)
    ensures
        r@ == year_text(y),
{
    if y < 0 {
        let mut m: Vec<char> = Vec::new();
        m.push('-');
        proof {
            assert(m@ =~= seq!['-']);
        }
        let abs: u64 = (-(y as i64)) as u64;
        concat(&m, &dec_chars(abs))
    } else {
        dec_chars(y as u64)
    }
}

/// `invalid timezone: {tz}` with the name trimmed.
pub open spec fn invalid_timezone_message(tz: Seq<char>) -> Seq<char> {
    "invalid timezone: "@ + trim(tz)
}

/// The key and title of the week page for an instant, or an error when the
/// time zone is not known.
pub fn week_key_and_title(ts_utc_secs: i64, timezone: &str) -> (r: Result<(String, String), String>)
    ensures
        match zone_iso_week(ts_utc_secs as int, timezone@) {
            Some((y, w)) => r matches Ok((k, t)) && (k@, t@) == week_texts(y, w),
            None => r matches Err(e) && e@ == invalid_timezone_message(timezone@),
        },
{
    match iso_week_in_zone(ts_utc_secs, timezone) {
        Some((year, week)) => {
            let y = year_text_exec(year);
            let w = two_digits_exec(week);
            let key = concat(&concat(&y, &lit("-W")), &w);
            let title = concat(&concat(&concat(&y, &lit("年第")), &w), &lit("周"));
            Ok((string_of(&key), string_of(&title)))
        },
        None => Err(string_of(&concat(&lit("invalid timezone: "), &trim_chars(&chars_of(timezone))))),
    }
}

// ── The instant an item was published ──────────────────────────────────────

/// The instant, in whole seconds since the epoch, that an RFC 3339 date and
/// time names.
pub uninterp spec fn rfc3339_seconds(s: Seq<char>) -> Option<i64>;

/// The instant, in whole seconds since the epoch, of a date and time without
/// zone read with `fmt` and taken as UTC.
pub uninterp spec fn naive_utc_seconds(s: Seq<char>, fmt: Seq<char>) -> Option<i64>;

/// chrono's `DateTime::parse_from_rfc3339`, then `timestamp`: the claim is
/// only that the result is a function of the text, `None` where chrono
/// refuses it.
#[verifier::external_body]
fn rfc3339_to_seconds(s: &str) -> (r: Option<i64>)
    ensures
        r == rfc3339_seconds(s@),
{
    match chrono::DateTime::parse_from_rfc3339(s) {
        Ok(dt) => Some(dt.timestamp()),
        Err(_) => None,
    }
}

/// chrono's `NaiveDateTime::parse_from_str`, then `and_utc().timestamp()`:
/// the claim is only that the result is a function of the text and the
/// format, `None` where chrono refuses the text.
#[verifier::external_body]
fn naive_to_utc_seconds(s: &str, fmt: &str) -> (r: Option<i64>)
    ensures
        r == naive_utc_seconds(s@, fmt@),
{
    match chrono::NaiveDateTime::parse_from_str(s, fmt) {
        Ok(n) => Some(n.and_utc().timestamp()),
        Err(_) => None,
    }
}

/// The publication time of an item: its trimmed text read as RFC 3339, or
/// else as `%Y-%m-%d %H:%M:%S` in Shanghai time (UTC+8); nothing for an
/// empty or unreadable text.
pub open spec fn published_instant(raw: Option<Seq<char>>) -> Option<i64> {
    match raw {
        None => None,
        Some(s) => {
            let v = trim(s);
            if v.len() == 0 {
                None
            } else {
                match rfc3339_seconds(v) {
                    Some(t) => Some(t),
                    None => match naive_utc_seconds(v, "%Y-%m-%d %H:%M:%S"@) {
                        Some(n) => if n - 28800 >= i64::MIN {
                            Some((n - 28800) as i64)
                        } else {
                            None
                        },
                        None => None,
                    },
                }
            }
        },
    }
}

pub open spec fn opt_str_view(o: Option<&str>) -> Option<Seq<char>> {
    match o {
        Some(s) => Some(s@),
        None => None,
    }
}

pub fn parse_published_at(raw: Option<&str>) -> (r: Option<i64>)
    ensures
        r == published_instant(opt_str_view(raw)),
{
    match raw {
        None => None,
        Some(s) => {
            let t = trim_chars(&chars_of(s));
            if t.len() == 0 {
                return None;
            }
            let v = string_of(&t);
            match rfc3339_to_seconds(v.as_str()) {
                Some(t) => Some(t),
                None => match naive_to_utc_seconds(v.as_str(), "%Y-%m-%d %H:%M:%S") {
                    Some(n) => n.checked_sub(28800),
                    None => None,
                },
            }
        },
    }
}

/// The week page of an item: that of its publication time, or of `now_secs`
/// when it has none that can be read.
pub fn item_week_key_and_title(published_at: Option<&str>, now_secs: i64, timezone: &str) -> (r: Result<(String, String), String>)
    ensures
        ({
            let ts = match published_instant(opt_str_view(published_at)) {
                Some(t) => t,
                None => now_secs,
            };
            match zone_iso_week(ts as int, timezone@) {
                Some((y, w)) => r matches Ok((k, t)) && (k@, t@) == week_texts(y, w),
                None => r matches Err(e) && e@ == invalid_timezone_message(timezone@),
            }
        }),
{
    let ts = match parse_published_at(published_at) {
        Some(t) => t,
        None => now_secs,
    };
    week_key_and_title(ts, timezone)
}

// ── Custom categories ───────────────────────────────────────────────────────

/// The keys of the names that are custom categories: neither the unknown
/// category nor a default one (by key), each once, in first-seen order.
pub open spec fn custom_keys(names: Seq<Seq<char>>, defaults: Seq<Seq<char>>, unknown: Seq<char>) -> Seq<
    Seq<char>,
>
    decreases names.len(),
{
    if names.len() == 0 {
        Seq::empty()
    } else {
        let prev = custom_keys(names.drop_last(), defaults, unknown);
        let k = node_key(names.last());
        if k != node_key(unknown) && find_default_by_key(defaults, k) is None && !prev.contains(k) {
            prev.push(k)
        } else {
            prev
        }
    }
}

/// The custom categories already in the tree, from the keys stored for the
/// root's category nodes and the titles of the root's child pages.
pub fn custom_category_keys(names: &Vec<String>, defaults: &Vec<String>, unknown: &str) -> (r: Vec<
    String,
>)
    ensures
        string_views(r@) == custom_keys(string_views(names@), string_views(defaults@), unknown@),
{
    let ns = crate::text::chars_list(names);
    let ds = crate::text::chars_list(defaults);
    let unknown_key = node_key_chars(&chars_of(unknown));
    let ghost nv = views(ns@);
    let mut acc: Vec<Vec<char>> = Vec::new();
    let mut i: usize = 0;
    while i < ns.len()
        invariant
            i <= ns.len(),
            nv == views(ns@),
            nv == string_views(names@),
            views(ds@) == string_views(defaults@),
            unknown_key@ == node_key(unknown@),
            views(acc@) == custom_keys(nv.take(i as int), views(ds@), unknown@),
        decreases ns.len() - i,
    {
        proof {
            assert(nv.take(i + 1).drop_last() =~= nv.take(i as int));
            assert(nv.take(i + 1).last() == ns@[i as int]@);
        }
        let k = node_key_chars(&ns[i]);
        if !crate::text::chars_eq(&k, &unknown_key) && find_default_by_key_exec(&ds, &k).is_none()
            && !list_contains(&acc, &k) {
            let ghost before = views(acc@);
            acc.push(k);
            proof {
                assert(views(acc@) =~= before.push(k@));
            }
        }
        i = i + 1;
    }
    proof {
        assert(nv.take(ns.len() as int) =~= nv);
    }
    strings_of(&acc)
}

/// Routing with no custom category allowed.
pub fn route_category(
    labels: &Vec<String>,
    meets_min_confidence: bool,
    unknown_category: &str,
    default_categories: &Vec<String>,
) -> (r: CategoryRouteDecision)
    ensures
        decision_view(r) == route_decision(
            string_views(labels@),
            meets_min_confidence,
            unknown_category@,
            string_views(default_categories@),
            Seq::empty(),
            0,
        ),
{
    let none: Vec<String> = Vec::new();
    proof {
        assert(string_views(none@) =~= Seq::<Seq<char>>::empty());
    }
    route_category_with_growth_limit(
        labels,
        meets_min_confidence,
        unknown_category,
        default_categories,
        &none,
        0,
    )
}

} // verus!
