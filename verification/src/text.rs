//! Character-level text primitives shared by every module: whitespace,
//! trimming, word splitting, joining, truncation and substring search.
//! Strings are modelled by their views, sequences of `char`.

use vstd::prelude::*;

verus! {

/// The Unicode `White_Space` property, which `char::is_whitespace` tests.
pub open spec fn is_ws(c: char) -> bool {
    ||| ('\u{9}' <= c && c <= '\u{d}')
    ||| c == ' '
    ||| c == '\u{85}'
    ||| c == '\u{a0}'
    ||| c == '\u{1680}'
    ||| ('\u{2000}' <= c && c <= '\u{200a}')
    ||| c == '\u{2028}'
    ||| c == '\u{2029}'
    ||| c == '\u{202f}'
    ||| c == '\u{205f}'
    ||| c == '\u{3000}'
}

/// Whether `c` is white space in the sense of `char::is_whitespace`.
pub fn is_whitespace(c: char) -> (b: bool)
    ensures
        b == is_ws(c),
{
    ('\u{9}' <= c && c <= '\u{d}') || c == ' ' || c == '\u{85}' || c == '\u{a0}' || c
        == '\u{1680}' || ('\u{2000}' <= c && c <= '\u{200a}') || c == '\u{2028}' || c
        == '\u{2029}' || c == '\u{202f}' || c == '\u{205f}' || c == '\u{3000}'
}

// ── Specifications ──────────────────────────────────────────────────────────

/// `s` without the leading characters that satisfy `p`.
pub open spec fn trim_start_by(s: Seq<char>, p: spec_fn(char) -> bool) -> Seq<char>
    decreases s.len(),
{
    if s.len() > 0 && p(s[0]) {
        trim_start_by(s.drop_first(), p)
    } else {
        s
    }
}

/// `s` without the trailing characters that satisfy `p`.
pub open spec fn trim_end_by(s: Seq<char>, p: spec_fn(char) -> bool) -> Seq<char>
    decreases s.len(),
{
    if s.len() > 0 && p(s.last()) {
        trim_end_by(s.drop_last(), p)
    } else {
        s
    }
}

/// `s` without the characters that satisfy `p` at either end.
pub open spec fn trim_by(s: Seq<char>, p: spec_fn(char) -> bool) -> Seq<char> {
    trim_end_by(trim_start_by(s, p), p)
}

pub open spec fn ws_pred() -> spec_fn(char) -> bool {
    |c: char| is_ws(c)
}

/// `str::trim_start`.
pub open spec fn trim_start(s: Seq<char>) -> Seq<char> {
    trim_start_by(s, ws_pred())
}

/// `str::trim_end`.
pub open spec fn trim_end(s: Seq<char>) -> Seq<char> {
    trim_end_by(s, ws_pred())
}

/// `str::trim`: no white space at either end.
pub open spec fn trim(s: Seq<char>) -> Seq<char> {
    trim_by(s, ws_pred())
}

/// The state of `split_whitespace` after reading `s`: the words completed so
/// far and the word being read.
pub open spec fn split_state(s: Seq<char>) -> (Seq<Seq<char>>, Seq<char>)
    decreases s.len(),
{
    if s.len() == 0 {
        (Seq::empty(), Seq::empty())
    } else {
        let (done, cur) = split_state(s.drop_last());
        if is_ws(s.last()) {
            if cur.len() > 0 {
                (done.push(cur), Seq::empty())
            } else {
                (done, cur)
            }
        } else {
            (done, cur.push(s.last()))
        }
    }
}

/// `str::split_whitespace`: the maximal runs of non-white-space characters.
pub open spec fn words(s: Seq<char>) -> Seq<Seq<char>> {
    let (done, cur) = split_state(s);
    if cur.len() > 0 {
        done.push(cur)
    } else {
        done
    }
}

/// `parts.join(sep)`.
pub open spec fn join(parts: Seq<Seq<char>>, sep: Seq<char>) -> Seq<char>
    decreases parts.len(),
{
    if parts.len() == 0 {
        Seq::empty()
    } else if parts.len() == 1 {
        parts[0]
    } else {
        join(parts.drop_last(), sep) + sep + parts.last()
    }
}

/// `s.split_whitespace().collect::<Vec<_>>().join(" ")`: every run of white
/// space becomes one space, and none is left at either end.
pub open spec fn collapse_ws(s: Seq<char>) -> Seq<char> {
    join(words(s), seq![' '])
}

/// `s.chars().take(n)`.
pub open spec fn take_chars(s: Seq<char>, n: int) -> Seq<char> {
    if n < s.len() {
        s.take(n)
    } else {
        s
    }
}

/// `needle` occurs in `hay` starting at position `i`.
pub open spec fn occurs_at(hay: Seq<char>, needle: Seq<char>, i: int) -> bool {
    0 <= i && i + needle.len() <= hay.len() && hay.subrange(i, i + needle.len()) == needle
}

/// `str::contains` with a string pattern.
pub open spec fn contains(hay: Seq<char>, needle: Seq<char>) -> bool {
    exists|i: int| occurs_at(hay, needle, i)
}

/// `str::starts_with` with a string pattern.
pub open spec fn starts_with(s: Seq<char>, p: Seq<char>) -> bool {
    p.len() <= s.len() && s.take(p.len() as int) == p
}

/// `str::ends_with` with a string pattern.
pub open spec fn ends_with(s: Seq<char>, p: Seq<char>) -> bool {
    p.len() <= s.len() && s.skip(s.len() - p.len()) == p
}

/// `char::to_ascii_lowercase`.
pub open spec fn ascii_lower_char(c: char) -> char {
    if 'A' <= c && c <= 'Z' {
        ((c as int) + 32) as char
    } else {
        c
    }
}

/// `str::to_ascii_lowercase`.
pub open spec fn ascii_lower(s: Seq<char>) -> Seq<char> {
    s.map_values(|c: char| ascii_lower_char(c))
}

/// `s.replace(from, to)` for single characters.
pub open spec fn replace_char(s: Seq<char>, from: char, to: char) -> Seq<char> {
    s.map_values(|c: char| if c == from { to } else { c })
}

/// The number of bytes of `c` in UTF-8 (`char::len_utf8`).
pub open spec fn utf8_len(c: char) -> nat {
    if (c as u32) < 0x80 {
        1
    } else if (c as u32) < 0x800 {
        2
    } else if (c as u32) < 0x10000 {
        3
    } else {
        4
    }
}

/// The number of bytes of `s` in UTF-8 (`str::len`).
pub open spec fn byte_len(s: Seq<char>) -> nat
    decreases s.len(),
{
    if s.len() == 0 {
        0
    } else {
        byte_len(s.drop_last()) + utf8_len(s.last())
    }
}

/// The views of a sequence of character vectors.
pub open spec fn views(v: Seq<Vec<char>>) -> Seq<Seq<char>> {
    v.map_values(|w: Vec<char>| w@)
}

/// The views of a sequence of strings.
pub open spec fn string_views(v: Seq<String>) -> Seq<Seq<char>> {
    v.map_values(|w: String| w@)
}

// ── Lemmas ──────────────────────────────────────────────────────────────────

pub proof fn lemma_take_succ(s: Seq<char>, i: int)
    requires
        0 <= i < s.len(),
    ensures
        s.take(i + 1).drop_last() == s.take(i),
        s.take(i + 1).last() == s[i],
        s.take(i + 1).len() == i + 1,
{
    assert(s.take(i + 1).drop_last() =~= s.take(i));
}

pub proof fn lemma_skip_succ(s: Seq<char>, i: int)
    requires
        0 <= i < s.len(),
    ensures
        s.skip(i).drop_first() == s.skip(i + 1),
        s.skip(i)[0] == s[i],
{
    assert(s.skip(i).drop_first() =~= s.skip(i + 1));
}

/// Trimming both ends does not depend on the order.
pub proof fn lemma_trim_start_end_by(s: Seq<char>, p: spec_fn(char) -> bool)
    ensures
        trim_start_by(trim_end_by(s, p), p) == trim_end_by(trim_start_by(s, p), p),
    decreases s.len(),
{
    if s.len() > 0 && p(s[0]) {
        if s.len() > 0 && p(s.last()) {
            if s.len() == 1 {
                assert(s.drop_first() =~= s.drop_last());
                assert(trim_end_by(s.drop_last(), p) == s.drop_last());
                assert(trim_start_by(s.drop_first(), p) == s.drop_first());
            } else {
                assert(s.drop_last()[0] == s[0]);
                assert(s.drop_first().last() == s.last());
                assert(s.drop_last().drop_first() =~= s.drop_first().drop_last());
                lemma_trim_start_end_by(s.drop_first().drop_last(), p);
                lemma_trim_start_end_by(s.drop_first(), p);
                lemma_trim_start_end_by(s.drop_last(), p);
            }
        } else {
            if s.len() > 1 {
                assert(s.drop_first().last() == s.last());
            }
            lemma_trim_start_end_by(s.drop_first(), p);
        }
    } else {
        if s.len() > 0 && p(s.last()) {
            if s.len() > 1 {
                assert(s.drop_last()[0] == s[0]);
            }
            lemma_trim_start_end_by(s.drop_last(), p);
        }
    }
}

// ── Conversions ─────────────────────────────────────────────────────────────

/// Appends one character to a string (`String::push`).
#[verifier::external_body]
fn string_push(s: &mut String, c: char)
    ensures
        final(s)@ == old(s)@.push(c),
{
    s.push(c);
}

/// The characters of `s`, in order.
pub fn chars_of(s: &str) -> (v: Vec<char>)
    ensures
        v@ == s@,
{
    let mut v: Vec<char> = Vec::new();
    for c in it: s.chars()
        invariant
            v@ == it.seq().take(it.index() as int),
    {
        v.push(c);
    }
    v
}

/// The string made of the characters of `v`.
pub fn string_of(v: &Vec<char>) -> (s: String)
    ensures
        s@ == v@,
{
    let mut s = String::new();
    let mut i: usize = 0;
    while i < v.len()
        invariant
            i <= v.len(),
            s@ == v@.take(i as int),
        decreases v.len() - i,
    {
        proof {
            lemma_take_succ(v@, i as int);
        }
        string_push(&mut s, v[i]);
        i = i + 1;
        proof {
            assert(s@ =~= v@.take(i as int));
        }
    }
    proof {
        assert(v@.take(v.len() as int) =~= v@);
    }
    s
}

/// An owned copy of `s`.
pub fn str_to_string(s: &str) -> (r: String)
    ensures
        r@ == s@,
{
    s.to_owned()
}

/// The characters of `a` followed by those of `b`.
pub fn concat(a: &Vec<char>, b: &Vec<char>) -> (r: Vec<char>)
    ensures
        r@ == a@ + b@,
{
    let mut r = a.clone();
    let mut i: usize = 0;
    while i < b.len()
        invariant
            i <= b.len(),
            r@ == a@ + b@.take(i as int),
        decreases b.len() - i,
    {
        proof {
            lemma_take_succ(b@, i as int);
        }
        r.push(b[i]);
        i = i + 1;
        proof {
            assert(r@ =~= a@ + b@.take(i as int));
        }
    }
    proof {
        assert(b@.take(b.len() as int) =~= b@);
    }
    r
}

/// Whether two character sequences are equal.
pub fn chars_eq(a: &Vec<char>, b: &Vec<char>) -> (r: bool)
    ensures
        r == (a@ == b@),
{
    if a.len() != b.len() {
        return false;
    }
    let mut i: usize = 0;
    while i < a.len()
        invariant
            i <= a.len(),
            a.len() == b.len(),
            forall|k: int| 0 <= k < i ==> a@[k] == b@[k],
        decreases a.len() - i,
    {
        if a[i] != b[i] {
            return false;
        }
        i = i + 1;
    }
    proof {
        assert(a@ =~= b@);
    }
    true
}

// ── Trimming ────────────────────────────────────────────────────────────────

/// The index of the first character of `v` from `from` on that is not white
/// space, and that `trim_start` of the rest begins there.
fn skip_ws_from(v: &Vec<char>, from: usize) -> (k: usize)
    requires
        from <= v.len(),
    ensures
        from <= k <= v.len(),
        trim_start(v@.skip(from as int)) == v@.skip(k as int),
{
    let mut k = from;
    while k < v.len() && is_whitespace(v[k])
        invariant
            from <= k <= v.len(),
            trim_start(v@.skip(from as int)) == trim_start(v@.skip(k as int)),
        decreases v.len() - k,
    {
        proof {
            lemma_skip_succ(v@, k as int);
        }
        k = k + 1;
    }
    proof {
        if k < v.len() {
            assert(v@.skip(k as int)[0] == v@[k as int]);
        }
    }
    k
}

/// `v` without white space at either end.
pub fn trim_chars(v: &Vec<char>) -> (r: Vec<char>)
    ensures
        r@ == trim(v@),
{
    let k = skip_ws_from(v, 0);
    proof {
        assert(v@.skip(0) =~= v@);
    }
    let mut end = v.len();
    while end > k && is_whitespace(v[end - 1])
        invariant
            k <= end <= v.len(),
            trim(v@) == trim_end(v@.subrange(k as int, end as int)),
        decreases end,
    {
        proof {
            let s = v@.subrange(k as int, end as int);
            assert(s.last() == v@[end - 1]);
            assert(s.drop_last() =~= v@.subrange(k as int, end - 1));
        }
        end = end - 1;
    }
    let mut r: Vec<char> = Vec::new();
    let mut i = k;
    while i < end
        invariant
            k <= i <= end,
            end <= v.len(),
            r@ == v@.subrange(k as int, i as int),
        decreases end - i,
    {
        r.push(v[i]);
        i = i + 1;
        proof {
            assert(r@ =~= v@.subrange(k as int, i as int));
        }
    }
    proof {
        let s = v@.subrange(k as int, end as int);
        if end > k {
            assert(s.last() == v@[end - 1]);
        }
    }
    r
}

/// `s.trim()`.
pub fn trim_str(s: &str) -> (r: Vec<char>)
    ensures
        r@ == trim(s@),
{
    let v = chars_of(s);
    trim_chars(&v)
}

// ── Words ───────────────────────────────────────────────────────────────────

/// `split_whitespace` over `v`.
pub fn words_of(v: &Vec<char>) -> (out: Vec<Vec<char>>)
    ensures
        views(out@) == words(v@),
{
    let mut done: Vec<Vec<char>> = Vec::new();
    let mut cur: Vec<char> = Vec::new();
    let mut i: usize = 0;
    while i < v.len()
        invariant
            i <= v.len(),
            (views(done@), cur@) == split_state(v@.take(i as int)),
        decreases v.len() - i,
    {
        proof {
            lemma_take_succ(v@, i as int);
        }
        let c = v[i];
        if is_whitespace(c) {
            if cur.len() > 0 {
                let ghost old_done = done@;
                done.push(cur);
                cur = Vec::new();
                proof {
                    assert(views(done@) =~= views(old_done).push(done@.last()@));
                }
            }
        } else {
            cur.push(c);
        }
        i = i + 1;
    }
    proof {
        assert(v@.take(v.len() as int) =~= v@);
    }
    if cur.len() > 0 {
        let ghost old_done = done@;
        done.push(cur);
        proof {
            assert(views(done@) =~= views(old_done).push(done@.last()@));
        }
    }
    done
}

/// `parts.join(sep)`.
pub fn join_chars(parts: &Vec<Vec<char>>, sep: &Vec<char>) -> (r: Vec<char>)
    ensures
        r@ == join(views(parts@), sep@),
{
    let mut r: Vec<char> = Vec::new();
    let mut i: usize = 0;
    while i < parts.len()
        invariant
            i <= parts.len(),
            r@ == join(views(parts@).take(i as int), sep@),
        decreases parts.len() - i,
    {
        let ghost ps = views(parts@);
        proof {
            assert(ps.take(i + 1).drop_last() =~= ps.take(i as int));
            assert(ps.take(i + 1).last() == parts@[i as int]@);
        }
        if i > 0 {
            r = concat(&r, sep);
        }
        r = concat(&r, &parts[i]);
        i = i + 1;
        proof {
            if i == 1 {
                assert(ps.take(1)[0] == parts@[0]@);
                assert(r@ =~= ps.take(1)[0]);
            }
        }
    }
    proof {
        assert(views(parts@).take(parts.len() as int) =~= views(parts@));
    }
    r
}

/// `v.split_whitespace().collect::<Vec<_>>().join(" ")`.
pub fn collapse_chars(v: &Vec<char>) -> (r: Vec<char>)
    ensures
        r@ == collapse_ws(v@),
{
    let ws = words_of(v);
    let mut sep: Vec<char> = Vec::new();
    sep.push(' ');
    proof {
        assert(sep@ =~= seq![' ']);
    }
    join_chars(&ws, &sep)
}

/// A word as `split_whitespace` yields it: not empty, no white space.
pub open spec fn is_word(w: Seq<char>) -> bool {
    w.len() > 0 && no_ws(w)
}

pub open spec fn no_ws(w: Seq<char>) -> bool {
    forall|j: int| 0 <= j < w.len() ==> !is_ws(#[trigger] w[j])
}

pub open spec fn all_words(ws: Seq<Seq<char>>) -> bool {
    forall|i: int| 0 <= i < ws.len() ==> is_word(#[trigger] ws[i])
}

/// Reading the words so far keeps every completed word a word and the one
/// being read free of white space.
pub proof fn lemma_split_state_words(s: Seq<char>)
    ensures
        all_words(split_state(s).0),
        no_ws(split_state(s).1),
    decreases s.len(),
{
    if s.len() > 0 {
        lemma_split_state_words(s.drop_last());
        let (done, cur) = split_state(s.drop_last());
        if !is_ws(s.last()) {
            assert forall|j: int| 0 <= j < cur.push(s.last()).len() implies !is_ws(
                #[trigger] cur.push(s.last())[j],
            ) by {
                if j < cur.len() {
                    assert(cur.push(s.last())[j] == cur[j]);
                }
            }
        } else if cur.len() > 0 {
            assert forall|i: int| 0 <= i < done.push(cur).len() implies is_word(
                #[trigger] done.push(cur)[i],
            ) by {
                if i < done.len() {
                    assert(done.push(cur)[i] == done[i]);
                }
            }
        }
    }
}

/// The words of a text are words.
pub proof fn lemma_words_are_words(s: Seq<char>)
    ensures
        all_words(words(s)),
{
    lemma_split_state_words(s);
    let (done, cur) = split_state(s);
    if cur.len() > 0 {
        assert forall|i: int| 0 <= i < done.push(cur).len() implies is_word(
            #[trigger] done.push(cur)[i],
        ) by {
            if i < done.len() {
                assert(done.push(cur)[i] == done[i]);
            }
        }
    }
}

/// Reading a word after `p` extends the word being read by it.
pub proof fn lemma_split_state_append_word(p: Seq<char>, w: Seq<char>)
    requires
        no_ws(w),
    ensures
        split_state(p + w) == (split_state(p).0, split_state(p).1 + w),
    decreases w.len(),
{
    if w.len() == 0 {
        assert(p + w =~= p);
        assert(split_state(p).1 + w =~= split_state(p).1);
    } else {
        let w0 = w.drop_last();
        assert forall|j: int| 0 <= j < w0.len() implies !is_ws(#[trigger] w0[j]) by {
            assert(w0[j] == w[j]);
        }
        lemma_split_state_append_word(p, w0);
        assert((p + w).drop_last() =~= p + w0);
        assert((p + w).last() == w[w.len() - 1]);
        assert((split_state(p).1 + w0).push(w.last()) =~= split_state(p).1 + w);
    }
}

/// The words joined by single spaces: everything but the last word is
/// completed, the last is being read.
pub proof fn lemma_split_state_of_join(ws: Seq<Seq<char>>)
    requires
        ws.len() > 0,
        all_words(ws),
    ensures
        split_state(join(ws, seq![' '])) == (ws.drop_last(), ws.last()),
    decreases ws.len(),
{
    if ws.len() == 1 {
        assert(is_word(ws[0]));
        lemma_split_state_append_word(Seq::empty(), ws[0]);
        assert(Seq::<char>::empty() + ws[0] =~= ws[0]);
        assert(ws.drop_last() =~= Seq::<Seq<char>>::empty());
    } else {
        let front = ws.drop_last();
        assert forall|i: int| 0 <= i < front.len() implies is_word(#[trigger] front[i]) by {
            assert(front[i] == ws[i]);
        }
        lemma_split_state_of_join(front);
        let p = join(front, seq![' ']);
        let q = p + seq![' '];
        assert(q.drop_last() =~= p);
        assert(q.last() == ' ');
        assert(is_word(front[front.len() - 1]));
        assert(front.drop_last().push(front.last()) =~= front);
        assert(split_state(q) == (front, Seq::<char>::empty()));
        assert(is_word(ws[ws.len() - 1]));
        lemma_split_state_append_word(q, ws.last());
        assert(Seq::<char>::empty() + ws.last() =~= ws.last());
        assert(join(ws, seq![' ']) == q + ws.last());
    }
}

/// Splitting words joined by single spaces gives the words back.
pub proof fn lemma_words_of_join(ws: Seq<Seq<char>>)
    requires
        all_words(ws),
    ensures
        words(join(ws, seq![' '])) == ws,
{
    if ws.len() > 0 {
        lemma_split_state_of_join(ws);
        assert(is_word(ws[ws.len() - 1]));
        assert(ws.drop_last().push(ws.last()) =~= ws);
    } else {
        assert(join(ws, seq![' ']) =~= Seq::<char>::empty());
        assert(words(Seq::<char>::empty()) =~= ws);
    }
}

/// Collapsing white space twice is collapsing it once.
pub proof fn lemma_collapse_ws_idempotent(s: Seq<char>)
    ensures
        collapse_ws(collapse_ws(s)) == collapse_ws(s),
{
    lemma_words_are_words(s);
    lemma_words_of_join(words(s));
}

// ── Prefixes and search ─────────────────────────────────────────────────────

/// `v.iter().take(n)`.
pub fn take_prefix(v: &Vec<char>, n: usize) -> (r: Vec<char>)
    ensures
        r@ == take_chars(v@, n as int),
{
    let mut r: Vec<char> = Vec::new();
    let mut i: usize = 0;
    while i < v.len() && i < n
        invariant
            i <= v.len(),
            i <= n,
            r@ == v@.take(i as int),
        decreases v.len() - i,
    {
        proof {
            lemma_take_succ(v@, i as int);
        }
        r.push(v[i]);
        i = i + 1;
        proof {
            assert(r@ =~= v@.take(i as int));
        }
    }
    proof {
        if i == v.len() {
            assert(v@.take(i as int) =~= v@);
        }
    }
    r
}

/// Whether `needle` occurs in `hay` at position `i`.
pub fn occurs_at_exec(hay: &Vec<char>, needle: &Vec<char>, i: usize) -> (r: bool)
    ensures
        r == occurs_at(hay@, needle@, i as int),
{
    if i > hay.len() || needle.len() > hay.len() - i {
        return false;
    }
    let mut k: usize = 0;
    while k < needle.len()
        invariant
            k <= needle.len(),
            i + needle.len() <= hay.len(),
            forall|j: int| 0 <= j < k ==> hay@[i + j] == needle@[j],
        decreases needle.len() - k,
    {
        if hay[i + k] != needle[k] {
            proof {
                assert(hay@.subrange(i as int, i + needle.len())[k as int] != needle@[k as int]);
            }
            return false;
        }
        k = k + 1;
    }
    proof {
        assert(hay@.subrange(i as int, i + needle.len()) =~= needle@);
    }
    true
}

/// The first position at which `needle` occurs in `hay`, from `from` on.
pub fn find_from(hay: &Vec<char>, needle: &Vec<char>, from: usize) -> (r: Option<usize>)
    ensures
        match r {
            Some(i) => from <= i && occurs_at(hay@, needle@, i as int) && forall|j: int|
                from <= j < i ==> !occurs_at(hay@, needle@, j),
            None => forall|j: int| from <= j ==> !occurs_at(hay@, needle@, j),
        },
{
    if needle.len() > hay.len() {
        return None;
    }
    let last = hay.len() - needle.len();
    let mut i = from;
    while i <= last
        invariant
            from <= i,
            last == hay.len() - needle.len(),
            forall|j: int| from <= j < i ==> !occurs_at(hay@, needle@, j),
        decreases last + 1 - i,
    {
        if occurs_at_exec(hay, needle, i) {
            return Some(i);
        }
        if i == last {
            return None;
        }
        i = i + 1;
    }
    None
}

/// `hay.contains(needle)`.
pub fn contains_chars(hay: &Vec<char>, needle: &Vec<char>) -> (r: bool)
    ensures
        r == contains(hay@, needle@),
{
    match find_from(hay, needle, 0) {
        Some(_) => true,
        None => {
            proof {
                assert forall|j: int| !occurs_at(hay@, needle@, j) by {
                    if j < 0 {
                    }
                }
            }
            false
        },
    }
}

/// `s.contains(p)` for a string pattern.
pub fn str_contains(s: &str, p: &str) -> (r: bool)
    ensures
        r == contains(s@, p@),
{
    let h = chars_of(s);
    let n = chars_of(p);
    contains_chars(&h, &n)
}

/// `s.starts_with(p)`.
pub fn starts_with_chars(s: &Vec<char>, p: &Vec<char>) -> (r: bool)
    ensures
        r == starts_with(s@, p@),
{
    let r = occurs_at_exec(s, p, 0);
    proof {
        if p@.len() <= s@.len() {
            assert(s@.subrange(0, p@.len() as int) =~= s@.take(p@.len() as int));
        }
    }
    r
}

/// `s.ends_with(p)`.
pub fn ends_with_chars(s: &Vec<char>, p: &Vec<char>) -> (r: bool)
    ensures
        r == ends_with(s@, p@),
{
    if p.len() > s.len() {
        return false;
    }
    let r = occurs_at_exec(s, p, s.len() - p.len());
    proof {
        assert(s@.subrange(s@.len() - p@.len(), s@.len() as int) =~= s@.skip(
            s@.len() - p@.len(),
        ));
    }
    r
}

// ── Case ────────────────────────────────────────────────────────────────────

/// `c.to_ascii_lowercase()`.
pub fn ascii_lower_char_exec(c: char) -> (r: char)
    ensures
        r == ascii_lower_char(c),
{
    match c {
        'A' => 'a',
        'B' => 'b',
        'C' => 'c',
        'D' => 'd',
        'E' => 'e',
        'F' => 'f',
        'G' => 'g',
        'H' => 'h',
        'I' => 'i',
        'J' => 'j',
        'K' => 'k',
        'L' => 'l',
        'M' => 'm',
        'N' => 'n',
        'O' => 'o',
        'P' => 'p',
        'Q' => 'q',
        'R' => 'r',
        'S' => 's',
        'T' => 't',
        'U' => 'u',
        'V' => 'v',
        'W' => 'w',
        'X' => 'x',
        'Y' => 'y',
        'Z' => 'z',
        _ => c,
    }
}

// ── Lower case (Unicode) ────────────────────────────────────────────────────

/// What `str::to_lowercase` gives for a string with these characters.
pub uninterp spec fn lowercase(s: Seq<char>) -> Seq<char>;

/// `str::to_lowercase`, the full Unicode lower-case mapping.
#[verifier::external_body]
pub fn to_lowercase(s: &str) -> (r: String)
    ensures
        r@ == lowercase(s@),
{
    s.to_lowercase()
}

/// `to_lowercase` over a character vector.
pub fn lowercase_chars(v: &Vec<char>) -> (r: Vec<char>)
    ensures
        r@ == lowercase(v@),
{
    let s = string_of(v);
    let l = to_lowercase(s.as_str());
    chars_of(l.as_str())
}

/// `s.to_ascii_lowercase()`.
pub fn ascii_lower_chars(v: &Vec<char>) -> (r: Vec<char>)
    ensures
        r@ == ascii_lower(v@),
{
    let mut r: Vec<char> = Vec::new();
    let mut i: usize = 0;
    while i < v.len()
        invariant
            i <= v.len(),
            r@ == ascii_lower(v@.take(i as int)),
        decreases v.len() - i,
    {
        r.push(ascii_lower_char_exec(v[i]));
        i = i + 1;
        proof {
            assert(r@ =~= ascii_lower(v@.take(i as int)));
        }
    }
    proof {
        assert(v@.take(v.len() as int) =~= v@);
    }
    r
}

/// `a.eq_ignore_ascii_case(b)`.
pub open spec fn eq_ignore_ascii_case(a: Seq<char>, b: Seq<char>) -> bool {
    ascii_lower(a) == ascii_lower(b)
}

pub fn eq_ignore_ascii_case_exec(a: &Vec<char>, b: &Vec<char>) -> (r: bool)
    ensures
        r == eq_ignore_ascii_case(a@, b@),
{
    let la = ascii_lower_chars(a);
    let lb = ascii_lower_chars(b);
    chars_eq(&la, &lb)
}

/// `s.replace(from, to)` for single characters.
pub fn replace_char_exec(v: &Vec<char>, from: char, to: char) -> (r: Vec<char>)
    ensures
        r@ == replace_char(v@, from, to),
{
    let mut r: Vec<char> = Vec::new();
    let mut i: usize = 0;
    while i < v.len()
        invariant
            i <= v.len(),
            r@ == replace_char(v@.take(i as int), from, to),
        decreases v.len() - i,
    {
        let c = v[i];
        if c == from {
            r.push(to);
        } else {
            r.push(c);
        }
        i = i + 1;
        proof {
            assert(r@ =~= replace_char(v@.take(i as int), from, to));
        }
    }
    proof {
        assert(v@.take(v.len() as int) =~= v@);
    }
    r
}

// ── Order ───────────────────────────────────────────────────────────────────

/// The lexicographic order of strings (`<` on `str`, which compares the UTF-8
/// bytes and so the characters).
pub open spec fn seq_lt(a: Seq<char>, b: Seq<char>) -> bool
    decreases a.len(),
{
    if a.len() == 0 {
        b.len() > 0
    } else if b.len() == 0 {
        false
    } else if a[0] < b[0] {
        true
    } else if a[0] == b[0] {
        seq_lt(a.drop_first(), b.drop_first())
    } else {
        false
    }
}

/// `a <= b` for strings.
pub open spec fn seq_le(a: Seq<char>, b: Seq<char>) -> bool {
    seq_lt(a, b) || a == b
}

pub proof fn lemma_seq_lt_irreflexive(a: Seq<char>)
    ensures
        !seq_lt(a, a),
    decreases a.len(),
{
    if a.len() > 0 {
        lemma_seq_lt_irreflexive(a.drop_first());
    }
}

pub proof fn lemma_seq_lt_transitive(a: Seq<char>, b: Seq<char>, c: Seq<char>)
    requires
        seq_lt(a, b),
        seq_lt(b, c),
    ensures
        seq_lt(a, c),
    decreases a.len(),
{
    if a.len() > 0 && b.len() > 0 && c.len() > 0 {
        if a[0] == b[0] && b[0] == c[0] {
            lemma_seq_lt_transitive(a.drop_first(), b.drop_first(), c.drop_first());
        }
    }
}

pub proof fn lemma_seq_lt_total(a: Seq<char>, b: Seq<char>)
    ensures
        seq_lt(a, b) || seq_lt(b, a) || a == b,
    decreases a.len(),
{
    if a.len() > 0 && b.len() > 0 {
        if a[0] == b[0] {
            lemma_seq_lt_total(a.drop_first(), b.drop_first());
            if a.drop_first() == b.drop_first() {
                assert(a =~= seq![a[0]] + a.drop_first());
                assert(b =~= seq![b[0]] + b.drop_first());
            }
        }
    } else if a.len() == 0 && b.len() == 0 {
        assert(a =~= b);
    }
}

pub proof fn lemma_seq_lt_asymmetric(a: Seq<char>, b: Seq<char>)
    requires
        seq_lt(a, b),
    ensures
        !seq_lt(b, a),
        a != b,
    decreases a.len(),
{
    if a.len() > 0 && b.len() > 0 && a[0] == b[0] {
        lemma_seq_lt_asymmetric(a.drop_first(), b.drop_first());
    }
    if a == b {
        lemma_seq_lt_irreflexive(a);
    }
}

/// `a < b` for strings.
pub fn seq_lt_exec(a: &Vec<char>, b: &Vec<char>) -> (r: bool)
    ensures
        r == seq_lt(a@, b@),
{
    let mut i: usize = 0;
    proof {
        assert(a@.skip(0) =~= a@);
        assert(b@.skip(0) =~= b@);
    }
    while i < a.len() && i < b.len() && a[i] == b[i]
        invariant
            i <= a.len(),
            i <= b.len(),
            seq_lt(a@, b@) == seq_lt(a@.skip(i as int), b@.skip(i as int)),
        decreases a.len() - i,
    {
        proof {
            lemma_skip_succ(a@, i as int);
            lemma_skip_succ(b@, i as int);
        }
        i = i + 1;
    }
    proof {
        if i < a.len() {
            assert(a@.skip(i as int)[0] == a@[i as int]);
        }
        if i < b.len() {
            assert(b@.skip(i as int)[0] == b@[i as int]);
        }
    }
    if i == a.len() {
        i < b.len()
    } else if i == b.len() {
        false
    } else {
        a[i] < b[i]
    }
}

// ── Byte lengths ────────────────────────────────────────────────────────────

pub fn utf8_len_exec(c: char) -> (n: usize)
    ensures
        n == utf8_len(c),
        1 <= n <= 4,
{
    let u = c as u32;
    if u < 0x80 {
        1
    } else if u < 0x800 {
        2
    } else if u < 0x10000 {
        3
    } else {
        4
    }
}

/// Whether byte `n` of the UTF-8 encoding of `s` begins a character or ends
/// the string (`str::is_char_boundary`).
pub open spec fn is_boundary(s: Seq<char>, n: nat) -> bool {
    exists|k: int| 0 <= k <= s.len() && byte_len(s.take(k)) == n
}

/// The characters that make up the first `n` bytes of `s`, when byte `n` is a
/// boundary (`&s[..n]`).
pub open spec fn byte_prefix(s: Seq<char>, n: nat) -> Seq<char> {
    s.take(choose|k: int| 0 <= k <= s.len() && byte_len(s.take(k)) == n)
}

pub proof fn lemma_byte_len_take_succ(s: Seq<char>, k: int)
    requires
        0 <= k < s.len(),
    ensures
        byte_len(s.take(k + 1)) == byte_len(s.take(k)) + utf8_len(s[k]),
{
    assert(s.take(k + 1).drop_last() =~= s.take(k));
}

pub proof fn lemma_byte_len_take_strict(s: Seq<char>, j: int, k: int)
    requires
        0 <= j < k <= s.len(),
    ensures
        byte_len(s.take(j)) < byte_len(s.take(k)),
    decreases k - j,
{
    lemma_byte_len_take_succ(s, k - 1);
    if j < k - 1 {
        lemma_byte_len_take_strict(s, j, k - 1);
    }
}

/// Whether `v` takes more than `n` bytes in UTF-8.
pub fn byte_len_exceeds(v: &Vec<char>, n: usize) -> (r: bool)
    ensures
        r == (byte_len(v@) > n),
{
    let mut acc: usize = 0;
    let mut k: usize = 0;
    while k < v.len()
        invariant
            k <= v.len(),
            acc == byte_len(v@.take(k as int)),
            acc <= n,
        decreases v.len() - k,
    {
        proof {
            lemma_byte_len_take_succ(v@, k as int);
        }
        let l = utf8_len_exec(v[k]);
        if l > n - acc {
            proof {
                if k + 1 < v.len() {
                    lemma_byte_len_take_strict(v@, k + 1, v.len() as int);
                }
                assert(v@.take(v.len() as int) =~= v@);
            }
            return true;
        }
        acc = acc + l;
        k = k + 1;
    }
    proof {
        assert(v@.take(v.len() as int) =~= v@);
    }
    false
}

/// The characters of the first `n` bytes of `v`, or `None` when byte `n` is
/// not a boundary or lies past the end.
pub fn byte_prefix_exec(v: &Vec<char>, n: usize) -> (r: Option<Vec<char>>)
    ensures
        match r {
            Some(p) => is_boundary(v@, n as nat) && p@ == byte_prefix(v@, n as nat),
            None => !is_boundary(v@, n as nat),
        },
{
    let mut acc: usize = 0;
    let mut k: usize = 0;
    while k < v.len() && acc < n
        invariant
            k <= v.len(),
            acc == byte_len(v@.take(k as int)),
            acc <= n,
        decreases v.len() - k,
    {
        proof {
            lemma_byte_len_take_succ(v@, k as int);
        }
        let l = utf8_len_exec(v[k]);
        if l > n - acc {
            proof {
                assert forall|j: int| 0 <= j <= v@.len() implies byte_len(v@.take(j)) != n by {
                    if j <= k {
                        if j < k {
                            lemma_byte_len_take_strict(v@, j, k as int);
                        }
                    } else if j > k + 1 {
                        lemma_byte_len_take_strict(v@, k + 1, j);
                    }
                }
            }
            return None;
        }
        acc = acc + l;
        k = k + 1;
    }
    if acc == n {
        proof {
            assert forall|j: int| 0 <= j <= v@.len() && byte_len(v@.take(j)) == n implies j
                == k by {
                if j < k {
                    lemma_byte_len_take_strict(v@, j, k as int);
                } else if j > k {
                    lemma_byte_len_take_strict(v@, k as int, j);
                }
            }
            assert(byte_len(v@.take(k as int)) == n);
        }
        Some(take_prefix(v, k))
    } else {
        proof {
            assert(k == v.len());
            assert forall|j: int| 0 <= j <= v@.len() implies byte_len(v@.take(j)) != n by {
                if j < k {
                    lemma_byte_len_take_strict(v@, j, k as int);
                }
            }
        }
        None
    }
}

// ── Character sets ──────────────────────────────────────────────────────────

/// Membership in the characters of `set`.
pub open spec fn in_set(set: Seq<char>) -> spec_fn(char) -> bool {
    |c: char| set.contains(c)
}

pub fn set_contains(set: &Vec<char>, c: char) -> (r: bool)
    ensures
        r == set@.contains(c),
{
    let mut i: usize = 0;
    while i < set.len()
        invariant
            i <= set.len(),
            forall|j: int| 0 <= j < i ==> set@[j] != c,
        decreases set.len() - i,
    {
        if set[i] == c {
            return true;
        }
        i = i + 1;
    }
    false
}

/// `v.trim_matches(|c| set.contains(c))`.
pub fn trim_set(v: &Vec<char>, set: &Vec<char>) -> (r: Vec<char>)
    ensures
        r@ == trim_by(v@, in_set(set@)),
{
    let mut k: usize = 0;
    proof {
        assert(v@.skip(0) =~= v@);
    }
    while k < v.len() && set_contains(set, v[k])
        invariant
            k <= v.len(),
            trim_start_by(v@, in_set(set@)) == trim_start_by(v@.skip(k as int), in_set(set@)),
        decreases v.len() - k,
    {
        proof {
            lemma_skip_succ(v@, k as int);
            assert(set@.contains(v@[k as int]));
        }
        k = k + 1;
    }
    proof {
        if k < v.len() {
            assert(v@.skip(k as int)[0] == v@[k as int]);
            assert(!set@.contains(v@[k as int]));
        }
        assert(v@.skip(k as int) =~= v@.subrange(k as int, v.len() as int));
    }
    let mut end = v.len();
    while end > k && set_contains(set, v[end - 1])
        invariant
            k <= end <= v.len(),
            trim_by(v@, in_set(set@)) == trim_end_by(v@.subrange(k as int, end as int), in_set(set@)),
        decreases end,
    {
        proof {
            let s = v@.subrange(k as int, end as int);
            assert(s.last() == v@[end - 1]);
            assert(set@.contains(v@[end - 1]));
            assert(s.drop_last() =~= v@.subrange(k as int, end - 1));
        }
        end = end - 1;
    }
    let mut r: Vec<char> = Vec::new();
    let mut i = k;
    while i < end
        invariant
            k <= i <= end,
            end <= v.len(),
            r@ == v@.subrange(k as int, i as int),
        decreases end - i,
    {
        r.push(v[i]);
        i = i + 1;
        proof {
            assert(r@ =~= v@.subrange(k as int, i as int));
        }
    }
    proof {
        let s = v@.subrange(k as int, end as int);
        if end > k {
            assert(s.last() == v@[end - 1]);
            assert(!set@.contains(v@[end - 1]));
        }
    }
    r
}

/// The position of the first `c` in `s`, or the length of `s` when there is
/// none.
pub open spec fn index_of_char(s: Seq<char>, c: char) -> int
    decreases s.len(),
{
    if s.len() == 0 {
        0
    } else if s[0] == c {
        0
    } else {
        1 + index_of_char(s.drop_first(), c)
    }
}

/// The part of `s` before its first `c` (`s.split(c).next()`).
pub open spec fn before_char(s: Seq<char>, c: char) -> Seq<char> {
    s.take(index_of_char(s, c))
}

pub proof fn lemma_index_of_char_bounds(s: Seq<char>, c: char)
    ensures
        0 <= index_of_char(s, c) <= s.len(),
        index_of_char(s, c) < s.len() ==> s[index_of_char(s, c)] == c,
        forall|j: int| 0 <= j < index_of_char(s, c) ==> s[j] != c,
    decreases s.len(),
{
    if s.len() > 0 && s[0] != c {
        lemma_index_of_char_bounds(s.drop_first(), c);
        assert forall|j: int| 0 <= j < index_of_char(s, c) implies s[j] != c by {
            if j > 0 {
                assert(s[j] == s.drop_first()[j - 1]);
            }
        }
    }
}

pub fn index_of_char_exec(v: &Vec<char>, c: char) -> (i: usize)
    ensures
        i == index_of_char(v@, c),
{
    let mut i: usize = 0;
    proof {
        assert(v@.skip(0) =~= v@);
    }
    while i < v.len() && v[i] != c
        invariant
            i <= v.len(),
            index_of_char(v@, c) == i + index_of_char(v@.skip(i as int), c),
        decreases v.len() - i,
    {
        proof {
            lemma_skip_succ(v@, i as int);
        }
        i = i + 1;
    }
    proof {
        if i < v.len() {
            assert(v@.skip(i as int)[0] == v@[i as int]);
        }
    }
    i
}

/// `s.split(c).next()`: the part of `v` before its first `c`.
pub fn before_char_exec(v: &Vec<char>, c: char) -> (r: Vec<char>)
    ensures
        r@ == before_char(v@, c),
{
    let i = index_of_char_exec(v, c);
    proof {
        lemma_index_of_char_bounds(v@, c);
    }
    take_prefix(v, i)
}

/// A character vector holding the characters of a literal.
pub fn lit(s: &str) -> (r: Vec<char>)
    ensures
        r@ == s@,
{
    chars_of(s)
}

/// `a == b` for strings.
pub fn str_eq(a: &str, b: &str) -> (r: bool)
    ensures
        r == (a@ == b@),
{
    chars_eq(&chars_of(a), &chars_of(b))
}

/// Some string of `list` occurs in `hay`.
pub open spec fn contains_any(hay: Seq<char>, list: Seq<Seq<char>>) -> bool {
    exists|k: int| 0 <= k < list.len() && contains(hay, #[trigger] list[k])
}

pub fn contains_any_exec(hay: &Vec<char>, list: &Vec<Vec<char>>) -> (r: bool)
    ensures
        r == contains_any(hay@, views(list@)),
{
    let mut k: usize = 0;
    while k < list.len()
        invariant
            k <= list.len(),
            forall|j: int| 0 <= j < k ==> !contains(hay@, #[trigger] views(list@)[j]),
        decreases list.len() - k,
    {
        proof {
            assert(views(list@)[k as int] == list@[k as int]@);
        }
        if contains_chars(hay, &list[k]) {
            return true;
        }
        k = k + 1;
    }
    false
}

/// Whether `list` holds a string equal to `x`.
pub fn list_contains(list: &Vec<Vec<char>>, x: &Vec<char>) -> (r: bool)
    ensures
        r == views(list@).contains(x@),
{
    let mut k: usize = 0;
    while k < list.len()
        invariant
            k <= list.len(),
            forall|j: int| 0 <= j < k ==> views(list@)[j] != x@,
        decreases list.len() - k,
    {
        proof {
            assert(views(list@)[k as int] == list@[k as int]@);
        }
        if chars_eq(&list[k], x) {
            return true;
        }
        k = k + 1;
    }
    false
}

/// `s.split(|c| p(c))`: the pieces between separators, empty ones included.
pub open spec fn split_by(s: Seq<char>, p: spec_fn(char) -> bool) -> Seq<Seq<char>>
    decreases s.len(),
{
    if s.len() == 0 {
        seq![Seq::empty()]
    } else {
        let prev = split_by(s.drop_last(), p);
        if p(s.last()) {
            prev.push(Seq::empty())
        } else {
            prev.update(prev.len() - 1, prev.last().push(s.last()))
        }
    }
}

pub proof fn lemma_split_by_nonempty(s: Seq<char>, p: spec_fn(char) -> bool)
    ensures
        split_by(s, p).len() >= 1,
    decreases s.len(),
{
    if s.len() > 0 {
        lemma_split_by_nonempty(s.drop_last(), p);
    }
}

/// `v.split(|c| set.contains(c))`.
pub fn split_set(v: &Vec<char>, set: &Vec<char>) -> (r: Vec<Vec<char>>)
    ensures
        views(r@) == split_by(v@, in_set(set@)),
{
    let mut done: Vec<Vec<char>> = Vec::new();
    let mut cur: Vec<char> = Vec::new();
    let mut i: usize = 0;
    while i < v.len()
        invariant
            i <= v.len(),
            views(done@).push(cur@) == split_by(v@.take(i as int), in_set(set@)),
        decreases v.len() - i,
    {
        proof {
            lemma_take_succ(v@, i as int);
            lemma_split_by_nonempty(v@.take(i as int), in_set(set@));
        }
        let ghost prev = views(done@).push(cur@);
        let c = v[i];
        if set_contains(set, c) {
            let ghost old_done = done@;
            done.push(cur);
            cur = Vec::new();
            proof {
                assert(views(done@) =~= views(old_done).push(done@.last()@));
            }
        } else {
            cur.push(c);
        }
        i = i + 1;
        proof {
            assert(views(done@).push(cur@) =~= split_by(v@.take(i as int), in_set(set@)));
        }
    }
    proof {
        assert(v@.take(v.len() as int) =~= v@);
    }
    let ghost old_done = done@;
    done.push(cur);
    proof {
        assert(views(done@) =~= views(old_done).push(done@.last()@));
    }
    done
}

/// Appends the characters of `s` to a list of strings.
pub fn push_lit(list: &mut Vec<Vec<char>>, s: &str)
    ensures
        views(final(list)@) == views(old(list)@).push(s@),
{
    let ghost before = list@;
    list.push(chars_of(s));
    proof {
        assert(views(list@) =~= views(before).push(s@));
    }
}

/// The strings of a list, as character vectors.
pub fn chars_list(v: &Vec<String>) -> (r: Vec<Vec<char>>)
    ensures
        views(r@) == string_views(v@),
{
    let mut r: Vec<Vec<char>> = Vec::new();
    let mut i: usize = 0;
    while i < v.len()
        invariant
            i <= v.len(),
            views(r@) == string_views(v@).take(i as int),
        decreases v.len() - i,
    {
        let ghost before = r@;
        r.push(chars_of(v[i].as_str()));
        proof {
            assert(string_views(v@)[i as int] == v@[i as int]@);
            assert(views(r@) =~= views(before).push(v@[i as int]@));
            assert(string_views(v@).take(i + 1) =~= string_views(v@).take(i as int).push(
                v@[i as int]@,
            ));
        }
        i = i + 1;
    }
    proof {
        assert(string_views(v@).take(v.len() as int) =~= string_views(v@));
    }
    r
}

/// Character vectors as strings.
pub fn strings_of(v: &Vec<Vec<char>>) -> (r: Vec<String>)
    ensures
        string_views(r@) == views(v@),
{
    let mut r: Vec<String> = Vec::new();
    let mut i: usize = 0;
    while i < v.len()
        invariant
            i <= v.len(),
            string_views(r@) == views(v@).take(i as int),
        decreases v.len() - i,
    {
        let ghost old_r = r@;
        let s = string_of(&v[i]);
        r.push(s);
        proof {
            assert(views(v@)[i as int] == v@[i as int]@);
            assert(string_views(r@) =~= string_views(old_r).push(s@));
            assert(views(v@).take(i + 1) =~= views(v@).take(i as int).push(v@[i as int]@));
        }
        i = i + 1;
    }
    proof {
        assert(views(v@).take(v.len() as int) =~= views(v@));
    }
    r
}

/// What one character is replaced by: `to[k]` for the first `k` with
/// `from[k] == c`, else the character itself.
pub open spec fn subst_char(c: char, from: Seq<char>, to: Seq<Seq<char>>) -> Seq<char>
    decreases from.len(),
{
    if from.len() == 0 || to.len() == 0 {
        seq![c]
    } else if from[0] == c {
        to[0]
    } else {
        subst_char(c, from.drop_first(), to.drop_first())
    }
}

/// Every character of `s` replaced as `subst_char` says, all at once.
pub open spec fn subst(s: Seq<char>, from: Seq<char>, to: Seq<Seq<char>>) -> Seq<char>
    decreases s.len(),
{
    if s.len() == 0 {
        Seq::empty()
    } else {
        subst(s.drop_last(), from, to) + subst_char(s.last(), from, to)
    }
}

fn subst_char_exec(c: char, from: &Vec<char>, to: &Vec<Vec<char>>) -> (r: Vec<char>)
    ensures
        r@ == subst_char(c, from@, views(to@)),
{
    let mut k: usize = 0;
    proof {
        assert(from@.skip(0) =~= from@);
        assert(views(to@).skip(0) =~= views(to@));
    }
    while k < from.len() && k < to.len()
        invariant
            k <= from.len(),
            k <= to.len(),
            subst_char(c, from@, views(to@)) == subst_char(
                c,
                from@.skip(k as int),
                views(to@).skip(k as int),
            ),
        decreases from.len() - k,
    {
        proof {
            assert(from@.skip(k as int).drop_first() =~= from@.skip(k + 1));
            assert(views(to@).skip(k as int).drop_first() =~= views(to@).skip(k + 1));
            assert(views(to@).skip(k as int)[0] == to@[k as int]@);
            assert(from@.skip(k as int)[0] == from@[k as int]);
        }
        if from[k] == c {
            return to[k].clone();
        }
        k = k + 1;
    }
    let mut r: Vec<char> = Vec::new();
    r.push(c);
    proof {
        assert(r@ =~= seq![c]);
    }
    r
}

/// Each character replaced by its substitute (a chain of `str::replace`
/// calls for distinct characters whose replacements the later calls do not
/// touch).
pub fn subst_exec(v: &Vec<char>, from: &Vec<char>, to: &Vec<Vec<char>>) -> (r: Vec<char>)
    ensures
        r@ == subst(v@, from@, views(to@)),
{
    let mut r: Vec<char> = Vec::new();
    let mut i: usize = 0;
    while i < v.len()
        invariant
            i <= v.len(),
            r@ == subst(v@.take(i as int), from@, views(to@)),
        decreases v.len() - i,
    {
        proof {
            lemma_take_succ(v@, i as int);
        }
        let piece = subst_char_exec(v[i], from, to);
        r = concat(&r, &piece);
        i = i + 1;
    }
    proof {
        assert(v@.take(v.len() as int) =~= v@);
    }
    r
}

/// Every character is ASCII.
pub open spec fn all_ascii(s: Seq<char>) -> bool {
    forall|i: int| 0 <= i < s.len() ==> (#[trigger] s[i] as u32) < 0x80
}

/// An ASCII string has one byte per character.
pub proof fn lemma_ascii_byte_len(s: Seq<char>)
    requires
        all_ascii(s),
    ensures
        byte_len(s) == s.len(),
    decreases s.len(),
{
    if s.len() > 0 {
        assert(all_ascii(s.drop_last()));
        lemma_ascii_byte_len(s.drop_last());
        assert((s[s.len() - 1] as u32) < 0x80);
    }
}

/// A string with no white space at either end is its own trim.
pub proof fn lemma_trim_noop(s: Seq<char>)
    requires
        s.len() > 0,
        !is_ws(s[0]),
        !is_ws(s.last()),
    ensures
        trim(s) == s,
{
}

/// A copy of `v`.
pub fn copy_chars(v: &Vec<char>) -> (r: Vec<char>)
    ensures
        r@ == v@,
{
    let r = take_prefix(v, v.len());
    proof {
        assert(v@.take(v@.len() as int) =~= v@);
    }
    r
}

pub proof fn lemma_trim_start_by_len(s: Seq<char>, p: spec_fn(char) -> bool)
    ensures
        trim_start_by(s, p).len() <= s.len(),
    decreases s.len(),
{
    if s.len() > 0 && p(s[0]) {
        lemma_trim_start_by_len(s.drop_first(), p);
    }
}

pub proof fn lemma_trim_end_by_len(s: Seq<char>, p: spec_fn(char) -> bool)
    ensures
        trim_end_by(s, p).len() <= s.len(),
    decreases s.len(),
{
    if s.len() > 0 && p(s.last()) {
        lemma_trim_end_by_len(s.drop_last(), p);
    }
}

/// Trimming never lengthens a string.
pub proof fn lemma_trim_by_len(s: Seq<char>, p: spec_fn(char) -> bool)
    ensures
        trim_by(s, p).len() <= s.len(),
{
    lemma_trim_start_by_len(s, p);
    lemma_trim_end_by_len(trim_start_by(s, p), p);
}

/// The pieces trimmed, the empty ones left out, in order.
pub open spec fn kept_trimmed(parts: Seq<Seq<char>>) -> Seq<Seq<char>>
    decreases parts.len(),
{
    if parts.len() == 0 {
        Seq::empty()
    } else {
        let rest = kept_trimmed(parts.drop_last());
        if trim(parts.last()).len() > 0 {
            rest.push(trim(parts.last()))
        } else {
            rest
        }
    }
}

pub fn keep_trimmed(parts: &Vec<Vec<char>>) -> (r: Vec<Vec<char>>)
    ensures
        views(r@) == kept_trimmed(views(parts@)),
{
    let mut r: Vec<Vec<char>> = Vec::new();
    let mut i: usize = 0;
    while i < parts.len()
        invariant
            i <= parts.len(),
            views(r@) == kept_trimmed(views(parts@).take(i as int)),
        decreases parts.len() - i,
    {
        proof {
            assert(views(parts@).take(i + 1).drop_last() =~= views(parts@).take(i as int));
            assert(views(parts@).take(i + 1).last() == parts@[i as int]@);
        }
        let t = trim_chars(&parts[i]);
        if t.len() > 0 {
            let ghost before = r@;
            r.push(t);
            proof {
                assert(views(r@) =~= views(before).push(t@));
            }
        }
        i = i + 1;
    }
    proof {
        assert(views(parts@).take(parts.len() as int) =~= views(parts@));
    }
    r
}

/// The first position, from `i` on, at which `needle` occurs in `hay`.
pub open spec fn find_seq_from(hay: Seq<char>, needle: Seq<char>, i: int) -> Option<int>
    decreases hay.len() + 1 - i,
{
    if i < 0 || i + needle.len() > hay.len() {
        None
    } else if occurs_at(hay, needle, i) {
        Some(i)
    } else {
        find_seq_from(hay, needle, i + 1)
    }
}

/// `str::find` with a string pattern, counted in characters.
pub open spec fn find_seq(hay: Seq<char>, needle: Seq<char>) -> Option<int> {
    find_seq_from(hay, needle, 0)
}

pub proof fn lemma_find_seq_from_bounds(hay: Seq<char>, needle: Seq<char>, i: int)
    ensures
        match find_seq_from(hay, needle, i) {
            Some(k) => i <= k && occurs_at(hay, needle, k),
            None => true,
        },
    decreases hay.len() + 1 - i,
{
    if !(i < 0 || i + needle.len() > hay.len()) && !occurs_at(hay, needle, i) {
        lemma_find_seq_from_bounds(hay, needle, i + 1);
    }
}

/// The first position at which `needle` occurs in `hay`.
pub fn find_exec(hay: &Vec<char>, needle: &Vec<char>) -> (r: Option<usize>)
    ensures
        match r {
            Some(k) => find_seq(hay@, needle@) == Some(k as int),
            None => find_seq(hay@, needle@) is None,
        },
{
    if needle.len() > hay.len() {
        return None;
    }
    let last = hay.len() - needle.len();
    let mut i: usize = 0;
    while i <= last
        invariant
            last + needle.len() == hay.len(),
            find_seq(hay@, needle@) == find_seq_from(hay@, needle@, i as int),
        decreases last + 1 - i,
    {
        if occurs_at_exec(hay, needle, i) {
            return Some(i);
        }
        if i == last {
            proof {
                assert(find_seq_from(hay@, needle@, i + 1) is None);
            }
            return None;
        }
        i = i + 1;
    }
    None
}

/// The position of the last `c` among the first `n` characters of `s`, or -1.
pub open spec fn last_index_of_char(s: Seq<char>, c: char, n: int) -> int
    decreases n,
{
    if n <= 0 {
        -1
    } else if s[n - 1] == c {
        n - 1
    } else {
        last_index_of_char(s, c, n - 1)
    }
}

pub proof fn lemma_last_index_bounds(s: Seq<char>, c: char, n: int)
    requires
        0 <= n <= s.len(),
    ensures
        -1 <= last_index_of_char(s, c, n) < n,
        last_index_of_char(s, c, n) >= 0 ==> s[last_index_of_char(s, c, n)] == c,
    decreases n,
{
    if n > 0 && s[n - 1] != c {
        lemma_last_index_bounds(s, c, n - 1);
    }
}

/// `str::rfind` with a character, counted in characters.
pub fn last_index_of_char_exec(v: &Vec<char>, c: char) -> (r: Option<usize>)
    ensures
        match r {
            Some(k) => last_index_of_char(v@, c, v@.len() as int) == k,
            None => last_index_of_char(v@, c, v@.len() as int) == -1,
        },
{
    let mut n = v.len();
    while n > 0
        invariant
            n <= v.len(),
            last_index_of_char(v@, c, v@.len() as int) == last_index_of_char(v@, c, n as int),
        decreases n,
    {
        if v[n - 1] == c {
            return Some(n - 1);
        }
        n = n - 1;
    }
    None
}

/// The characters of `v` from `a` up to `b` (`&s[a..b]`).
pub fn slice_chars(v: &Vec<char>, a: usize, b: usize) -> (r: Vec<char>)
    requires
        a <= b <= v.len(),
    ensures
        r@ == v@.subrange(a as int, b as int),
{
    let mut r: Vec<char> = Vec::new();
    let mut i = a;
    while i < b
        invariant
            a <= i <= b,
            b <= v.len(),
            r@ == v@.subrange(a as int, i as int),
        decreases b - i,
    {
        r.push(v[i]);
        i = i + 1;
        proof {
            assert(r@ =~= v@.subrange(a as int, i as int));
        }
    }
    r
}

} // verus!
