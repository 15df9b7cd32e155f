//! Bulk replacement of the schedule and blog sets.
//!
//! Both endpoints overwrite the whole stored set in one transaction:
//! delete-all, then re-insert every submitted item, normalized.  The result
//! depends on the payload and the receive time alone, never on what was
//! stored before — which is what makes resubmitting the same payload
//! harmless.

use vstd::prelude::*;
use vstd::string::*;

use crate::text::{
    dec_str, lemma_lex_total, lemma_lex_trans, lex_lt, opt_text, push_char, str_lt, str_views,
    trim, trim_spec, u64_to_string,
};

verus! {

/// One submitted schedule item; id and sort order may be left for the server
/// to fill in.
#[derive(Debug)]
pub struct ScheduleItemInput {
    pub id: Option<String>,
    pub title: String,
    pub time: String,
    pub note: Option<String>,
    pub location: Option<String>,
    pub tag: Option<String>,
    pub sort_order: Option<i64>,
}

/// One stored schedule item.
#[derive(Debug)]
pub struct ScheduleItem {
    pub id: String,
    pub title: String,
    pub time: String,
    pub note: Option<String>,
    pub location: Option<String>,
    pub tag: Option<String>,
    pub sort_order: i64,
    pub updated_at: i64,
}

/// One submitted blog post.
#[derive(Debug)]
pub struct BlogPostInput {
    pub slug: Option<String>,
    pub title: String,
    pub date: String,
    pub tag: Option<String>,
    pub excerpt: Option<String>,
    pub content: Vec<String>,
    pub sort_order: Option<i64>,
}

/// One stored blog post; the paragraphs are kept as their serialized JSON
/// array.
#[derive(Debug)]
pub struct BlogPost {
    pub slug: String,
    pub title: String,
    pub date: String,
    pub tag: Option<String>,
    pub excerpt: String,
    pub content_json: String,
    pub sort_order: i64,
    pub updated_at: i64,
}

/// The id given to the item at `idx` when the payload names none:
/// `<prefix><receive time>-<index>`.
pub open spec fn generated_id(prefix: Seq<char>, now: i64, idx: int) -> Seq<char> {
    prefix + dec_str(now as int) + seq!['-'] + dec_str(idx)
}

fn gen_id(prefix: &str, now: i64, idx: usize) -> (r: String)
    requires
        now >= 0,
    ensures
        r@ == generated_id(prefix@, now, idx as int),
{
    let mut id = String::from_str(prefix);
    let now_digits = u64_to_string(now as u64);
    id.append(now_digits.as_str());
    push_char(&mut id, '-');
    let idx_digits = u64_to_string(idx as u64);
    id.append(idx_digits.as_str());
    proof {
        assert(id@ =~= prefix@ + dec_str(now as int) + seq!['-'] + dec_str(idx as int));
    }
    id
}

/// What one stored schedule item shows, text by text.
pub struct ScheduleItemView {
    pub id: Seq<char>,
    pub title: Seq<char>,
    pub time: Seq<char>,
    pub note: Option<Seq<char>>,
    pub location: Option<Seq<char>>,
    pub tag: Option<Seq<char>>,
    pub sort_order: i64,
    pub updated_at: i64,
}

pub open spec fn schedule_view(x: ScheduleItem) -> ScheduleItemView {
    ScheduleItemView {
        id: x.id@,
        title: x.title@,
        time: x.time@,
        note: opt_text(x.note),
        location: opt_text(x.location),
        tag: opt_text(x.tag),
        sort_order: x.sort_order,
        updated_at: x.updated_at,
    }
}

pub open spec fn schedule_views(s: Seq<ScheduleItem>) -> Seq<ScheduleItemView> {
    s.map_values(|x: ScheduleItem| schedule_view(x))
}

/// The normalized form of one submitted schedule item.
pub open spec fn normalized_schedule_item(
    inp: ScheduleItemInput,
    now: i64,
    idx: int,
) -> ScheduleItemView {
    ScheduleItemView {
        id: if inp.id is Some {
            inp.id->0@
        } else {
            generated_id("schedule-"@, now, idx)
        },
        title: inp.title@,
        time: inp.time@,
        note: opt_text(inp.note),
        location: opt_text(inp.location),
        tag: opt_text(inp.tag),
        sort_order: if inp.sort_order is Some {
            inp.sort_order->0
        } else {
            idx as i64
        },
        updated_at: now,
    }
}

/// The stored schedule set a payload normalizes to.
pub open spec fn normalized_schedule(
    items: Seq<ScheduleItemInput>,
    now: i64,
) -> Seq<ScheduleItemView> {
    Seq::new(items.len(), |i: int| normalized_schedule_item(items[i], now, i))
}

/// What replacing the stored schedule with a payload leaves behind: the
/// normalized payload, whatever was stored before.  The handler performs it
/// as delete-all plus re-insert inside one transaction.
pub open spec fn schedule_after_replace(
    prev: Seq<ScheduleItemView>,
    items: Seq<ScheduleItemInput>,
    now: i64,
) -> Seq<ScheduleItemView> {
    normalized_schedule(items, now)
}

/// Submitting the same schedule payload twice yields the same final stored
/// set as submitting it once.
pub proof fn lemma_schedule_replace_idempotent(
    prev: Seq<ScheduleItemView>,
    items: Seq<ScheduleItemInput>,
    now: i64,
)
    ensures
        schedule_after_replace(schedule_after_replace(prev, items, now), items, now)
            == schedule_after_replace(prev, items, now),
{
}

fn clone_opt_string(o: &Option<String>) -> (r: Option<String>)
    ensures
        r == *o,
{
    match o {
        None => None,
        Some(s) => Some(s.clone()),
    }
}

/// Normalizes a submitted schedule payload into the set that replaces the
/// stored one: ids and sort orders are filled in positionally when absent,
/// and every item is stamped with the receive time.
pub fn replace_schedule(items: &Vec<ScheduleItemInput>, now: i64) -> (r: Vec<ScheduleItem>)
    requires
        now >= 0,
        items@.len() <= i64::MAX,
    ensures
        schedule_views(r@) == normalized_schedule(items@, now),
        r@.len() == items@.len(),
        forall|i: int|
            0 <= i < items@.len() ==> {
                let inp = items@[i];
                let out = (#[trigger] r@[i]);
                &&& (inp.id is Some ==> out.id == inp.id->0)
                &&& out.title == inp.title
                &&& out.time == inp.time
                &&& out.note == inp.note
                &&& out.location == inp.location
                &&& out.tag == inp.tag
            },
{
    let n = items.len();
    let mut r: Vec<ScheduleItem> = Vec::new();
    let mut i: usize = 0;
    while i < n
        invariant
            i <= n,
            n == items@.len(),
            now >= 0,
            n <= i64::MAX,
            r@.len() == i,
            forall|k: int|
                0 <= k < i ==> schedule_view(#[trigger] r@[k]) == normalized_schedule_item(
                    items@[k],
                    now,
                    k,
                ),
            forall|k: int|
                0 <= k < i ==> {
                    let inp = items@[k];
                    let out = (#[trigger] r@[k]);
                    &&& (inp.id is Some ==> out.id == inp.id->0)
                    &&& out.title == inp.title
                    &&& out.time == inp.time
                    &&& out.note == inp.note
                    &&& out.location == inp.location
                    &&& out.tag == inp.tag
                },
        decreases n - i,
    {
        let inp = &items[i];
        let id = match &inp.id {
            Some(v) => v.clone(),
            None => gen_id("schedule-", now, i),
        };
        let sort_order = match inp.sort_order {
            Some(v) => v,
            None => i as i64,
        };
        let item = ScheduleItem {
            id,
            title: inp.title.clone(),
            time: inp.time.clone(),
            note: clone_opt_string(&inp.note),
            location: clone_opt_string(&inp.location),
            tag: clone_opt_string(&inp.tag),
            sort_order,
            updated_at: now,
        };
        r.push(item);
        i = i + 1;
    }
    proof {
        assert(schedule_views(r@) =~= normalized_schedule(items@, now));
    }
    r
}

proof fn lemma_insert_to_multiset<A>(s: Seq<A>, i: int, x: A)
    requires
        0 <= i <= s.len(),
    ensures
        s.insert(i, x).to_multiset() == s.to_multiset().insert(x),
{
    broadcast use vstd::seq_lib::group_to_multiset_ensures;
    broadcast use vstd::multiset::group_multiset_axioms;

    let t = s.insert(i, x);
    assert(t.remove(i) =~= s);
    assert(t[i] == x);
    assert(s.to_multiset() =~= t.to_multiset().remove(x));
    assert(t.contains(x));
    assert(t.to_multiset().count(x) > 0);
    assert(t.to_multiset() =~= s.to_multiset().insert(x));
}

/// The listing order of schedule items: sort order ascending, then most
/// recently stamped first.
pub open spec fn schedule_le(a: ScheduleItem, b: ScheduleItem) -> bool {
    ||| a.sort_order < b.sort_order
    ||| (a.sort_order == b.sort_order && a.updated_at >= b.updated_at)
}

pub open spec fn schedule_ordered(s: Seq<ScheduleItem>) -> bool {
    forall|i: int, j: int| 0 <= i < j < s.len() ==> schedule_le(#[trigger] s[i], #[trigger] s[j])
}

fn schedule_le_exec(a: &ScheduleItem, b: &ScheduleItem) -> (r: bool)
    ensures
        r == schedule_le(*a, *b),
{
    a.sort_order < b.sort_order || (a.sort_order == b.sort_order && a.updated_at >= b.updated_at)
}

fn clone_schedule_item(x: &ScheduleItem) -> (r: ScheduleItem)
    ensures
        r == *x,
{
    ScheduleItem {
        id: x.id.clone(),
        title: x.title.clone(),
        time: x.time.clone(),
        note: clone_opt_string(&x.note),
        location: clone_opt_string(&x.location),
        tag: clone_opt_string(&x.tag),
        sort_order: x.sort_order,
        updated_at: x.updated_at,
    }
}

/// The stored schedule in listing order: the same items, sorted by sort
/// order ascending and, within one sort order, newest stamp first.
pub fn schedule_list(items: &Vec<ScheduleItem>) -> (r: Vec<ScheduleItem>)
    ensures
        r@.to_multiset() == items@.to_multiset(),
        r@.len() == items@.len(),
        schedule_ordered(r@),
{
    broadcast use vstd::seq_lib::group_to_multiset_ensures;

    let n = items.len();
    let mut out: Vec<ScheduleItem> = Vec::new();
    let mut k: usize = 0;
    proof {
        assert(items@.take(0) =~= Seq::<ScheduleItem>::empty());
        assert(out@ =~= Seq::<ScheduleItem>::empty());
        assert(out@.to_multiset() =~= items@.take(0).to_multiset());
    }
    while k < n
        invariant
            k <= n,
            n == items@.len(),
            out@.len() == k,
            out@.to_multiset() == items@.take(k as int).to_multiset(),
            schedule_ordered(out@),
        decreases n - k,
    {
        broadcast use vstd::seq_lib::group_to_multiset_ensures;

        let x = clone_schedule_item(&items[k]);
        let mut pos: usize = 0;
        let m = out.len();
        while pos < m && schedule_le_exec(&out[pos], &x)
            invariant
                pos <= m,
                m == out@.len(),
                x == items@[k as int],
                k < n == items@.len(),
                schedule_ordered(out@),
                forall|j: int| 0 <= j < pos ==> schedule_le(#[trigger] out@[j], x),
            decreases m - pos,
        {
            pos = pos + 1;
        }
        let ghost prev = out@;
        out.insert(pos, x);
        proof {
            lemma_insert_to_multiset(prev, pos as int, items@[k as int]);
            assert(items@.take(k as int + 1) =~= items@.take(k as int).push(items@[k as int]));
            let t = out@;
            assert forall|i: int, j: int| 0 <= i < j < t.len() implies schedule_le(
                #[trigger] t[i],
                #[trigger] t[j],
            ) by {
                if i < pos {
                    assert(t[i] == prev[i]);
                } else if i > pos {
                    assert(t[i] == prev[i - 1]);
                }
                if j < pos {
                    assert(t[j] == prev[j]);
                } else if j > pos {
                    assert(t[j] == prev[j - 1]);
                }
            }
        }
        k = k + 1;
    }
    proof {
        assert(items@.take(n as int) =~= items@);
    }
    out
}

/// The listing order of blog posts: sort order ascending, then newest date
/// first, then newest stamp first.
pub open spec fn blog_le(a: BlogPost, b: BlogPost) -> bool {
    ||| a.sort_order < b.sort_order
    ||| (a.sort_order == b.sort_order && lex_lt(b.date@, a.date@))
    ||| (a.sort_order == b.sort_order && a.date@ == b.date@ && a.updated_at >= b.updated_at)
}

pub open spec fn blog_ordered(s: Seq<BlogPost>) -> bool {
    forall|i: int, j: int| 0 <= i < j < s.len() ==> blog_le(#[trigger] s[i], #[trigger] s[j])
}

fn blog_le_exec(a: &BlogPost, b: &BlogPost) -> (r: bool)
    ensures
        r == blog_le(*a, *b),
{
    if a.sort_order != b.sort_order {
        return a.sort_order < b.sort_order;
    }
    if str_lt(b.date.as_str(), a.date.as_str()) {
        return true;
    }
    crate::text::str_eq(a.date.as_str(), b.date.as_str()) && a.updated_at >= b.updated_at
}

proof fn lemma_blog_le_total(a: BlogPost, b: BlogPost)
    ensures
        blog_le(a, b) || blog_le(b, a),
{
    lemma_lex_total(a.date@, b.date@);
}

proof fn lemma_blog_le_trans(a: BlogPost, b: BlogPost, c: BlogPost)
    requires
        blog_le(a, b),
        blog_le(b, c),
    ensures
        blog_le(a, c),
{
    if a.sort_order == b.sort_order && b.sort_order == c.sort_order {
        if lex_lt(b.date@, a.date@) && lex_lt(c.date@, b.date@) {
            lemma_lex_trans(c.date@, b.date@, a.date@);
        }
    }
}

fn clone_blog_post(x: &BlogPost) -> (r: BlogPost)
    ensures
        r == *x,
{
    BlogPost {
        slug: x.slug.clone(),
        title: x.title.clone(),
        date: x.date.clone(),
        tag: clone_opt_string(&x.tag),
        excerpt: x.excerpt.clone(),
        content_json: x.content_json.clone(),
        sort_order: x.sort_order,
        updated_at: x.updated_at,
    }
}

/// The stored blog set in listing order: the same posts, sorted by sort
/// order ascending, then newest date first, then newest stamp first.
pub fn blog_list(items: &Vec<BlogPost>) -> (r: Vec<BlogPost>)
    ensures
        r@.to_multiset() == items@.to_multiset(),
        r@.len() == items@.len(),
        blog_ordered(r@),
{
    broadcast use vstd::seq_lib::group_to_multiset_ensures;

    let n = items.len();
    let mut out: Vec<BlogPost> = Vec::new();
    let mut k: usize = 0;
    proof {
        assert(items@.take(0) =~= Seq::<BlogPost>::empty());
        assert(out@ =~= Seq::<BlogPost>::empty());
        assert(out@.to_multiset() =~= items@.take(0).to_multiset());
    }
    while k < n
        invariant
            k <= n,
            n == items@.len(),
            out@.len() == k,
            out@.to_multiset() == items@.take(k as int).to_multiset(),
            blog_ordered(out@),
        decreases n - k,
    {
        broadcast use vstd::seq_lib::group_to_multiset_ensures;

        let x = clone_blog_post(&items[k]);
        let mut pos: usize = 0;
        let m = out.len();
        while pos < m && blog_le_exec(&out[pos], &x)
            invariant
                pos <= m,
                m == out@.len(),
                x == items@[k as int],
                k < n == items@.len(),
                blog_ordered(out@),
                forall|j: int| 0 <= j < pos ==> blog_le(#[trigger] out@[j], x),
            decreases m - pos,
        {
            pos = pos + 1;
        }
        proof {
            if pos < out@.len() {
                lemma_blog_le_total(out@[pos as int], x);
            }
        }
        let ghost prev = out@;
        out.insert(pos, x);
        proof {
            lemma_insert_to_multiset(prev, pos as int, items@[k as int]);
            assert(items@.take(k as int + 1) =~= items@.take(k as int).push(items@[k as int]));
            let t = out@;
            assert forall|i: int, j: int| 0 <= i < j < t.len() implies blog_le(
                #[trigger] t[i],
                #[trigger] t[j],
            ) by {
                if i < pos {
                    assert(t[i] == prev[i]);
                } else if i > pos {
                    assert(t[i] == prev[i - 1]);
                }
                if j < pos {
                    assert(t[j] == prev[j]);
                } else if j > pos {
                    assert(t[j] == prev[j - 1]);
                }
                if i == pos && j > pos {
                    lemma_blog_le_trans(t[i], prev[pos as int], t[j]);
                }
                if j == pos && i < pos {
                }
            }
        }
        k = k + 1;
    }
    proof {
        assert(items@.take(n as int) =~= items@);
    }
    out
}

/// The index of the first stored post carrying the slug, or -1.
pub open spec fn find_post(s: Seq<BlogPost>, slug: Seq<char>) -> int
    decreases s.len(),
{
    if s.len() == 0 {
        -1
    } else if s[0].slug@ == slug {
        0
    } else {
        let r = find_post(s.skip(1), slug);
        if r < 0 {
            -1
        } else {
            r + 1
        }
    }
}

proof fn lemma_find_post_at(s: Seq<BlogPost>, slug: Seq<char>, i: int)
    requires
        0 <= i < s.len(),
        s[i].slug@ == slug,
        forall|j: int| 0 <= j < i ==> (#[trigger] s[j].slug@) != slug,
    ensures
        find_post(s, slug) == i,
    decreases i,
{
    if i > 0 {
        lemma_find_post_at(s.skip(1), slug, i - 1);
    }
}

proof fn lemma_find_post_none(s: Seq<BlogPost>, slug: Seq<char>)
    requires
        forall|j: int| 0 <= j < s.len() ==> (#[trigger] s[j].slug@) != slug,
    ensures
        find_post(s, slug) == -1,
    decreases s.len(),
{
    if s.len() > 0 {
        assert forall|j: int| 0 <= j < s.skip(1).len() implies (#[trigger] s.skip(
            1,
        )[j].slug@) != slug by {
            assert(s.skip(1)[j] == s[j + 1]);
        }
        lemma_find_post_none(s.skip(1), slug);
    }
}

/// Looks a stored post up by its slug: the first post carrying it, or
/// `None` for an unknown slug.
pub fn blog_detail<'a>(posts: &'a Vec<BlogPost>, slug: &str) -> (r: Option<&'a BlogPost>)
    ensures
        r is Some <==> exists|i: int|
            0 <= i < posts@.len() && (#[trigger] posts@[i].slug@) == slug@,
        ({
            let fi = find_post(posts@, slug@);
            if fi >= 0 {
                r is Some && *r->0 == posts@[fi]
            } else {
                r is None
            }
        }),
{
    let n = posts.len();
    let mut i: usize = 0;
    while i < n
        invariant
            i <= n,
            n == posts@.len(),
            forall|j: int| 0 <= j < i ==> (#[trigger] posts@[j].slug@) != slug@,
        decreases n - i,
    {
        if crate::text::str_eq(posts[i].slug.as_str(), slug) {
            proof {
                lemma_find_post_at(posts@, slug@, i as int);
            }
            return Some(&posts[i]);
        }
        i = i + 1;
    }
    proof {
        lemma_find_post_none(posts@, slug@);
    }
    None
}

/// Named result of `str::to_lowercase`: the lowercased text, a function of
/// the input characters alone.
pub uninterp spec fn lower_of(s: Seq<char>) -> Seq<char>;

/// Relies on `str::to_lowercase`: the result depends on the characters
/// alone, and an empty string stays empty.
#[verifier::external_body]
fn lowercase(s: &str) -> (r: String)
    ensures
        r@ == lower_of(s@),
        s@.len() == 0 ==> r@.len() == 0,
{
    s.to_lowercase()
}

/// Whether a character may appear in a slug.
pub open spec fn slug_keep(c: char) -> bool {
    ||| 'a' as u32 <= c as u32 <= 'z' as u32
    ||| '0' as u32 <= c as u32 <= '9' as u32
    ||| c == '-'
}

/// Spaces become dashes, and everything but ASCII lowercase letters, digits
/// and dashes is dropped.
pub open spec fn slug_filter(s: Seq<char>) -> Seq<char>
    decreases s.len(),
{
    if s.len() == 0 {
        Seq::empty()
    } else {
        let c = if s[0] == ' ' {
            '-'
        } else {
            s[0]
        };
        (if slug_keep(c) {
            seq![c]
        } else {
            Seq::<char>::empty()
        }) + slug_filter(s.skip(1))
    }
}

proof fn lemma_slug_filter_push(s: Seq<char>, c: char)
    ensures
        slug_filter(s.push(c)) == slug_filter(s) + ({
            let m = if c == ' ' {
                '-'
            } else {
                c
            };
            if slug_keep(m) {
                seq![m]
            } else {
                Seq::<char>::empty()
            }
        }),
    decreases s.len(),
{
    let m = if c == ' ' {
        '-'
    } else {
        c
    };
    let tail: Seq<char> = if slug_keep(m) {
        seq![m]
    } else {
        Seq::<char>::empty()
    };
    if s.len() == 0 {
        assert(s.push(c).len() == 1);
        assert(s.push(c)[0] == c);
        assert(s.push(c).skip(1) =~= Seq::<char>::empty());
        assert(slug_filter(s.push(c)) == tail + slug_filter(Seq::<char>::empty()));
        assert(slug_filter(Seq::<char>::empty()) == Seq::<char>::empty());
        assert(tail + Seq::<char>::empty() =~= tail);
        assert(slug_filter(s) + tail =~= tail);
    } else {
        assert(s.push(c)[0] == s[0]);
        assert(s.push(c).skip(1) =~= s.skip(1).push(c));
        lemma_slug_filter_push(s.skip(1), c);
        let h = if s[0] == ' ' {
            '-'
        } else {
            s[0]
        };
        let head: Seq<char> = if slug_keep(h) {
            seq![h]
        } else {
            Seq::<char>::empty()
        };
        assert(head + (slug_filter(s.skip(1)) + tail) =~= (head + slug_filter(s.skip(1))) + tail);
    }
}

/// Keeps only what may stand in a slug, turning spaces into dashes along the
/// way.
pub fn filter_slug(s: &str) -> (r: String)
    ensures
        r@ == slug_filter(s@),
{
    let n = s.unicode_len();
    let mut out = String::new();
    let mut i: usize = 0;
    while i < n
        invariant
            i <= n,
            n == s@.len(),
            out@ == slug_filter(s@.take(i as int)),
        decreases n - i,
    {
        let c0 = s.get_char(i);
        let c = if c0 == ' ' {
            '-'
        } else {
            c0
        };
        let cu = c as u32;
        let keep = (97 <= cu && cu <= 122) || (48 <= cu && cu <= 57) || c == '-';
        proof {
            assert(s@.take(i as int + 1) =~= s@.take(i as int).push(s@[i as int]));
            lemma_slug_filter_push(s@.take(i as int), s@[i as int]);
        }
        if keep {
            push_char(&mut out, c);
            proof {
                assert(out@ =~= slug_filter(s@.take(i as int)) + seq![c]);
            }
        }
        i = i + 1;
    }
    proof {
        assert(s@.take(n as int) =~= s@);
    }
    out
}

/// The sanitized form of a submitted slug: trimmed, lowercased, spaces to
/// dashes, everything else outside `[a-z0-9-]` dropped.
pub open spec fn sanitized_slug(raw: Seq<char>) -> Seq<char> {
    slug_filter(lower_of(trim_spec(raw)))
}

/// Trims, lowercases and filters a submitted slug.
pub fn sanitize_slug(raw: &str) -> (r: String)
    ensures
        r@ == sanitized_slug(raw@),
{
    let t = trim(raw);
    let low = lowercase(t);
    filter_slug(low.as_str())
}

/// Named result of `serde_json::to_string` on a vector of strings: the JSON
/// array text, a function of the paragraph texts alone.
pub uninterp spec fn paragraphs_json(v: Seq<Seq<char>>) -> Seq<char>;

/// Relies on `serde_json::to_string`: serializes the paragraph list to its
/// JSON array text, a pure function of the texts.  Serialization fails only
/// when a `Serialize` impl fails or a map has non-string keys, and neither
/// can happen for a vector of strings, so the call always succeeds.
#[verifier::external_body]
fn encode_paragraphs(v: &Vec<String>) -> (r: Option<String>)
    ensures
        r is Some,
        r->0@ == paragraphs_json(str_views(v@)),
{
    serde_json::to_string(v).ok()
}

/// The slug a stored post ends up with: the sanitized submitted slug, or —
/// when none was submitted, or sanitizing left nothing — a generated
/// `post-<time>-<index>` id (itself sanitized first when it stands in for a
/// missing slug, which leaves it unchanged).
pub open spec fn blog_slug(inp_slug: Option<String>, now: i64, idx: int) -> Seq<char> {
    let base = if inp_slug is Some {
        sanitized_slug(inp_slug->0@)
    } else {
        sanitized_slug(generated_id("post-"@, now, idx))
    };
    if base.len() == 0 {
        generated_id("post-"@, now, idx)
    } else {
        base
    }
}

/// What one stored blog post shows.
pub struct BlogPostView {
    pub slug: Seq<char>,
    pub title: Seq<char>,
    pub date: Seq<char>,
    pub tag: Option<Seq<char>>,
    pub excerpt: Seq<char>,
    pub content_json: Seq<char>,
    pub sort_order: i64,
    pub updated_at: i64,
}

pub open spec fn blog_view(x: BlogPost) -> BlogPostView {
    BlogPostView {
        slug: x.slug@,
        title: x.title@,
        date: x.date@,
        tag: opt_text(x.tag),
        excerpt: x.excerpt@,
        content_json: x.content_json@,
        sort_order: x.sort_order,
        updated_at: x.updated_at,
    }
}

pub open spec fn blog_views(s: Seq<BlogPost>) -> Seq<BlogPostView> {
    s.map_values(|x: BlogPost| blog_view(x))
}

/// The excerpt a stored post ends up with: the submitted one when it has any
/// visible text, else the first paragraph, else empty.
pub open spec fn blog_excerpt(inp: BlogPostInput) -> Seq<char> {
    if inp.excerpt is Some && trim_spec(inp.excerpt->0@).len() > 0 {
        inp.excerpt->0@
    } else if inp.content@.len() > 0 {
        inp.content@[0]@
    } else {
        Seq::empty()
    }
}

/// The normalized form of one submitted blog post.
pub open spec fn normalized_blog_item(inp: BlogPostInput, now: i64, idx: int) -> BlogPostView {
    BlogPostView {
        slug: blog_slug(inp.slug, now, idx),
        title: inp.title@,
        date: inp.date@,
        tag: opt_text(inp.tag),
        excerpt: blog_excerpt(inp),
        content_json: paragraphs_json(str_views(inp.content@)),
        sort_order: if inp.sort_order is Some {
            inp.sort_order->0
        } else {
            idx as i64
        },
        updated_at: now,
    }
}

/// The stored blog set a payload normalizes to.
pub open spec fn normalized_blog(items: Seq<BlogPostInput>, now: i64) -> Seq<BlogPostView> {
    Seq::new(items.len(), |i: int| normalized_blog_item(items[i], now, i))
}

/// What replacing the stored blog set with a payload leaves behind,
/// whatever was stored before.
pub open spec fn blog_after_replace(
    prev: Seq<BlogPostView>,
    items: Seq<BlogPostInput>,
    now: i64,
) -> Seq<BlogPostView> {
    normalized_blog(items, now)
}

/// Submitting the same blog payload twice yields the same final stored set
/// as submitting it once; slugs stay stable because every name above is a
/// function of the payload and timestamp alone.
pub proof fn lemma_blog_replace_idempotent(
    prev: Seq<BlogPostView>,
    items: Seq<BlogPostInput>,
    now: i64,
)
    ensures
        blog_after_replace(blog_after_replace(prev, items, now), items, now) == blog_after_replace(
            prev,
            items,
            now,
        ),
{
}

/// Normalizes a submitted blog payload into the set that replaces the
/// stored one.
pub fn replace_blog(items: &Vec<BlogPostInput>, now: i64) -> (r: Vec<BlogPost>)
    requires
        now >= 0,
        items@.len() <= i64::MAX,
    ensures
        blog_views(r@) == normalized_blog(items@, now),
        r@.len() == items@.len(),
        forall|i: int|
            0 <= i < items@.len() ==> {
                let inp = items@[i];
                let out = (#[trigger] r@[i]);
                &&& out.title == inp.title
                &&& out.date == inp.date
                &&& out.tag == inp.tag
            },
{
    let n = items.len();
    let mut r: Vec<BlogPost> = Vec::new();
    let mut i: usize = 0;
    while i < n
        invariant
            i <= n,
            n == items@.len(),
            now >= 0,
            n <= i64::MAX,
            r@.len() == i,
            forall|k: int|
                0 <= k < i ==> blog_view(#[trigger] r@[k]) == normalized_blog_item(
                    items@[k],
                    now,
                    k,
                ),
            forall|k: int|
                0 <= k < i ==> {
                    let inp = items@[k];
                    let out = (#[trigger] r@[k]);
                    &&& out.title == inp.title
                    &&& out.date == inp.date
                    &&& out.tag == inp.tag
                },
        decreases n - i,
    {
        let inp = &items[i];
        let base = match &inp.slug {
            Some(v) => sanitize_slug(v.as_str()),
            None => {
                let g = gen_id("post-", now, i);
                sanitize_slug(g.as_str())
            },
        };
        let slug = if base.unicode_len() == 0 {
            gen_id("post-", now, i)
        } else {
            base
        };
        let excerpt = {
            let given = match &inp.excerpt {
                Some(v) => trim(v.as_str()).unicode_len() > 0,
                None => false,
            };
            if given {
                match &inp.excerpt {
                    Some(v) => v.clone(),
                    None => String::new(),
                }
            } else if inp.content.len() > 0 {
                inp.content[0].clone()
            } else {
                String::new()
            }
        };
        let content_json = encode_paragraphs(&inp.content).unwrap();
        let sort_order = match inp.sort_order {
            Some(v) => v,
            None => i as i64,
        };
        let post = BlogPost {
            slug,
            title: inp.title.clone(),
            date: inp.date.clone(),
            tag: clone_opt_string(&inp.tag),
            excerpt,
            content_json,
            sort_order,
            updated_at: now,
        };
        r.push(post);
        i = i + 1;
    }
    proof {
        assert(blog_views(r@) =~= normalized_blog(items@, now));
    }
    r
}

} // verus!
