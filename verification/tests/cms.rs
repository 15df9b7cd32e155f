use status_core::cms::{
    blog_detail, blog_list, replace_blog, replace_schedule, sanitize_slug, schedule_list,
    BlogPostInput, ScheduleItemInput,
};

fn schedule_input(id: Option<&str>, title: &str, sort: Option<i64>) -> ScheduleItemInput {
    ScheduleItemInput {
        id: id.map(str::to_string),
        title: title.to_string(),
        time: "19:00".to_string(),
        note: None,
        location: Some("cafe".to_string()),
        tag: None,
        sort_order: sort,
    }
}

fn blog_input(slug: Option<&str>, title: &str, content: &[&str]) -> BlogPostInput {
    BlogPostInput {
        slug: slug.map(str::to_string),
        title: title.to_string(),
        date: "2026-02-16".to_string(),
        tag: Some("notes".to_string()),
        excerpt: None,
        content: content.iter().map(|s| s.to_string()).collect(),
        sort_order: None,
    }
}

#[test]
fn schedule_items_are_stamped_and_defaulted_positionally() {
    let items = vec![
        schedule_input(Some("keep-me"), "dinner", Some(7)),
        schedule_input(None, "walk", None),
    ];
    let out = replace_schedule(&items, 1000);
    assert_eq!(out.len(), 2);
    assert_eq!(out[0].id, "keep-me");
    assert_eq!(out[0].sort_order, 7);
    assert_eq!(out[0].updated_at, 1000);
    assert_eq!(out[0].title, "dinner");
    assert_eq!(out[0].location.as_deref(), Some("cafe"));
    assert_eq!(out[1].id, "schedule-1000-1");
    assert_eq!(out[1].sort_order, 1);
}

#[test]
fn schedule_replace_is_idempotent_given_stable_ids() {
    let items = vec![
        schedule_input(Some("a"), "one", Some(1)),
        schedule_input(Some("b"), "two", None),
    ];
    let first = replace_schedule(&items, 500);
    let second = replace_schedule(&items, 500);
    assert_eq!(first.len(), second.len());
    for (x, y) in first.iter().zip(second.iter()) {
        assert_eq!(x.id, y.id);
        assert_eq!(x.title, y.title);
        assert_eq!(x.time, y.time);
        assert_eq!(x.note, y.note);
        assert_eq!(x.location, y.location);
        assert_eq!(x.tag, y.tag);
        assert_eq!(x.sort_order, y.sort_order);
        assert_eq!(x.updated_at, y.updated_at);
    }
}

#[test]
fn slug_is_trimmed_lowercased_and_filtered() {
    assert_eq!(sanitize_slug("  My First Post  "), "my-first-post");
    assert_eq!(sanitize_slug("Hello, World!"), "hello-world");
    assert_eq!(sanitize_slug("abc-123"), "abc-123");
    assert_eq!(sanitize_slug("###"), "");
}

#[test]
fn blog_posts_get_slugs_excerpts_and_serialized_content() {
    let items = vec![
        blog_input(Some("My First Post"), "opening", &["first para", "second para"]),
        blog_input(None, "untitled", &[]),
        blog_input(Some("@@@"), "symbols only", &["body"]),
    ];
    let out = replace_blog(&items, 2000);
    assert_eq!(out.len(), 3);
    assert_eq!(out[0].slug, "my-first-post");
    assert_eq!(out[0].excerpt, "first para");
    assert_eq!(out[0].content_json, "[\"first para\",\"second para\"]");
    assert_eq!(out[0].sort_order, 0);
    assert_eq!(out[0].updated_at, 2000);
    assert_eq!(out[0].tag.as_deref(), Some("notes"));
    // no slug given: generated, and it survives its own sanitizing
    assert_eq!(out[1].slug, "post-2000-1");
    assert_eq!(out[1].excerpt, "");
    assert_eq!(out[1].content_json, "[]");
    // a slug that sanitizes to nothing falls back to the generated id
    assert_eq!(out[2].slug, "post-2000-2");
}

#[test]
fn blog_explicit_excerpt_wins_unless_blank() {
    let mut given = blog_input(Some("a"), "t", &["paragraph"]);
    given.excerpt = Some("  summary  ".to_string());
    let mut blank = blog_input(Some("b"), "t", &["paragraph"]);
    blank.excerpt = Some("   ".to_string());
    let out = replace_blog(&vec![given, blank], 10);
    // a non-blank excerpt is kept as submitted, untrimmed
    assert_eq!(out[0].excerpt, "  summary  ");
    assert_eq!(out[1].excerpt, "paragraph");
}

#[test]
fn blog_single_untidy_slug_is_stored_sanitized() {
    let items = vec![BlogPostInput {
        slug: Some(" My Post! ".to_string()),
        title: "t".to_string(),
        date: "2026-01-01".to_string(),
        tag: None,
        excerpt: None,
        content: vec!["p".to_string()],
        sort_order: None,
    }];
    let out = replace_blog(&items, 100);
    assert_eq!(out.len(), 1);
    assert_eq!(out[0].slug, "my-post");
    assert_eq!(out[0].excerpt, "p");
    assert_eq!(out[0].sort_order, 0);
}

#[test]
fn blog_resubmission_keeps_content_and_refreshes_stamp() {
    let items = vec![blog_input(Some("stable"), "t", &["a", "b"])];
    let first = replace_blog(&items, 99);
    let later = replace_blog(&items, 120);
    assert_eq!(first.len(), later.len());
    assert_eq!(first[0].slug, later[0].slug);
    assert_eq!(first[0].title, later[0].title);
    assert_eq!(first[0].date, later[0].date);
    assert_eq!(first[0].tag, later[0].tag);
    assert_eq!(first[0].excerpt, later[0].excerpt);
    assert_eq!(first[0].content_json, later[0].content_json);
    assert_eq!(first[0].sort_order, later[0].sort_order);
    assert_eq!(later[0].updated_at, 120);
}

#[test]
fn blog_detail_finds_a_stored_slug_and_misses_unknown_ones() {
    let items = vec![
        blog_input(Some("first"), "one", &["a"]),
        blog_input(Some("second"), "two", &["b"]),
    ];
    let posts = replace_blog(&items, 5);
    let hit = blog_detail(&posts, "second").unwrap();
    assert_eq!(hit.title, "two");
    assert!(blog_detail(&posts, "missing").is_none());
    assert!(blog_detail(&Vec::new(), "first").is_none());
}

#[test]
fn blog_replace_is_idempotent_given_stable_slugs() {
    let items = vec![blog_input(Some("stable"), "t", &["a", "b"])];
    let first = replace_blog(&items, 99);
    let second = replace_blog(&items, 99);
    assert_eq!(first[0].slug, second[0].slug);
    assert_eq!(first[0].content_json, second[0].content_json);
    assert_eq!(first[0].excerpt, second[0].excerpt);
    assert_eq!(first[0].updated_at, second[0].updated_at);
}

#[test]
fn schedule_listing_orders_by_sort_then_newest_stamp() {
    let mut items = Vec::new();
    for (id, sort, ts) in [("c", 2, 10), ("a", 1, 10), ("b", 1, 20), ("d", 0, 5)] {
        let mut inp = schedule_input(Some(id), id, Some(sort));
        inp.sort_order = Some(sort);
        let out = replace_schedule(&vec![inp], ts);
        items.push(out.into_iter().next().unwrap());
    }
    let listed = schedule_list(&items);
    let ids: Vec<&str> = listed.iter().map(|s| s.id.as_str()).collect();
    // ascending sort order; within sort order 1, the newer stamp first
    assert_eq!(ids, vec!["d", "b", "a", "c"]);
    assert_eq!(listed.len(), items.len());
}

#[test]
fn blog_listing_orders_by_sort_then_date_then_stamp() {
    let mut posts = Vec::new();
    for (slug, date, ts) in [
        ("old", "2026-01-01", 50),
        ("new", "2026-02-01", 40),
        ("same-day-late", "2026-02-01", 60),
    ] {
        let mut inp = blog_input(Some(slug), slug, &["p"]);
        inp.date = date.to_string();
        let out = replace_blog(&vec![inp], ts);
        posts.push(out.into_iter().next().unwrap());
    }
    let listed = blog_list(&posts);
    let slugs: Vec<&str> = listed.iter().map(|p| p.slug.as_str()).collect();
    // equal sort orders: newest date first, then the newer stamp
    assert_eq!(slugs, vec!["same-day-late", "new", "old"]);
}

#[test]
fn content_json_round_trips_through_serde() {
    let items = vec![blog_input(Some("rt"), "t", &["one \"quoted\"", "two"])];
    let out = replace_blog(&items, 1);
    let back: Vec<String> = serde_json::from_str(&out[0].content_json).unwrap();
    assert_eq!(back, vec!["one \"quoted\"".to_string(), "two".to_string()]);
}
