use minicms::errors::Error;
use minicms::lifecycle::{
    delete_post, parse_post_id, post_save, publish_post, save_post, unpublish_post, PostId,
    PostInput,
};
use minicms::page::Page;
use minicms::repo::Repository;

fn input(title: &str, url: &str, date: &str, content: &str) -> PostInput {
    PostInput {
        title: title.to_string(),
        url: url.to_string(),
        date: date.to_string(),
        content: content.to_string(),
    }
}

const NOW: i64 = 1_700_000_000;

#[test]
fn post_id_classification() {
    assert_eq!(parse_post_id("new"), Ok(PostId::New));
    assert_eq!(parse_post_id("42"), Ok(PostId::Existing(42)));
    assert_eq!(parse_post_id("007"), Ok(PostId::Existing(7)));
    assert_eq!(parse_post_id("+7"), Ok(PostId::Existing(7)));
    assert_eq!(parse_post_id("-5"), Ok(PostId::Existing(-5)));
    assert_eq!(parse_post_id(""), Err(Error::BadInput));
    assert_eq!(parse_post_id("abc"), Err(Error::BadInput));
    assert_eq!(parse_post_id("4 2"), Err(Error::BadInput));
    assert_eq!(parse_post_id("99999999999"), Err(Error::BadInput));
    assert_eq!(parse_post_id("2147483647"), Ok(PostId::Existing(i32::MAX)));
    assert_eq!(parse_post_id("2147483648"), Err(Error::BadInput));
    assert_eq!(parse_post_id("-2147483648"), Ok(PostId::Existing(i32::MIN)));
    assert_eq!(parse_post_id("-2147483649"), Err(Error::BadInput));
}

#[test]
fn creating_a_post_assigns_identity_and_defaults() {
    let mut repo = Repository::new();
    let id = post_save(&mut repo, PostId::New, &input("First Post", "", "", "hello"), NOW)
        .unwrap();
    assert_eq!(id, 1);
    let page = repo.find_by_id(id, true).unwrap();
    assert_eq!(page.title, "First Post");
    assert_eq!(page.url, "first-post");
    assert_eq!(page.time, NOW);
    assert_eq!(page.content_markdown, "hello");
    assert_eq!(page.content_html, "<p>hello</p>\n");
    assert!(page.is_post);
    assert!(!page.is_published);
}

#[test]
fn an_empty_title_is_accepted_and_yields_an_empty_slug() {
    // The current design accepts an empty title; the derived slug is then
    // empty too, and the page is still stored.
    let mut repo = Repository::new();
    let id = post_save(&mut repo, PostId::New, &input("", "", "", ""), NOW).unwrap();
    let page = repo.find_by_id(id, true).unwrap();
    assert_eq!(page.title, "");
    assert_eq!(page.url, "");
}

#[test]
fn an_empty_date_uses_the_callers_clock() {
    let mut repo = Repository::new();
    let id = post_save(&mut repo, PostId::New, &input("T", "", "", ""), 123_456).unwrap();
    assert_eq!(repo.find_by_id(id, true).unwrap().time, 123_456);
}

#[test]
fn an_explicit_date_is_stored_as_local_noon() {
    let mut repo = Repository::new();
    let id = post_save(&mut repo, PostId::New, &input("T", "", "2023-05-01", ""), NOW).unwrap();
    assert_eq!(repo.find_by_id(id, true).unwrap().time, 1_682_942_400);
}

#[test]
fn saving_rejects_bad_dates_and_slugs() {
    let mut repo = Repository::new();
    assert_eq!(
        save_post(&mut repo, PostId::New, &input("T", "", "May first", ""), None, NOW),
        Err(Error::InvalidDate)
    );
    assert_eq!(
        save_post(&mut repo, PostId::New, &input("T", "bad url", "", ""), None, NOW),
        Err(Error::InvalidSlug)
    );
    // A failed validation inserts nothing.
    assert!(repo.find_by_id(1, false).is_none());
}

#[test]
fn the_slug_check_comes_before_the_date_check() {
    let mut repo = Repository::new();
    assert_eq!(
        save_post(&mut repo, PostId::New, &input("T", "bad url", "bad date", ""), None, NOW),
        Err(Error::InvalidSlug)
    );
}

#[test]
fn editing_rewrites_every_content_field() {
    let mut repo = Repository::new();
    let id = post_save(&mut repo, PostId::New, &input("Old", "", "", "old *text*"), NOW).unwrap();
    let id2 = post_save(
        &mut repo,
        PostId::Existing(id),
        &input("New Title", "custom-slug", "2023-05-01", "new *text*"),
        NOW,
    )
    .unwrap();
    assert_eq!(id2, id);
    let page = repo.find_by_id(id, true).unwrap();
    assert_eq!(page.title, "New Title");
    assert_eq!(page.url, "custom-slug");
    assert_eq!(page.time, 1_682_942_400);
    assert_eq!(page.content_markdown, "new *text*");
    assert_eq!(page.content_html, "<p>new <em>text</em></p>\n");
    assert!(!page.is_published);
}

#[test]
fn saving_a_missing_or_static_page_reports_not_found() {
    let mut repo = Repository::new();
    assert_eq!(
        save_post(&mut repo, PostId::Existing(9), &input("T", "", "", ""), None, NOW),
        Err(Error::NotFound)
    );
    // A static page shares the table but is filtered off the post surface.
    let static_id = repo.insert(Page {
        id: 0,
        time: NOW,
        title: "About".to_string(),
        url: "about".to_string(),
        content_markdown: String::new(),
        content_html: String::new(),
        is_post: false,
        is_published: true,
    });
    assert_eq!(
        save_post(&mut repo, PostId::Existing(static_id), &input("T", "", "", ""), None, NOW),
        Err(Error::NotFound)
    );
}

#[test]
fn publish_then_unpublish_restores_draft_state() {
    let mut repo = Repository::new();
    let form = input("My Post", "my-post", "2023-05-01", "body *here*");
    let id = post_save(&mut repo, PostId::New, &form, NOW).unwrap();

    publish_post(&mut repo, PostId::Existing(id), &form, NOW).unwrap();
    assert!(repo.find_by_id(id, true).unwrap().is_published);

    unpublish_post(&mut repo, PostId::Existing(id), &form, NOW).unwrap();
    let page = repo.find_by_id(id, true).unwrap();
    assert!(!page.is_published);
    // Every other field still carries the most recent save.
    assert_eq!(page.title, "My Post");
    assert_eq!(page.url, "my-post");
    assert_eq!(page.time, 1_682_942_400);
    assert_eq!(page.content_markdown, "body *here*");
    assert_eq!(page.content_html, "<p>body <em>here</em></p>\n");
    assert!(page.is_post);
}

#[test]
fn publishing_keeps_the_edit_in_the_same_operation() {
    let mut repo = Repository::new();
    let id = post_save(&mut repo, PostId::New, &input("A", "", "", "one"), NOW).unwrap();
    publish_post(&mut repo, PostId::Existing(id), &input("B", "", "", "two"), NOW).unwrap();
    let page = repo.find_by_id(id, true).unwrap();
    assert!(page.is_published);
    assert_eq!(page.title, "B");
    assert_eq!(page.content_markdown, "two");
}

#[test]
fn a_plain_save_keeps_the_publish_state() {
    let mut repo = Repository::new();
    let form = input("A", "", "", "one");
    let id = post_save(&mut repo, PostId::New, &form, NOW).unwrap();
    publish_post(&mut repo, PostId::Existing(id), &form, NOW).unwrap();
    post_save(&mut repo, PostId::Existing(id), &input("A2", "", "", "one2"), NOW).unwrap();
    assert!(repo.find_by_id(id, true).unwrap().is_published);
}

#[test]
fn deleting_removes_the_page_and_twice_reports_not_found() {
    let mut repo = Repository::new();
    let id = post_save(&mut repo, PostId::New, &input("Gone", "", "", ""), NOW).unwrap();
    assert_eq!(delete_post(&mut repo, id), Ok(()));
    assert!(repo.find_by_id(id, true).is_none());
    assert!(repo.find_by_id(id, false).is_none());
    assert_eq!(delete_post(&mut repo, id), Err(Error::NotFound));
}

#[test]
fn deleting_leaves_other_pages_alone() {
    let mut repo = Repository::new();
    let keep = post_save(&mut repo, PostId::New, &input("Keep", "", "", ""), NOW).unwrap();
    let drop_id = post_save(&mut repo, PostId::New, &input("Drop", "", "", ""), NOW).unwrap();
    delete_post(&mut repo, drop_id).unwrap();
    assert_eq!(repo.find_by_id(keep, true).unwrap().title, "Keep");
    // Identities are never reused.
    let next = post_save(&mut repo, PostId::New, &input("Third", "", "", ""), NOW).unwrap();
    assert_eq!(next, 3);
}

#[test]
fn unpublished_posts_stay_on_the_admin_surface() {
    let mut repo = Repository::new();
    let id = post_save(&mut repo, PostId::New, &input("Draft", "", "", ""), NOW).unwrap();
    assert!(repo.find_by_id(id, true).is_some());
    let listed = repo.list_posts();
    assert_eq!(listed.len(), 1);
    assert!(!listed[0].is_published);
}
