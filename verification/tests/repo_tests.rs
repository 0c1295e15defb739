use minicms::errors::Error;
use minicms::lifecycle::{post_save, PostId, PostInput};
use minicms::page::Page;
use minicms::repo::Repository;
use minicms::settings::Settings;

fn page(time: i64, is_post: bool, is_published: bool) -> Page {
    Page {
        id: 0,
        time,
        title: "t".to_string(),
        url: "u".to_string(),
        content_markdown: String::new(),
        content_html: String::new(),
        is_post,
        is_published,
    }
}

#[test]
fn listing_never_returns_static_pages() {
    let mut repo = Repository::new();
    // Interleave posts and static pages in several insertion orders.
    repo.insert(page(5, false, true));
    repo.insert(page(9, true, true));
    repo.insert(page(1, true, false));
    repo.insert(page(7, false, false));
    repo.insert(page(3, true, true));
    let listed = repo.list_posts();
    assert_eq!(listed.len(), 3);
    for p in &listed {
        assert!(p.is_post);
    }
}

#[test]
fn listing_orders_by_time_descending() {
    let mut repo = Repository::new();
    let a = repo.insert(page(10, true, true));
    let b = repo.insert(page(30, true, true));
    let c = repo.insert(page(20, true, true));
    let listed = repo.list_posts();
    let ids: Vec<i32> = listed.iter().map(|p| p.id).collect();
    assert_eq!(ids, vec![b, c, a]);
}

#[test]
fn equal_times_break_ties_by_identity_descending() {
    let mut repo = Repository::new();
    let a = repo.insert(page(10, true, true));
    let b = repo.insert(page(10, true, true));
    let c = repo.insert(page(10, true, true));
    let ids: Vec<i32> = repo.list_posts().iter().map(|p| p.id).collect();
    assert_eq!(ids, vec![c, b, a]);
}

#[test]
fn lookup_honours_the_post_filter() {
    let mut repo = Repository::new();
    let id = repo.insert(page(1, false, false));
    assert!(repo.find_by_id(id, true).is_none());
    assert!(repo.find_by_id(id, false).is_some());
}

#[test]
fn updating_a_missing_row_reports_not_found() {
    let mut repo = Repository::new();
    let mut p = page(1, true, false);
    p.id = 12;
    assert!(repo.update(&p).is_err());
}

#[test]
fn inserted_pages_get_consecutive_identities() {
    let mut repo = Repository::new();
    assert_eq!(repo.insert(page(1, true, false)), 1);
    assert_eq!(repo.insert(page(2, true, false)), 2);
    assert_eq!(repo.insert(page(3, false, false)), 3);
}

#[test]
fn loading_preserves_identities_and_continues_numbering() {
    let mut repo = Repository::new();
    repo.insert(page(1, true, false));
    repo.insert(page(2, true, true));

    let mut a = page(5, true, false);
    a.id = 3;
    let mut b = page(6, true, false);
    b.id = 8;
    let loaded = Repository::load(vec![a, b], repo.get_settings().clone()).unwrap();
    assert!(loaded.find_by_id(3, true).is_some());
    assert!(loaded.find_by_id(8, true).is_some());
    // Numbering continues past the largest stored identity.
    let mut loaded = loaded;
    assert_eq!(loaded.insert(page(7, true, false)), 9);
}

#[test]
fn loading_rejects_corrupt_rows() {
    let mut a = page(1, true, false);
    a.id = 4;
    let mut b = page(2, true, false);
    b.id = 4;
    assert!(matches!(
        Repository::load(vec![a, b], Settings::seeded()),
        Err(Error::StorageError)
    ));
    let mut c = page(1, true, false);
    c.id = 0;
    assert!(matches!(
        Repository::load(vec![c], Settings::seeded()),
        Err(Error::StorageError)
    ));
}

#[test]
fn the_blank_form_page_has_the_expected_defaults() {
    let p = minicms::page::Page::blank();
    assert_eq!(p.id, 0);
    assert_eq!(p.time, i64::MIN);
    assert_eq!(p.title, "");
    assert_eq!(p.url, "");
    assert!(p.is_post);
    assert!(!p.is_published);
}

#[test]
fn derived_slugs_are_not_checked_for_uniqueness() {
    // Two pages may end up with the same slug: the repository stores both.
    let mut repo = Repository::new();
    let form = PostInput {
        title: "Same Title".to_string(),
        url: String::new(),
        date: String::new(),
        content: String::new(),
    };
    let a = post_save(&mut repo, PostId::New, &form, 1).unwrap();
    let b = post_save(&mut repo, PostId::New, &form, 2).unwrap();
    assert_ne!(a, b);
    assert_eq!(repo.find_by_id(a, true).unwrap().url, "same-title");
    assert_eq!(repo.find_by_id(b, true).unwrap().url, "same-title");
}
