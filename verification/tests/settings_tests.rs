use minicms::errors::Error;
use minicms::repo::Repository;
use minicms::settings_ops::{
    get_css, get_footer_markdown, get_header_markdown, get_javascript, get_posts_per_page,
    set_css, set_footer, set_header, set_javascript, set_posts_per_page,
};

#[test]
fn the_seeded_settings_have_empty_text_and_five_posts_per_page() {
    let repo = Repository::new();
    assert_eq!(get_header_markdown(&repo), "");
    assert_eq!(get_footer_markdown(&repo), "");
    assert_eq!(get_css(&repo), "");
    assert_eq!(get_javascript(&repo), "");
    assert_eq!(get_posts_per_page(&repo), 5);
}

#[test]
fn the_header_stores_markdown_and_rendered_html_together() {
    let mut repo = Repository::new();
    set_header(&mut repo, "# Site\n\n*welcome*");
    assert_eq!(get_header_markdown(&repo), "# Site\n\n*welcome*");
    assert_eq!(repo.get_settings().header_html, "<h1>Site</h1>\n<p><em>welcome</em></p>\n");
    // The footer pairing is untouched.
    assert_eq!(get_footer_markdown(&repo), "");
    assert_eq!(repo.get_settings().footer_html, "");
}

#[test]
fn the_footer_stores_markdown_and_rendered_html_together() {
    let mut repo = Repository::new();
    set_footer(&mut repo, "powered by *nothing*");
    assert_eq!(get_footer_markdown(&repo), "powered by *nothing*");
    assert_eq!(repo.get_settings().footer_html, "<p>powered by <em>nothing</em></p>\n");
}

#[test]
fn css_and_javascript_are_stored_verbatim() {
    let mut repo = Repository::new();
    set_css(&mut repo, "body { color: *red* }");
    set_javascript(&mut repo, "if (a < b) { alert('<hi>') }");
    assert_eq!(get_css(&repo), "body { color: *red* }");
    assert_eq!(get_javascript(&repo), "if (a < b) { alert('<hi>') }");
}

#[test]
fn posts_per_page_accepts_only_positive_integers() {
    let mut repo = Repository::new();
    assert_eq!(set_posts_per_page(&mut repo, "7"), Ok(()));
    assert_eq!(get_posts_per_page(&repo), 7);

    // Zero fails and leaves the stored value unchanged.
    assert_eq!(set_posts_per_page(&mut repo, "0"), Err(Error::InvalidPositiveInteger));
    assert_eq!(get_posts_per_page(&repo), 7);

    assert_eq!(set_posts_per_page(&mut repo, "-3"), Err(Error::InvalidPositiveInteger));
    assert_eq!(set_posts_per_page(&mut repo, "five"), Err(Error::InvalidPositiveInteger));
    assert_eq!(set_posts_per_page(&mut repo, ""), Err(Error::InvalidPositiveInteger));
    assert_eq!(set_posts_per_page(&mut repo, "7.5"), Err(Error::InvalidPositiveInteger));
    assert_eq!(get_posts_per_page(&repo), 7);
}

#[test]
fn markdown_rendering_supports_the_extension_set() {
    let mut repo = Repository::new();
    set_header(&mut repo, "~~gone~~");
    assert_eq!(repo.get_settings().header_html, "<p><del>gone</del></p>\n");
    set_header(&mut repo, "| a |\n| - |\n| b |");
    assert!(repo.get_settings().header_html.contains("<table>"));
    assert!(repo.get_settings().header_html.contains("<td>b</td>"));
}

#[test]
fn error_kinds_classify_and_describe_themselves() {
    assert!(Error::InvalidPositiveInteger.is_user_error());
    assert!(Error::NotFound.is_user_error());
    assert!(Error::BadInput.is_user_error());
    assert!(Error::InvalidSlug.is_user_error());
    assert!(Error::InvalidDate.is_user_error());
    assert!(!Error::StorageError.is_user_error());
    assert!(!Error::SettingsMissing.is_user_error());
    assert!(Error::InvalidSlug.message().contains("hyphens"));
    assert!(Error::InvalidDate.message().contains("YYYY-MM-DD"));
}
