use vstd::prelude::*;

verus! {

use crate::errors::Error;
use crate::markdown::{html_of, markdown_to_html};
use crate::numbers::{int_value, parses_as_i32};
use crate::repo::Repository;
use crate::settings::SettingsV;

/// Replace the header: the Markdown source and its rendered HTML are stored
/// together in one update.
pub fn set_header(repo: &mut Repository, header: &str)
    requires
        old(repo).inv(),
    ensures
        final(repo).inv(),
        final(repo)@.pages == old(repo)@.pages,
        final(repo)@.next_id == old(repo)@.next_id,
        final(repo)@.settings == (SettingsV {
            header_markdown: header@,
            header_html: html_of(header@),
            ..old(repo)@.settings
        }),
{
    let mut settings = repo.get_settings().clone();
    settings.header_markdown = header.to_owned();
    settings.header_html = markdown_to_html(header);
    repo.update_settings(settings);
}

/// Replace the footer: the Markdown source and its rendered HTML are stored
/// together in one update.
pub fn set_footer(repo: &mut Repository, footer: &str)
    requires
        old(repo).inv(),
    ensures
        final(repo).inv(),
        final(repo)@.pages == old(repo)@.pages,
        final(repo)@.next_id == old(repo)@.next_id,
        final(repo)@.settings == (SettingsV {
            footer_markdown: footer@,
            footer_html: html_of(footer@),
            ..old(repo)@.settings
        }),
{
    let mut settings = repo.get_settings().clone();
    settings.footer_markdown = footer.to_owned();
    settings.footer_html = markdown_to_html(footer);
    repo.update_settings(settings);
}

/// Replace the site CSS, stored verbatim.
pub fn set_css(repo: &mut Repository, css: &str)
    requires
        old(repo).inv(),
    ensures
        final(repo).inv(),
        final(repo)@.pages == old(repo)@.pages,
        final(repo)@.next_id == old(repo)@.next_id,
        final(repo)@.settings == (SettingsV { css: css@, ..old(repo)@.settings }),
{
    let mut settings = repo.get_settings().clone();
    settings.css = css.to_owned();
    repo.update_settings(settings);
}

/// Replace the site JavaScript, stored verbatim.
pub fn set_javascript(repo: &mut Repository, javascript: &str)
    requires
        old(repo).inv(),
    ensures
        final(repo).inv(),
        final(repo)@.pages == old(repo)@.pages,
        final(repo)@.next_id == old(repo)@.next_id,
        final(repo)@.settings == (SettingsV { javascript: javascript@, ..old(repo)@.settings }),
{
    let mut settings = repo.get_settings().clone();
    settings.javascript = javascript.to_owned();
    repo.update_settings(settings);
}

/// Set the posts-per-page count from its form field: the field must parse
/// as an integer strictly greater than zero, else the operation fails with
/// `InvalidPositiveInteger` and the stored value is unchanged.
pub fn set_posts_per_page(repo: &mut Repository, raw: &str) -> (r: Result<(), Error>)
    requires
        old(repo).inv(),
    ensures
        final(repo).inv(),
        final(repo)@.pages == old(repo)@.pages,
        final(repo)@.next_id == old(repo)@.next_id,
        parses_as_i32(raw@) && int_value(raw@) > 0 ==> r == Ok::<(), Error>(())
            && final(repo)@.settings == (SettingsV {
            posts_per_page: int_value(raw@),
            ..old(repo)@.settings
        }),
        !(parses_as_i32(raw@) && int_value(raw@) > 0) ==> r == Err::<(), Error>(
            Error::InvalidPositiveInteger,
        ) && final(repo)@ == old(repo)@,
{
    let value = match crate::numbers::parse_i32(raw) {
        Some(v) => v,
        None => {
            return Err(Error::InvalidPositiveInteger);
        },
    };
    if value <= 0 {
        return Err(Error::InvalidPositiveInteger);
    }
    let mut settings = repo.get_settings().clone();
    settings.posts_per_page = value;
    repo.update_settings(settings);
    Ok(())
}

/// The stored header Markdown source (what the edit form shows).
pub fn get_header_markdown(repo: &Repository) -> (r: &String)
    ensures
        r@ == repo@.settings.header_markdown,
{
    &repo.get_settings().header_markdown
}

/// The stored footer Markdown source (what the edit form shows).
pub fn get_footer_markdown(repo: &Repository) -> (r: &String)
    ensures
        r@ == repo@.settings.footer_markdown,
{
    &repo.get_settings().footer_markdown
}

/// The stored CSS.
pub fn get_css(repo: &Repository) -> (r: &String)
    ensures
        r@ == repo@.settings.css,
{
    &repo.get_settings().css
}

/// The stored JavaScript.
pub fn get_javascript(repo: &Repository) -> (r: &String)
    ensures
        r@ == repo@.settings.javascript,
{
    &repo.get_settings().javascript
}

/// The stored posts-per-page count.
pub fn get_posts_per_page(repo: &Repository) -> (r: i32)
    ensures
        r == repo@.settings.posts_per_page,
{
    repo.get_settings().posts_per_page
}

} // verus!
