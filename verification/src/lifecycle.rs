use vstd::prelude::*;

verus! {

use crate::errors::Error;
use crate::dates::{parse_date_noon, valid_date_str, spec_date_timestamp, date_year, date_month, date_day};
use crate::markdown::{html_of, markdown_to_html};
use crate::numbers::{parse_i32, parses_as_i32, int_value};
use crate::page::{Page, PageV};
use crate::repo::{
    Repository, RepoV, contains_id, lemma_replace_page_preserves, page_with_id, replace_page,
    unique_ids,
};
use crate::slug::{derive_or_validate_slug, derive_slug, spec_valid_url};

// ---------------------------------------------------------------------------
// Inputs
// ---------------------------------------------------------------------------

/// The form input for creating or editing a post: free-text title, an
/// optional explicit URL (empty means "derive from the title"), an optional
/// `YYYY-MM-DD` date (empty means "now"), and the Markdown content.
pub struct PostInput {
    pub title: String,
    pub url: String,
    pub date: String,
    pub content: String,
}

/// The mathematical value of a `PostInput`.
pub struct PostInputV {
    pub title: Seq<char>,
    pub url: Seq<char>,
    pub date: Seq<char>,
    pub content: Seq<char>,
}

impl View for PostInput {
    type V = PostInputV;

    open spec fn view(&self) -> PostInputV {
        PostInputV { title: self.title@, url: self.url@, date: self.date@, content: self.content@ }
    }
}

/// The page a request path addresses: the literal `new`, or an existing
/// identity.
#[derive(Clone, Copy, Debug, PartialEq, Eq, Structural)]
pub enum PostId {
    New,
    Existing(i32),
}

/// The characters of the literal path segment naming a new post.
pub open spec fn new_token() -> Seq<char> {
    seq!['n', 'e', 'w']
}

fn is_new_token(s: &str) -> (r: bool)
    ensures
        r == (s@ == new_token()),
{
    let n = s.unicode_len();
    if n != 3 {
        return false;
    }
    let r = s.get_char(0) == 'n' && s.get_char(1) == 'e' && s.get_char(2) == 'w';
    proof {
        if r {
            assert(s@ =~= new_token());
        }
    }
    r
}

/// Classify the path segment addressing a post: `new` names a new page, an
/// integer literal an existing identity, and anything else is a malformed
/// identifier (`BadInput`).
pub fn parse_post_id(s: &str) -> (r: Result<PostId, Error>)
    ensures
        s@ == new_token() ==> r == Ok::<PostId, Error>(PostId::New),
        s@ != new_token() && parses_as_i32(s@) ==> r == Ok::<PostId, Error>(
            PostId::Existing(int_value(s@) as i32),
        ),
        s@ != new_token() && !parses_as_i32(s@) ==> r == Err::<PostId, Error>(Error::BadInput),
{
    if is_new_token(s) {
        Ok(PostId::New)
    } else {
        match parse_i32(s) {
            Some(v) => Ok(PostId::Existing(v)),
            None => Err(Error::BadInput),
        }
    }
}

// ---------------------------------------------------------------------------
// What a save stores
// ---------------------------------------------------------------------------

/// Is the explicit URL acceptable (absent, or matching the slug pattern)?
pub open spec fn slug_ok(input: PostInputV) -> bool {
    input.url.len() == 0 || spec_valid_url(input.url)
}

/// The slug a save stores: the explicit URL, or the derivation from the title.
pub open spec fn slug_of(input: PostInputV) -> Seq<char> {
    if input.url.len() == 0 {
        derive_slug(input.title)
    } else {
        input.url
    }
}

/// Is the date field acceptable (absent, or a valid `YYYY-MM-DD` date)?
pub open spec fn time_ok(input: PostInputV) -> bool {
    input.date.len() == 0 || valid_date_str(input.date)
}

/// The time a save stores: noon of the given date, or `now` when the date
/// field is empty.
pub open spec fn time_of(input: PostInputV, now: int) -> int {
    if input.date.len() == 0 {
        now
    } else {
        spec_date_timestamp(date_year(input.date), date_month(input.date), date_day(input.date))
    }
}

/// The page a successful save stores: every content field comes from the
/// input (the HTML regenerated from the Markdown), `is_post` always holds,
/// and `is_published` is forced by a publish or unpublish operation, kept
/// from the edited page otherwise (`was_published`; `false` for a new page).
pub open spec fn saved_page(
    id: int,
    input: PostInputV,
    now: int,
    was_published: bool,
    set_published: Option<bool>,
) -> PageV {
    PageV {
        id: id,
        time: time_of(input, now),
        title: input.title,
        url: slug_of(input),
        content_markdown: input.content,
        content_html: html_of(input.content),
        is_post: true,
        is_published: match set_published {
            Some(b) => b,
            None => was_published,
        },
    }
}

/// The full meaning of a save operation: how the repository after the call
/// and the result relate to the repository before it.  Validation failures
/// leave the repository unchanged and name the first failing check, in the
/// order: existence of the edited post, slug, date.
pub open spec fn save_outcome(
    before: RepoV,
    after: RepoV,
    id: PostId,
    input: PostInputV,
    set_published: Option<bool>,
    now: int,
    r: Result<i32, Error>,
) -> bool {
    match id {
        PostId::New => if !slug_ok(input) {
            r == Err::<i32, Error>(Error::InvalidSlug) && after == before
        } else if !time_ok(input) {
            r == Err::<i32, Error>(Error::InvalidDate) && after == before
        } else {
            &&& r == Ok::<i32, Error>(before.next_id as i32)
            &&& after.pages == before.pages.push(
                saved_page(before.next_id, input, now, false, set_published),
            )
            &&& after.next_id == before.next_id + 1
            &&& after.settings == before.settings
        },
        PostId::Existing(pid) => if !(contains_id(before.pages, pid as int) && page_with_id(
            before.pages,
            pid as int,
        ).is_post) {
            r == Err::<i32, Error>(Error::NotFound) && after == before
        } else if !slug_ok(input) {
            r == Err::<i32, Error>(Error::InvalidSlug) && after == before
        } else if !time_ok(input) {
            r == Err::<i32, Error>(Error::InvalidDate) && after == before
        } else {
            &&& r == Ok::<i32, Error>(pid)
            &&& after.pages == replace_page(
                before.pages,
                saved_page(
                    pid as int,
                    input,
                    now,
                    page_with_id(before.pages, pid as int).is_published,
                    set_published,
                ),
            )
            &&& after.next_id == before.next_id
            &&& after.settings == before.settings
        },
    }
}

// ---------------------------------------------------------------------------
// Operations
// ---------------------------------------------------------------------------

/// Create or edit a post: validate the slug, resolve the time, re-render the
/// Markdown, and persist — an insert for a new page, a full-row replace for
/// an existing one.  `set_published` forces the publish state (`None` keeps
/// it).  `now` is the caller's clock reading, used when the date field is
/// empty.  Returns the identity of the saved page.
pub fn save_post(
    repo: &mut Repository,
    id: PostId,
    input: &PostInput,
    set_published: Option<bool>,
    now: i64,
) -> (r: Result<i32, Error>)
    requires
        old(repo).inv(),
        old(repo)@.next_id < 0x7FFF_FFFF,
    ensures
        final(repo).inv(),
        save_outcome(old(repo)@, final(repo)@, id, input@, set_published, now as int, r),
{
    let existing: Option<Page> = match id {
        PostId::New => None,
        PostId::Existing(pid) => {
            match repo.find_by_id(pid, true) {
                Some(p) => Some(p.clone()),
                None => {
                    return Err(Error::NotFound);
                },
            }
        },
    };
    let url = match derive_or_validate_slug(&input.title, &input.url) {
        Ok(u) => u,
        Err(e) => {
            return Err(e);
        },
    };
    let time = if input.date.as_str().is_empty() {
        now
    } else {
        match parse_date_noon(&input.date) {
            Ok(t) => t,
            Err(e) => {
                return Err(e);
            },
        }
    };
    let html = markdown_to_html(&input.content);
    let is_published = match set_published {
        Some(b) => b,
        None => match &existing {
            Some(p) => p.is_published,
            None => false,
        },
    };
    let page = Page {
        id: match &existing {
            Some(p) => p.id,
            None => 0,
        },
        time,
        title: input.title.clone(),
        url,
        content_markdown: input.content.clone(),
        content_html: html,
        is_post: true,
        is_published,
    };
    match existing {
        Some(_) => {
            let saved_id = page.id;
            match repo.update(&page) {
                Ok(_) => Ok(saved_id),
                Err(_) => {
                    proof {
                        assert(false);
                    }
                    Err(Error::StorageError)
                },
            }
        },
        None => {
            let new_id = repo.insert(page);
            Ok(new_id)
        },
    }
}

/// `save_post` without touching the publish state.
pub fn post_save(repo: &mut Repository, id: PostId, input: &PostInput, now: i64) -> (r: Result<
    i32,
    Error,
>)
    requires
        old(repo).inv(),
        old(repo)@.next_id < 0x7FFF_FFFF,
    ensures
        final(repo).inv(),
        save_outcome(old(repo)@, final(repo)@, id, input@, None, now as int, r),
{
    save_post(repo, id, input, None, now)
}

/// Save and force `is_published = true`: editing and the state transition
/// are one atomic operation.
pub fn publish_post(repo: &mut Repository, id: PostId, input: &PostInput, now: i64) -> (r: Result<
    i32,
    Error,
>)
    requires
        old(repo).inv(),
        old(repo)@.next_id < 0x7FFF_FFFF,
    ensures
        final(repo).inv(),
        save_outcome(old(repo)@, final(repo)@, id, input@, Some(true), now as int, r),
{
    save_post(repo, id, input, Some(true), now)
}

/// Save and force `is_published = false`.
pub fn unpublish_post(repo: &mut Repository, id: PostId, input: &PostInput, now: i64) -> (r:
    Result<i32, Error>)
    requires
        old(repo).inv(),
        old(repo)@.next_id < 0x7FFF_FFFF,
    ensures
        final(repo).inv(),
        save_outcome(old(repo)@, final(repo)@, id, input@, Some(false), now as int, r),
{
    save_post(repo, id, input, Some(false), now)
}

/// Delete a post permanently: the page must exist and be a post, else
/// `NotFound` (so deleting twice reports `NotFound` the second time); no
/// cascading side effects, and every other page is untouched.
pub fn delete_post(repo: &mut Repository, id: i32) -> (r: Result<(), Error>)
    requires
        old(repo).inv(),
    ensures
        final(repo).inv(),
        final(repo)@.settings == old(repo)@.settings,
        final(repo)@.next_id == old(repo)@.next_id,
        contains_id(old(repo)@.pages, id as int) && page_with_id(
            old(repo)@.pages,
            id as int,
        ).is_post ==> r == Ok::<(), Error>(()) && !contains_id(final(repo)@.pages, id as int) && (
        exists|i: int|
            0 <= i < old(repo)@.pages.len() && (#[trigger] old(repo)@.pages[i]).id == id as int
                && final(repo)@.pages == old(repo)@.pages.remove(i)),
        !(contains_id(old(repo)@.pages, id as int) && page_with_id(
            old(repo)@.pages,
            id as int,
        ).is_post) ==> r == Err::<(), Error>(Error::NotFound) && final(repo)@ == old(repo)@,
{
    if repo.find_by_id(id, true).is_none() {
        return Err(Error::NotFound);
    }
    match repo.remove(id) {
        Ok(_) => Ok(()),
        Err(_) => {
            proof {
                assert(false);
            }
            Err(Error::StorageError)
        },
    }
}

// ---------------------------------------------------------------------------
// Laws
// ---------------------------------------------------------------------------

/// Publishing and then unpublishing a page with the same input restores
/// `is_published = false` while preserving every other field of the most
/// recent save.
pub proof fn lemma_publish_then_unpublish(id: int, input: PostInputV, now: int, was: bool)
    ensures
        ({
            let published = saved_page(id, input, now, was, Some(true));
            let unpublished = saved_page(id, input, now, published.is_published, Some(false));
            &&& published.is_published
            &&& !unpublished.is_published
            &&& unpublished == (PageV { is_published: false, ..published })
        }),
{
}

/// The same law through the repository: a publish of an existing post
/// followed by an unpublish with the same input succeeds, and the page ends
/// unpublished with every other field as the publish stored it.
pub proof fn lemma_publish_then_unpublish_repo(
    before: RepoV,
    mid: RepoV,
    after: RepoV,
    pid: i32,
    input: PostInputV,
    now: int,
    r1: Result<i32, Error>,
    r2: Result<i32, Error>,
)
    requires
        unique_ids(before.pages),
        contains_id(before.pages, pid as int),
        page_with_id(before.pages, pid as int).is_post,
        slug_ok(input),
        time_ok(input),
        save_outcome(before, mid, PostId::Existing(pid), input, Some(true), now, r1),
        save_outcome(mid, after, PostId::Existing(pid), input, Some(false), now, r2),
    ensures
        r1 == Ok::<i32, Error>(pid),
        r2 == Ok::<i32, Error>(pid),
        ({
            let published = page_with_id(mid.pages, pid as int);
            let reverted = page_with_id(after.pages, pid as int);
            &&& published.is_published
            &&& !reverted.is_published
            &&& reverted == (PageV { is_published: false, ..published })
        }),
{
    let was = page_with_id(before.pages, pid as int).is_published;
    let published = saved_page(pid as int, input, now, was, Some(true));
    lemma_replace_page_preserves(before.pages, published);
    assert(page_with_id(mid.pages, pid as int) == published);
    let reverted = saved_page(pid as int, input, now, published.is_published, Some(false));
    lemma_replace_page_preserves(mid.pages, reverted);
    assert(page_with_id(after.pages, pid as int) == reverted);
    lemma_publish_then_unpublish(pid as int, input, now, was);
}

} // verus!
