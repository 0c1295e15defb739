use vstd::prelude::*;

verus! {

/// A content item: a blog post (`is_post`) or a static page.
///
/// `time` is the publish-date display value and the sort key for listings,
/// in whole seconds from 1970-01-01 00:00:00 of the naive timeline;
/// `content_html` is the rendering of `content_markdown` and is regenerated
/// on every save.
pub struct Page {
    pub id: i32,
    pub time: i64,
    pub title: String,
    pub url: String,
    pub content_markdown: String,
    pub content_html: String,
    pub is_post: bool,
    pub is_published: bool,
}

/// The mathematical value of a `Page`.
pub struct PageV {
    pub id: int,
    pub time: int,
    pub title: Seq<char>,
    pub url: Seq<char>,
    pub content_markdown: Seq<char>,
    pub content_html: Seq<char>,
    pub is_post: bool,
    pub is_published: bool,
}

impl View for Page {
    type V = PageV;

    open spec fn view(&self) -> PageV {
        PageV {
            id: self.id as int,
            time: self.time as int,
            title: self.title@,
            url: self.url@,
            content_markdown: self.content_markdown@,
            content_html: self.content_html@,
            is_post: self.is_post,
            is_published: self.is_published,
        }
    }
}

impl DeepView for Page {
    type V = PageV;

    open spec fn deep_view(&self) -> PageV {
        self.view()
    }
}

impl Page {
    /// The value the edit form shows for a page not yet created: no
    /// identity, the earliest representable time, empty text, a post, not
    /// published.
    pub fn blank() -> (p: Page)
        ensures
            p@.id == 0,
            p@.time == i64::MIN,
            p@.title.len() == 0,
            p@.url.len() == 0,
            p@.content_markdown.len() == 0,
            p@.content_html.len() == 0,
            p@.is_post,
            !p@.is_published,
    {
        Page {
            id: 0,
            time: i64::MIN,
            title: String::new(),
            url: String::new(),
            content_markdown: String::new(),
            content_html: String::new(),
            is_post: true,
            is_published: false,
        }
    }
}

impl Clone for Page {
    fn clone(&self) -> (r: Self)
        ensures
            r@ == self@,
    {
        Page {
            id: self.id,
            time: self.time,
            title: self.title.clone(),
            url: self.url.clone(),
            content_markdown: self.content_markdown.clone(),
            content_html: self.content_html.clone(),
            is_post: self.is_post,
            is_published: self.is_published,
        }
    }
}

} // verus!
