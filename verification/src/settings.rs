use vstd::prelude::*;

verus! {

/// The singleton site settings record.
///
/// `header_html` and `footer_html` are the renderings of their Markdown
/// sources and are replaced together with them; `css` and `javascript` are
/// stored verbatim; `posts_per_page` is a positive integer controlling
/// listing pagination.
pub struct Settings {
    pub header_markdown: String,
    pub header_html: String,
    pub footer_markdown: String,
    pub footer_html: String,
    pub css: String,
    pub javascript: String,
    pub posts_per_page: i32,
}

/// The mathematical value of a `Settings` record.
pub struct SettingsV {
    pub header_markdown: Seq<char>,
    pub header_html: Seq<char>,
    pub footer_markdown: Seq<char>,
    pub footer_html: Seq<char>,
    pub css: Seq<char>,
    pub javascript: Seq<char>,
    pub posts_per_page: int,
}

impl View for Settings {
    type V = SettingsV;

    open spec fn view(&self) -> SettingsV {
        SettingsV {
            header_markdown: self.header_markdown@,
            header_html: self.header_html@,
            footer_markdown: self.footer_markdown@,
            footer_html: self.footer_html@,
            css: self.css@,
            javascript: self.javascript@,
            posts_per_page: self.posts_per_page as int,
        }
    }
}

impl Clone for Settings {
    fn clone(&self) -> (r: Self)
        ensures
            r@ == self@,
    {
        Settings {
            header_markdown: self.header_markdown.clone(),
            header_html: self.header_html.clone(),
            footer_markdown: self.footer_markdown.clone(),
            footer_html: self.footer_html.clone(),
            css: self.css.clone(),
            javascript: self.javascript.clone(),
            posts_per_page: self.posts_per_page,
        }
    }
}

impl Settings {
    /// The record the migration bootstrap seeds: empty text fields and five
    /// posts per page.
    pub fn seeded() -> (s: Settings)
        ensures
            s@.header_markdown.len() == 0,
            s@.header_html.len() == 0,
            s@.footer_markdown.len() == 0,
            s@.footer_html.len() == 0,
            s@.css.len() == 0,
            s@.javascript.len() == 0,
            s@.posts_per_page == 5,
    {
        Settings {
            header_markdown: String::new(),
            header_html: String::new(),
            footer_markdown: String::new(),
            footer_html: String::new(),
            css: String::new(),
            javascript: String::new(),
            posts_per_page: 5,
        }
    }
}

} // verus!
