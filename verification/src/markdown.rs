use vstd::prelude::*;

verus! {

/// The HTML that the Markdown renderer produces for a given source text.
/// The renderer is a pure function — the result depends on the source
/// characters alone — so the mapping itself is only named here, and every
/// contract that speaks of rendered HTML speaks of this name.
pub uninterp spec fn html_of(markdown: Seq<char>) -> Seq<char>;

/// Renders Markdown to HTML with the full extension set (tables,
/// strikethrough, footnotes, task lists, smart punctuation).  The output is
/// trusted HTML for a trusted single-admin author: no sanitization is applied.
///
/// Relies on pulldown_cmark: `Parser::new_ext` with `Options::all()` followed
/// by `html::push_html` is a deterministic function of the source text alone,
/// and an empty source produces no events, hence empty HTML.
#[verifier::external_body]
pub fn markdown_to_html(markdown: &str) -> (r: String)
    ensures
        r@ == html_of(markdown@),
        markdown@.len() == 0 ==> r@.len() == 0,
{
    let parser = pulldown_cmark::Parser::new_ext(markdown, pulldown_cmark::Options::all());
    let mut html = String::new();
    pulldown_cmark::html::push_html(&mut html, parser);
    html
}

} // verus!
