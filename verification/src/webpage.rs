//! Turning fetched web pages into paginated Markdown for the model.
//! Fetching itself is I/O and lives outside; what arrives here is the
//! page text.

use vstd::prelude::*;

use crate::truncate;
use crate::truncate::truncate_with_hint_spec;

verus! {

/// The Markdown rendering of an HTML document.
pub uninterp spec fn md_of(html: Seq<char>) -> Seq<char>;

/// Relies on html2md::parse_html: the Markdown depends on the HTML text
/// alone.
#[verifier::external_body]
fn html_to_markdown(html: &str) -> (r: String)
    ensures
        r@ == md_of(html@),
{
    html2md::parse_html(html)
}

/// Converts a fetched page to Markdown and cuts it to the requested
/// character window, hinting where to continue when something was cut.
pub fn process_html(html: String, start_char: usize, num_chars: usize) -> (r: String)
    ensures
        r@ == truncate_with_hint_spec(md_of(html@), start_char as int, num_chars as int),
{
    let markdown = html_to_markdown(html.as_str());
    truncate::truncate_with_hint(markdown, start_char, num_chars)
}

} // verus!
