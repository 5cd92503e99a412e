//! Scanners that extract links and their locations from source text.

use vstd::prelude::*;

use crate::{Link, Span};
use pulldown_cmark::{Event, Options as MarkdownOptions, Parser, Tag};

verus! {

/// Something that can be used to extract links from some source text.
pub trait LinkExtractor: Sized {
    /// The links of `src`, each with where it was found.
    fn extract(&self, src: &str) -> Vec<(Link, Span)>;
}

/// The links of a markdown document: each href with the byte range of the
/// element carrying it, in document order. What they are depends on the
/// text alone.
pub uninterp spec fn markdown_links(src: Seq<char>) -> Seq<(Seq<char>, u32, u32)>;

/// The URLs of a plain-text document: each with its byte range, in order.
/// What they are depends on the text alone.
pub uninterp spec fn plaintext_links(src: Seq<char>) -> Seq<(Seq<char>, u32, u32)>;

/// A scanner that uses `pulldown_cmark` to extract all links from markdown.
///
/// Relies on `Parser::new_ext` (with footnotes enabled) and its offset
/// iterator: every link and image start event yields its destination and
/// the byte range of the element.
#[verifier::external_body]
pub fn markdown(src: &str) -> (r: Vec<(String, Span)>)
    ensures
        r@.len() == markdown_links(src@).len(),
        forall|i: int|
            0 <= i < r@.len() ==> (#[trigger] r@[i]).0@ == markdown_links(src@)[i].0
                && r@[i].1.start == markdown_links(src@)[i].1 && r@[i].1.end == markdown_links(
                src@,
            )[i].2,
{
    Parser::new_ext(src, MarkdownOptions::ENABLE_FOOTNOTES)
        .into_offset_iter()
        .filter_map(|(event, range)| match event {
            Event::Start(Tag::Link { dest_url, .. }) | Event::Start(Tag::Image { dest_url, .. }) => Some((
                dest_url.to_string(),
                Span { start: range.start as u32, end: range.end as u32 },
            )),
            _ => None,
        })
        .collect()
}

/// Use the `linkify` crate to find all URLs in a string of normal text.
///
/// Relies on `LinkFinder` restricted to URL links: every URL found yields
/// its text and its byte range.
#[verifier::external_body]
pub fn plaintext(src: &str) -> (r: Vec<(String, Span)>)
    ensures
        r@.len() == plaintext_links(src@).len(),
        forall|i: int|
            0 <= i < r@.len() ==> (#[trigger] r@[i]).0@ == plaintext_links(src@)[i].0
                && r@[i].1.start == plaintext_links(src@)[i].1 && r@[i].1.end == plaintext_links(
                src@,
            )[i].2,
{
    linkify::LinkFinder::new()
        .kinds(&[linkify::LinkKind::Url])
        .links(src)
        .map(|link| (
            link.as_str().to_owned(),
            Span { start: link.start() as u32, end: link.end() as u32 },
        ))
        .collect()
}

} // verus!
