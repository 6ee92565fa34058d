//! A verified content pipeline for a single-author static site: front-matter
//! extraction, body preprocessing (SVG inlining, math rendering), collection
//! aggregation, and the page, index and feed renderers.
use vstd::prelude::*;

pub mod collection;
pub mod date;
pub mod front_matter;
pub mod index;
pub mod lit;
pub mod math;
pub mod page;
pub mod rss;
pub mod svg;
pub mod text;

verus! {

/// Site-wide configuration: base URL and site title.
pub struct Config {
    pub url: Vec<u8>,
    pub title: Vec<u8>,
}

/// The error taxonomy of the pipeline.
#[derive(Clone, Copy, Debug, PartialEq, Eq, Structural)]
pub enum SSGError {
    /// The document header is missing a delimiter.
    MalformedDocument,
    /// The header is present but fails schema validation.
    InvalidMetadata,
    /// A referenced asset is missing or holds no vector-graphic element.
    AssetError,
    /// Post discovery failed while scanning directories.
    DiscoveryError,
    /// The declared template name is not one of the known variants.
    UnknownTemplate,
    /// A downstream renderer or serializer rejected a value.
    RenderError,
    /// The site configuration is missing or invalid.
    ConfigError,
}

/// The operation a command word requests.
#[derive(Clone, Copy, PartialEq, Eq, Structural, Debug)]
pub enum Command {
    /// Render the syndication feed.
    Feed,
    /// Render the chronological index page.
    Index,
    /// Render a single content page.
    Page,
}

/// Map a command word onto the operation it names; `None` exactly on an
/// unknown word.
pub fn parse_command(word: &Vec<u8>) -> (r: Option<Command>)
    ensures
        word@ == crate::lit::cmd_feed() ==> r == Some(Command::Feed),
        word@ == crate::lit::cmd_index() ==> r == Some(Command::Index),
        word@ == crate::lit::cmd_page() ==> r == Some(Command::Page),
        word@ != crate::lit::cmd_feed() && word@ != crate::lit::cmd_index() && word@
            != crate::lit::cmd_page() ==> r is None,
{
    let feed = crate::lit::cmd_feed_vec();
    let index = crate::lit::cmd_index_vec();
    let page = crate::lit::cmd_page_vec();
    if crate::text::eq_bytes(word, &feed) {
        Some(Command::Feed)
    } else if crate::text::eq_bytes(word, &index) {
        Some(Command::Index)
    } else if crate::text::eq_bytes(word, &page) {
        Some(Command::Page)
    } else {
        None
    }
}

} // verus!
