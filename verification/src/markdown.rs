//! Metadata of the site's markdown pages.
//!
//! Rendering markdown to HTML is an external collaborator's work; the core
//! only carries a page's front matter as data.

use vstd::prelude::*;

verus! {

/// The metadata block at the head of a markdown page.
pub struct FrontMatter {
    pub category: String,
    pub page: Option<String>,
    pub title: String,
}

} // verus!
