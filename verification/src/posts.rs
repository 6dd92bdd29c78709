//! Content metadata kinds shared with the site's content tooling: the
//! attachments and the microformats kind a post's frontmatter may carry.

use vstd::prelude::*;

verus! {

/// An image attached to a post, with its caption.
#[derive(Debug, Clone, PartialEq, Eq)]
pub struct MediaEntry {
    pub image: String,
    pub caption: String,
}

/// One step of a recipe post's instructions.
#[derive(Debug, Clone, PartialEq, Eq)]
pub struct RecipeStep {
    pub text: String,
}

/// The microformats kind of a post.
#[derive(Debug, Clone, PartialEq, Eq)]
pub enum HType {
    Entry,
    Recipe { ingredients: Vec<String>, instructions: Vec<RecipeStep> },
}

} // verus!
