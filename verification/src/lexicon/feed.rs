//! Feed-skeleton query and response shapes.

use vstd::prelude::*;

verus! {

/// Query parameters of a feed-skeleton request.
#[derive(Debug, Clone)]
pub struct QueryParams {
    pub feed: String,
    pub limit: u32,
    pub cursor: Option<String>,
}

/// One feed entry: the URI of a post.
#[derive(Debug, Clone)]
pub struct Feed {
    pub post: String,
}

impl View for Feed {
    type V = Seq<char>;

    open spec fn view(&self) -> Seq<char> {
        self.post@
    }
}

/// A served page: the entries, newest first, and the cursor of the last
/// one; no cursor means end of results.
#[derive(Debug)]
pub struct OutputSchema {
    pub cursor: Option<String>,
    pub feed: Vec<Feed>,
}

/// Model of an [`OutputSchema`] page.
pub struct OutputSchemaModel {
    pub cursor: Option<Seq<char>>,
    pub feed: Seq<Seq<char>>,
}

impl View for OutputSchema {
    type V = OutputSchemaModel;

    open spec fn view(&self) -> OutputSchemaModel {
        OutputSchemaModel {
            cursor: match self.cursor {
                Some(c) => Some(c@),
                None => None,
            },
            feed: crate::strutil::views_of(self.feed@),
        }
    }
}

} // verus!
