use vstd::prelude::*;

use crate::front_matter::{PostMeta, PostMetaView};

verus! {

/// One loaded post: its parsed front matter, if the file had any, and the
/// body already rendered to HTML.
pub struct Post {
    pub meta: Option<PostMeta>,
    pub raw_content: Vec<u8>,
}

/// The mathematical value of a `Post`.
pub struct PostView {
    pub meta: Option<PostMetaView>,
    pub raw_content: Seq<u8>,
}

impl View for Post {
    type V = PostView;

    open spec fn view(&self) -> PostView {
        PostView {
            meta: match self.meta {
                Some(m) => Some(m@),
                None => None,
            },
            raw_content: self.raw_content@,
        }
    }
}

/// The views of a sequence of posts.
pub open spec fn post_views(s: Seq<Post>) -> Seq<PostView> {
    s.map_values(|p: Post| p@)
}

} // verus!
