use vstd::prelude::*;

use crate::bytes::{is_prefix, starts_with};

verus! {

// The watch loop rebuilds on a change event only when the changed path is
// relevant: under one of the source trees, and not inside the output tree.
// Paths are compared against the trees themselves — the caller hands over
// the path relative to the project root — so the output tree's own `posts`
// subdirectory cannot re-trigger a build, and a source file whose name
// merely mentions the output root is not suppressed.

/// `posts/`
pub open spec fn lit_posts_slash() -> Seq<u8> {
    seq![112u8, 111u8, 115u8, 116u8, 115u8, 47u8]
}

/// `layouts/`
pub open spec fn lit_layouts_slash() -> Seq<u8> {
    seq![108u8, 97u8, 121u8, 111u8, 117u8, 116u8, 115u8, 47u8]
}

/// `assets/`
pub open spec fn lit_assets_slash() -> Seq<u8> {
    seq![97u8, 115u8, 115u8, 101u8, 116u8, 115u8, 47u8]
}

/// `docs/`, the output root.
pub open spec fn lit_docs_slash() -> Seq<u8> {
    seq![100u8, 111u8, 99u8, 115u8, 47u8]
}

fn lit_posts_slash_vec() -> (r: Vec<u8>)
    ensures
        r@ == lit_posts_slash(),
{
    let mut v: Vec<u8> = Vec::new();
    v.push(112);
    v.push(111);
    v.push(115);
    v.push(116);
    v.push(115);
    v.push(47);
    proof {
        assert(v@ =~= lit_posts_slash());
    }
    v
}

fn lit_layouts_slash_vec() -> (r: Vec<u8>)
    ensures
        r@ == lit_layouts_slash(),
{
    let mut v: Vec<u8> = Vec::new();
    v.push(108);
    v.push(97);
    v.push(121);
    v.push(111);
    v.push(117);
    v.push(116);
    v.push(115);
    v.push(47);
    proof {
        assert(v@ =~= lit_layouts_slash());
    }
    v
}

fn lit_assets_slash_vec() -> (r: Vec<u8>)
    ensures
        r@ == lit_assets_slash(),
{
    let mut v: Vec<u8> = Vec::new();
    v.push(97);
    v.push(115);
    v.push(115);
    v.push(101);
    v.push(116);
    v.push(115);
    v.push(47);
    proof {
        assert(v@ =~= lit_assets_slash());
    }
    v
}

/// The output root prefix, `docs/`, as a vector.
pub fn lit_docs_slash_vec() -> (r: Vec<u8>)
    ensures
        r@ == lit_docs_slash(),
{
    let mut v: Vec<u8> = Vec::new();
    v.push(100);
    v.push(111);
    v.push(99);
    v.push(115);
    v.push(47);
    proof {
        assert(v@ =~= lit_docs_slash());
    }
    v
}

/// The accept filter: the project-relative path lies under one of the
/// source trees.
pub open spec fn accepts(path: Seq<u8>) -> bool {
    is_prefix(lit_posts_slash(), path) || is_prefix(lit_layouts_slash(), path) || is_prefix(
        lit_assets_slash(),
        path,
    )
}

/// The reject filter: the project-relative path lies inside the output
/// tree.
pub open spec fn rejects(path: Seq<u8>) -> bool {
    is_prefix(lit_docs_slash(), path)
}

/// A change event triggers a rebuild only for a path that matches the
/// accept filter and not the reject filter.
pub open spec fn qualifies(path: Seq<u8>) -> bool {
    accepts(path) && !rejects(path)
}

/// Whether a change event at this project-relative path should trigger a
/// rebuild: exactly when it lies under the posts, layouts or assets source
/// tree and not inside the output tree.
pub fn should_rebuild(path: &Vec<u8>) -> (r: bool)
    ensures
        r == qualifies(path@),
        is_prefix(lit_docs_slash(), path@) ==> !r,
{
    proof {
        if is_prefix(lit_docs_slash(), path@) {
            lemma_output_tree_never_triggers(path@);
        }
    }
    let accept = starts_with(path, &lit_posts_slash_vec()) || starts_with(
        path,
        &lit_layouts_slash_vec(),
    ) || starts_with(path, &lit_assets_slash_vec());
    let reject = starts_with(path, &lit_docs_slash_vec());
    accept && !reject
}

/// A change event whose path is inside the output tree never triggers a
/// rebuild, even though the output tree holds a `posts` subdirectory of
/// its own.
pub proof fn lemma_output_tree_never_triggers(path: Seq<u8>)
    requires
        is_prefix(lit_docs_slash(), path),
    ensures
        !qualifies(path),
{
}

} // verus!
