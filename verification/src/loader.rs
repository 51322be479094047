use vstd::prelude::*;

use crate::assets::{check_md_name, is_md_name};
use crate::bytes::{bytes_eq, split_bytes, split_vec};
use crate::external::{markdown_to_html, md_html_of};
use crate::front_matter::{
    apply_line_exec, delim, delim_vec, empty_meta, fold_lines, lemma_fold_step_sub, new_meta,
    FmError, PostMetaView,
};
use crate::post::{post_views, Post, PostView};

verus! {

// The content loader: each markdown file in the posts directory becomes
// one post.  The file's body goes to the markdown collaborator whole; the
// metadata comes from the front-matter block, the lines between a leading
// delimiter line and the first closing delimiter line.  A file that opens
// with no delimiter, or never closes it, simply has no front matter.

/// One source file: its name and its full contents.
pub struct SourceFile {
    pub name: Vec<u8>,
    pub data: Vec<u8>,
}

pub struct SourceFileView {
    pub name: Seq<u8>,
    pub data: Seq<u8>,
}

impl View for SourceFile {
    type V = SourceFileView;

    open spec fn view(&self) -> SourceFileView {
        SourceFileView { name: self.name@, data: self.data@ }
    }
}

pub open spec fn source_views(s: Seq<SourceFile>) -> Seq<SourceFileView> {
    s.map_values(|f: SourceFile| f@)
}

/// The index of the first delimiter line; the length when there is none.
pub open spec fn first_delim_at(ls: Seq<Seq<u8>>) -> nat
    decreases ls.len(),
{
    if ls.len() == 0 {
        0
    } else if ls[0] == delim() {
        0
    } else {
        1 + first_delim_at(ls.drop_first())
    }
}

proof fn lemma_first_delim_at_unique(ls: Seq<Seq<u8>>, i: nat)
    requires
        i <= ls.len(),
        forall|j: int| 0 <= j < i ==> ls[j] != delim(),
        i < ls.len() ==> ls[i as int] == delim(),
    ensures
        i == first_delim_at(ls),
    decreases ls.len(),
{
    if ls.len() == 0 {
    } else if ls[0] == delim() {
    } else {
        assert(i >= 1);
        lemma_first_delim_at_unique(ls.drop_first(), (i - 1) as nat);
    }
}

/// What loading one post file yields: the whole text rendered to HTML, and
/// the front matter parsed when the file opens with a delimiter line that
/// a later delimiter line closes.
pub open spec fn spec_load_post(raw: Seq<u8>) -> Result<PostView, FmError> {
    let lines = split_bytes(raw, 10);
    let html = md_html_of(raw);
    if lines.len() > 0 && lines[0] == delim() && 1 + first_delim_at(lines.drop_first())
        < lines.len() {
        let c = 1 + first_delim_at(lines.drop_first());
        match fold_lines(empty_meta(), lines.subrange(1, c as int)) {
            Ok(m) => Ok(PostView { meta: Some(m), raw_content: html }),
            Err(e) => Err(e),
        }
    } else {
        Ok(PostView { meta: None, raw_content: html })
    }
}

/// Loads one post file, exactly as `spec_load_post` states.
#[verifier::rlimit(60)]
pub fn load_post(raw: &Vec<u8>) -> (r: Result<Post, FmError>)
    ensures
        match r {
            Ok(p) => spec_load_post(raw@) == Ok::<PostView, FmError>(p@),
            Err(e) => spec_load_post(raw@) == Err::<PostView, FmError>(e),
        },
{
    let html = markdown_to_html(raw);
    let lines = split_vec(raw, 10);
    let ghost lv = lines.deep_view();
    let d = delim_vec();
    proof {
        if lines@.len() > 0 {
            assert(lv[0] =~= lines@[0]@);
        }
    }
    if lines.len() == 0 || !bytes_eq(&lines[0], &d) {
        proof {
            if lv.len() > 0 {
                assert(lv[0] != delim());
            }
        }
        return Ok(Post { meta: None, raw_content: html });
    }
    // look for the closing delimiter line
    let mut k: usize = 1;
    while k < lines.len()
        invariant_except_break
            1 <= k <= lv.len(),
            lv == lines.deep_view(),
            d@ == delim(),
            forall|t: int| 1 <= t < k ==> lv[t] != delim(),
        ensures
            1 <= k <= lv.len(),
            lv == lines.deep_view(),
            forall|t: int| 1 <= t < k ==> lv[t] != delim(),
            k < lv.len() ==> lv[k as int] == delim(),
        decreases lv.len() - k,
    {
        proof {
            assert(lv[k as int] =~= lines@[k as int]@);
        }
        if bytes_eq(&lines[k], &d) {
            break ;
        }
        k += 1;
    }
    let ghost tail = lv.drop_first();
    proof {
        assert forall|j: int| 0 <= j < k - 1 implies tail[j] != delim() by {
            assert(tail[j] == lv[j + 1]);
        }
        if k < lv.len() {
            assert(tail[k - 1] == lv[k as int]);
        }
        lemma_first_delim_at_unique(tail, (k - 1) as nat);
    }
    if k == lines.len() {
        // never closed: the block is not front matter
        return Ok(Post { meta: None, raw_content: html });
    }
    // fold the lines strictly between the delimiters
    let ghost c = k as int;
    let mut m = new_meta();
    let mut t: usize = 1;
    proof {
        assert(lv.subrange(1, c).len() >= 0);
    }
    while t < k
        invariant
            1 <= t <= k < lv.len(),
            lv == lines.deep_view(),
            lv == split_bytes(raw@, 10),
            lv[0] == delim(),
            c == 1 + first_delim_at(lv.drop_first()),
            html@ == md_html_of(raw@),
            fold_lines(empty_meta(), lv.subrange(1, c)) == fold_lines(m@, lv.subrange(t as int, c)),
            c == k as int,
        decreases k - t,
    {
        proof {
            lemma_fold_step_sub(m@, lv, t as int, c);
            assert(lv[t as int] =~= lines@[t as int]@);
        }
        let step = apply_line_exec(&mut m, &lines[t]);
        match step {
            None => {},
            Some(e) => {
                return Err(e);
            },
        }
        t += 1;
    }
    proof {
        assert(lv.subrange(t as int, c) =~= Seq::<Seq<u8>>::empty());
    }
    Ok(Post { meta: Some(m), raw_content: html })
}

/// What loading the first `n` files of the posts directory yields: each
/// file whose name matches the markdown pattern becomes one post, in
/// order; the first malformed front matter aborts the load.
pub open spec fn load_posts_prefix(files: Seq<SourceFileView>, n: int) -> Result<
    Seq<PostView>,
    FmError,
>
    recommends
        0 <= n <= files.len(),
    decreases n,
{
    if n <= 0 {
        Ok(Seq::empty())
    } else {
        match load_posts_prefix(files, n - 1) {
            Err(e) => Err(e),
            Ok(rest) => {
                if is_md_name(files[n - 1].name) {
                    match spec_load_post(files[n - 1].data) {
                        Ok(p) => Ok(rest.push(p)),
                        Err(e) => Err(e),
                    }
                } else {
                    Ok(rest)
                }
            },
        }
    }
}

/// Loads the posts directory, exactly as `load_posts_prefix` states over
/// the whole file list.
pub fn load_posts(files: &Vec<SourceFile>) -> (r: Result<Vec<Post>, FmError>)
    ensures
        match r {
            Ok(posts) => load_posts_prefix(source_views(files@), files@.len() as int) == Ok::<
                Seq<PostView>,
                FmError,
            >(post_views(posts@)),
            Err(e) => load_posts_prefix(source_views(files@), files@.len() as int) == Err::<
                Seq<PostView>,
                FmError,
            >(e),
        },
{
    let ghost fv = source_views(files@);
    let mut out: Vec<Post> = Vec::new();
    let mut i: usize = 0;
    proof {
        assert(post_views(out@) =~= Seq::<PostView>::empty());
    }
    while i < files.len()
        invariant
            0 <= i <= files@.len(),
            fv == source_views(files@),
            load_posts_prefix(fv, i as int) == Ok::<Seq<PostView>, FmError>(post_views(out@)),
        decreases files@.len() - i,
    {
        proof {
            assert(fv[i as int] == files@[i as int]@);
        }
        if check_md_name(&files[i].name) {
            match load_post(&files[i].data) {
                Ok(p) => {
                    let ghost b = post_views(out@);
                    out.push(p);
                    proof {
                        assert(post_views(out@) =~= b.push(p@));
                    }
                },
                Err(e) => {
                    proof {
                        lemma_load_posts_prefix_err(fv, i as int, fv.len() as int);
                    }
                    return Err(e);
                },
            }
        }
        i += 1;
    }
    Ok(out)
}

/// A load failure at `i`, after a clean prefix, fails the whole load.
proof fn lemma_load_posts_prefix_err(files: Seq<SourceFileView>, i: int, n: int)
    requires
        0 <= i < n <= files.len(),
        load_posts_prefix(files, i) is Ok,
        is_md_name(files[i].name),
        spec_load_post(files[i].data) is Err,
    ensures
        load_posts_prefix(files, n) == Err::<Seq<PostView>, FmError>(
            spec_load_post(files[i].data)->Err_0,
        ),
    decreases n,
{
    if n == i + 1 {
    } else {
        lemma_load_posts_prefix_err(files, i, n - 1);
    }
}

} // verus!
