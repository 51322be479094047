use vstd::prelude::*;

use crate::bytes::{append_bytes, copy_vec, push_dec_i64};
use crate::experiments::{exp_views, Experiment};
use crate::experiments::ExperimentView;
use crate::external::{
    epoch_seconds, epoch_seconds_of, format_date, formatted_date_of, render_template,
};
use crate::front_matter::{
    kw_date, kw_description, kw_draft, kw_next, kw_slug, kw_title, kw_title_meta, PostMeta,
    PostMetaView,
};
use crate::index::{
    find_slug, lemma_find_slug_none, lemma_find_slug_some, post_dated, post_slug, window_len,
    window_start, PostIndex,
};
use crate::output::{OutputFile, OutputFileView};
use crate::post::post_views;
use crate::json::{
    json_array, json_bool, json_items, json_key, json_null, json_opt_string, json_string,
    lemma_json_items_snoc, push_json_bool, push_json_key, push_json_null, push_json_opt_string,
    push_json_str_array, push_json_string,
};
use crate::post::{Post, PostView};

verus! {

// The page composer renders two nested templates per page: a content
// template for the page type, then the shared shell around its output.
// Each template sees a rendering context; the spec functions here say,
// byte for byte, which JSON document each context is.

/// `raw_content`
pub open spec fn k_raw_content() -> Seq<u8> {
    seq![114u8, 97u8, 119u8, 95u8, 99u8, 111u8, 110u8, 116u8, 101u8, 110u8, 116u8]
}

/// `raw_content` as a vector.
pub fn k_raw_content_vec() -> (r: Vec<u8>)
    ensures
        r@ == k_raw_content(),
{
    let mut v: Vec<u8> = Vec::new();
    v.push(114);
    v.push(97);
    v.push(119);
    v.push(95);
    v.push(99);
    v.push(111);
    v.push(110);
    v.push(116);
    v.push(101);
    v.push(110);
    v.push(116);
    proof {
        assert(v@ =~= k_raw_content());
    }
    v
}

/// `meta`
pub open spec fn k_meta() -> Seq<u8> {
    seq![109u8, 101u8, 116u8, 97u8]
}

/// `meta` as a vector.
pub fn k_meta_vec() -> (r: Vec<u8>)
    ensures
        r@ == k_meta(),
{
    let mut v: Vec<u8> = Vec::new();
    v.push(109);
    v.push(101);
    v.push(116);
    v.push(97);
    proof {
        assert(v@ =~= k_meta());
    }
    v
}

/// `posts`
pub open spec fn k_posts() -> Seq<u8> {
    seq![112u8, 111u8, 115u8, 116u8, 115u8]
}

/// `posts` as a vector.
pub fn k_posts_vec() -> (r: Vec<u8>)
    ensures
        r@ == k_posts(),
{
    let mut v: Vec<u8> = Vec::new();
    v.push(112);
    v.push(111);
    v.push(115);
    v.push(116);
    v.push(115);
    proof {
        assert(v@ =~= k_posts());
    }
    v
}

/// `content`
pub open spec fn k_content() -> Seq<u8> {
    seq![99u8, 111u8, 110u8, 116u8, 101u8, 110u8, 116u8]
}

/// `content` as a vector.
pub fn k_content_vec() -> (r: Vec<u8>)
    ensures
        r@ == k_content(),
{
    let mut v: Vec<u8> = Vec::new();
    v.push(99);
    v.push(111);
    v.push(110);
    v.push(116);
    v.push(101);
    v.push(110);
    v.push(116);
    proof {
        assert(v@ =~= k_content());
    }
    v
}

/// `path`
pub open spec fn k_path() -> Seq<u8> {
    seq![112u8, 97u8, 116u8, 104u8]
}

/// `path` as a vector.
pub fn k_path_vec() -> (r: Vec<u8>)
    ensures
        r@ == k_path(),
{
    let mut v: Vec<u8> = Vec::new();
    v.push(112);
    v.push(97);
    v.push(116);
    v.push(104);
    proof {
        assert(v@ =~= k_path());
    }
    v
}

/// `show_home`
pub open spec fn k_show_home() -> Seq<u8> {
    seq![115u8, 104u8, 111u8, 119u8, 95u8, 104u8, 111u8, 109u8, 101u8]
}

/// `show_home` as a vector.
pub fn k_show_home_vec() -> (r: Vec<u8>)
    ensures
        r@ == k_show_home(),
{
    let mut v: Vec<u8> = Vec::new();
    v.push(115);
    v.push(104);
    v.push(111);
    v.push(119);
    v.push(95);
    v.push(104);
    v.push(111);
    v.push(109);
    v.push(101);
    proof {
        assert(v@ =~= k_show_home());
    }
    v
}

/// `scripts`
pub open spec fn k_scripts() -> Seq<u8> {
    seq![115u8, 99u8, 114u8, 105u8, 112u8, 116u8, 115u8]
}

/// `scripts` as a vector.
pub fn k_scripts_vec() -> (r: Vec<u8>)
    ensures
        r@ == k_scripts(),
{
    let mut v: Vec<u8> = Vec::new();
    v.push(115);
    v.push(99);
    v.push(114);
    v.push(105);
    v.push(112);
    v.push(116);
    v.push(115);
    proof {
        assert(v@ =~= k_scripts());
    }
    v
}

/// `styles`
pub open spec fn k_styles() -> Seq<u8> {
    seq![115u8, 116u8, 121u8, 108u8, 101u8, 115u8]
}

/// `styles` as a vector.
pub fn k_styles_vec() -> (r: Vec<u8>)
    ensures
        r@ == k_styles(),
{
    let mut v: Vec<u8> = Vec::new();
    v.push(115);
    v.push(116);
    v.push(121);
    v.push(108);
    v.push(101);
    v.push(115);
    proof {
        assert(v@ =~= k_styles());
    }
    v
}

/// `experiments`
pub open spec fn k_experiments() -> Seq<u8> {
    seq![101u8, 120u8, 112u8, 101u8, 114u8, 105u8, 109u8, 101u8, 110u8, 116u8, 115u8]
}

/// `experiments` as a vector.
pub fn k_experiments_vec() -> (r: Vec<u8>)
    ensures
        r@ == k_experiments(),
{
    let mut v: Vec<u8> = Vec::new();
    v.push(101);
    v.push(120);
    v.push(112);
    v.push(101);
    v.push(114);
    v.push(105);
    v.push(109);
    v.push(101);
    v.push(110);
    v.push(116);
    v.push(115);
    proof {
        assert(v@ =~= k_experiments());
    }
    v
}

/// `experiment_markup`
pub open spec fn k_experiment_markup() -> Seq<u8> {
    seq![101u8, 120u8, 112u8, 101u8, 114u8, 105u8, 109u8, 101u8, 110u8, 116u8, 95u8, 109u8, 97u8, 114u8, 107u8, 117u8, 112u8]
}

/// `experiment_markup` as a vector.
pub fn k_experiment_markup_vec() -> (r: Vec<u8>)
    ensures
        r@ == k_experiment_markup(),
{
    let mut v: Vec<u8> = Vec::new();
    v.push(101);
    v.push(120);
    v.push(112);
    v.push(101);
    v.push(114);
    v.push(105);
    v.push(109);
    v.push(101);
    v.push(110);
    v.push(116);
    v.push(95);
    v.push(109);
    v.push(97);
    v.push(114);
    v.push(107);
    v.push(117);
    v.push(112);
    proof {
        assert(v@ =~= k_experiment_markup());
    }
    v
}

/// `notes`
pub open spec fn k_notes() -> Seq<u8> {
    seq![110u8, 111u8, 116u8, 101u8, 115u8]
}

/// `notes` as a vector.
pub fn k_notes_vec() -> (r: Vec<u8>)
    ensures
        r@ == k_notes(),
{
    let mut v: Vec<u8> = Vec::new();
    v.push(110);
    v.push(111);
    v.push(116);
    v.push(101);
    v.push(115);
    proof {
        assert(v@ =~= k_notes());
    }
    v
}

/// `assets`
pub open spec fn k_assets() -> Seq<u8> {
    seq![97u8, 115u8, 115u8, 101u8, 116u8, 115u8]
}

/// `assets` as a vector.
pub fn k_assets_vec() -> (r: Vec<u8>)
    ensures
        r@ == k_assets(),
{
    let mut v: Vec<u8> = Vec::new();
    v.push(97);
    v.push(115);
    v.push(115);
    v.push(101);
    v.push(116);
    v.push(115);
    proof {
        assert(v@ =~= k_assets());
    }
    v
}

/// `prepack`
pub open spec fn k_prepack() -> Seq<u8> {
    seq![112u8, 114u8, 101u8, 112u8, 97u8, 99u8, 107u8]
}

/// `prepack` as a vector.
pub fn k_prepack_vec() -> (r: Vec<u8>)
    ensures
        r@ == k_prepack(),
{
    let mut v: Vec<u8> = Vec::new();
    v.push(112);
    v.push(114);
    v.push(101);
    v.push(112);
    v.push(97);
    v.push(99);
    v.push(107);
    proof {
        assert(v@ =~= k_prepack());
    }
    v
}

/// `next_post`
pub open spec fn k_next_post() -> Seq<u8> {
    seq![110u8, 101u8, 120u8, 116u8, 95u8, 112u8, 111u8, 115u8, 116u8]
}

/// `next_post` as a vector.
pub fn k_next_post_vec() -> (r: Vec<u8>)
    ensures
        r@ == k_next_post(),
{
    let mut v: Vec<u8> = Vec::new();
    v.push(110);
    v.push(101);
    v.push(120);
    v.push(116);
    v.push(95);
    v.push(112);
    v.push(111);
    v.push(115);
    v.push(116);
    proof {
        assert(v@ =~= k_next_post());
    }
    v
}

/// `Welcome`
pub open spec fn lit_welcome() -> Seq<u8> {
    seq![87u8, 101u8, 108u8, 99u8, 111u8, 109u8, 101u8]
}

/// `Welcome` as a vector.
pub fn lit_welcome_vec() -> (r: Vec<u8>)
    ensures
        r@ == lit_welcome(),
{
    let mut v: Vec<u8> = Vec::new();
    v.push(87);
    v.push(101);
    v.push(108);
    v.push(99);
    v.push(111);
    v.push(109);
    v.push(101);
    proof {
        assert(v@ =~= lit_welcome());
    }
    v
}

/// `docs/index.html`
pub open spec fn lit_out_home() -> Seq<u8> {
    seq![100u8, 111u8, 99u8, 115u8, 47u8, 105u8, 110u8, 100u8, 101u8, 120u8, 46u8, 104u8, 116u8, 109u8, 108u8]
}

/// `docs/index.html` as a vector.
pub fn lit_out_home_vec() -> (r: Vec<u8>)
    ensures
        r@ == lit_out_home(),
{
    let mut v: Vec<u8> = Vec::new();
    v.push(100);
    v.push(111);
    v.push(99);
    v.push(115);
    v.push(47);
    v.push(105);
    v.push(110);
    v.push(100);
    v.push(101);
    v.push(120);
    v.push(46);
    v.push(104);
    v.push(116);
    v.push(109);
    v.push(108);
    proof {
        assert(v@ =~= lit_out_home());
    }
    v
}

/// `docs/posts/`
pub open spec fn lit_out_posts() -> Seq<u8> {
    seq![100u8, 111u8, 99u8, 115u8, 47u8, 112u8, 111u8, 115u8, 116u8, 115u8, 47u8]
}

/// `docs/posts/` as a vector.
pub fn lit_out_posts_vec() -> (r: Vec<u8>)
    ensures
        r@ == lit_out_posts(),
{
    let mut v: Vec<u8> = Vec::new();
    v.push(100);
    v.push(111);
    v.push(99);
    v.push(115);
    v.push(47);
    v.push(112);
    v.push(111);
    v.push(115);
    v.push(116);
    v.push(115);
    v.push(47);
    proof {
        assert(v@ =~= lit_out_posts());
    }
    v
}

/// `.html`
pub open spec fn lit_dot_html() -> Seq<u8> {
    seq![46u8, 104u8, 116u8, 109u8, 108u8]
}

/// `.html` as a vector.
pub fn lit_dot_html_vec() -> (r: Vec<u8>)
    ensures
        r@ == lit_dot_html(),
{
    let mut v: Vec<u8> = Vec::new();
    v.push(46);
    v.push(104);
    v.push(116);
    v.push(109);
    v.push(108);
    proof {
        assert(v@ =~= lit_dot_html());
    }
    v
}

/// `docs/experiments/`
pub open spec fn lit_out_experiments() -> Seq<u8> {
    seq![100u8, 111u8, 99u8, 115u8, 47u8, 101u8, 120u8, 112u8, 101u8, 114u8, 105u8, 109u8, 101u8, 110u8, 116u8, 115u8, 47u8]
}

/// `docs/experiments/` as a vector.
pub fn lit_out_experiments_vec() -> (r: Vec<u8>)
    ensures
        r@ == lit_out_experiments(),
{
    let mut v: Vec<u8> = Vec::new();
    v.push(100);
    v.push(111);
    v.push(99);
    v.push(115);
    v.push(47);
    v.push(101);
    v.push(120);
    v.push(112);
    v.push(101);
    v.push(114);
    v.push(105);
    v.push(109);
    v.push(101);
    v.push(110);
    v.push(116);
    v.push(115);
    v.push(47);
    proof {
        assert(v@ =~= lit_out_experiments());
    }
    v
}

/// `/index.html`
pub open spec fn lit_slash_index() -> Seq<u8> {
    seq![47u8, 105u8, 110u8, 100u8, 101u8, 120u8, 46u8, 104u8, 116u8, 109u8, 108u8]
}

/// `/index.html` as a vector.
pub fn lit_slash_index_vec() -> (r: Vec<u8>)
    ensures
        r@ == lit_slash_index(),
{
    let mut v: Vec<u8> = Vec::new();
    v.push(47);
    v.push(105);
    v.push(110);
    v.push(100);
    v.push(101);
    v.push(120);
    v.push(46);
    v.push(104);
    v.push(116);
    v.push(109);
    v.push(108);
    proof {
        assert(v@ =~= lit_slash_index());
    }
    v
}

/// `/posts/`
pub open spec fn lit_posts_prefix() -> Seq<u8> {
    seq![47u8, 112u8, 111u8, 115u8, 116u8, 115u8, 47u8]
}

/// `/posts/` as a vector.
pub fn lit_posts_prefix_vec() -> (r: Vec<u8>)
    ensures
        r@ == lit_posts_prefix(),
{
    let mut v: Vec<u8> = Vec::new();
    v.push(47);
    v.push(112);
    v.push(111);
    v.push(115);
    v.push(116);
    v.push(115);
    v.push(47);
    proof {
        assert(v@ =~= lit_posts_prefix());
    }
    v
}

/// `/experiments/`
pub open spec fn lit_experiments_prefix() -> Seq<u8> {
    seq![47u8, 101u8, 120u8, 112u8, 101u8, 114u8, 105u8, 109u8, 101u8, 110u8, 116u8, 115u8, 47u8]
}

/// `/experiments/` as a vector.
pub fn lit_experiments_prefix_vec() -> (r: Vec<u8>)
    ensures
        r@ == lit_experiments_prefix(),
{
    let mut v: Vec<u8> = Vec::new();
    v.push(47);
    v.push(101);
    v.push(120);
    v.push(112);
    v.push(101);
    v.push(114);
    v.push(105);
    v.push(109);
    v.push(101);
    v.push(110);
    v.push(116);
    v.push(115);
    v.push(47);
    proof {
        assert(v@ =~= lit_experiments_prefix());
    }
    v
}
// --- context documents, byte for byte ---

/// The JSON of one front-matter record, as the templates see it: the date
/// as seconds since the epoch, absent optional fields as `null`.
#[verifier::opaque]
pub open spec fn meta_json(m: PostMetaView) -> Seq<u8> {
    json_key(kw_date(), true) + (match m.date {
        Some(d) => crate::bytes::dec_rep_int(
            epoch_seconds_of(d.day as int, d.month as int, d.year as int),
        ),
        None => json_null(),
    }) + json_key(kw_draft(), false) + json_bool(m.draft) + json_key(kw_next(), false)
        + json_opt_string(m.next) + json_key(kw_slug(), false) + json_string(m.slug) + json_key(
        kw_title(),
        false,
    ) + json_string(m.title) + json_key(kw_description(), false) + json_string(m.description)
        + json_key(kw_title_meta(), false) + json_opt_string(m.title_meta) + seq![125u8]
}

/// The JSON of one post: its rendered body and its front matter.
#[verifier::opaque]
pub open spec fn post_json(p: PostView) -> Seq<u8>
    recommends
        p.meta is Some,
{
    json_key(k_raw_content(), true) + json_string(p.raw_content) + json_key(k_meta(), false)
        + meta_json(p.meta->0) + seq![125u8]
}

/// The JSON array of a post collection.
#[verifier::opaque]
pub open spec fn posts_json(s: Seq<PostView>) -> Seq<u8> {
    json_array(s.map_values(|p: PostView| post_json(p)))
}

/// The home content context: the full sorted post collection.
#[verifier::opaque]
pub open spec fn home_ctx(posts: Seq<PostView>) -> Seq<u8> {
    json_key(k_posts(), true) + posts_json(posts) + seq![125u8]
}

/// The `next_post` value: a `{title, slug}` pair, or `null`.
#[verifier::opaque]
pub open spec fn next_pair_json(next: Option<(Seq<u8>, Seq<u8>)>) -> Seq<u8> {
    match next {
        Some(pair) => json_key(kw_title(), true) + json_string(pair.0) + json_key(kw_slug(), false)
            + json_string(pair.1) + seq![125u8],
        None => json_null(),
    }
}

/// The post content context: display date, title, body, related-posts
/// window, slug and the optional next-post pair.
#[verifier::opaque]
pub open spec fn post_ctx(
    p: PostView,
    related: Seq<PostView>,
    next: Option<(Seq<u8>, Seq<u8>)>,
) -> Seq<u8>
    recommends
        p.meta is Some,
        p.meta->0.date is Some,
{
    json_key(kw_date(), true) + json_string(
        formatted_date_of(
            p.meta->0.date->0.day as int,
            p.meta->0.date->0.month as int,
            p.meta->0.date->0.year as int,
        ),
    ) + json_key(kw_title(), false) + json_string(p.meta->0.title) + json_key(k_content(), false)
        + json_string(p.raw_content) + json_key(k_posts(), false) + posts_json(related) + json_key(
        kw_slug(),
        false,
    ) + json_string(p.meta->0.slug) + json_key(k_next_post(), false) + next_pair_json(next)
        + seq![125u8]
}

/// The shell context of the home page.
#[verifier::opaque]
pub open spec fn shell_home_ctx(content: Seq<u8>) -> Seq<u8> {
    json_key(k_content(), true) + json_string(content) + json_key(kw_description(), false)
        + json_string(Seq::empty()) + json_key(kw_title(), false) + json_string(lit_welcome())
        + json_key(k_path(), false) + json_string(Seq::empty()) + seq![125u8]
}

/// The shell context of a post page.
#[verifier::opaque]
pub open spec fn shell_post_ctx(
    content: Seq<u8>,
    description: Seq<u8>,
    title: Seq<u8>,
    path: Seq<u8>,
) -> Seq<u8> {
    json_key(k_content(), true) + json_string(content) + json_key(kw_description(), false)
        + json_string(description) + json_key(kw_title(), false) + json_string(title) + json_key(
        k_show_home(),
        false,
    ) + json_bool(true) + json_key(k_path(), false) + json_string(path) + seq![125u8]
}

/// The shell context of an experiment page: as for posts, plus the
/// declared style and script lists.
#[verifier::opaque]
pub open spec fn shell_exp_ctx(
    content: Seq<u8>,
    description: Seq<u8>,
    title: Seq<u8>,
    path: Seq<u8>,
    scripts: Seq<Seq<u8>>,
    styles: Seq<Seq<u8>>,
) -> Seq<u8> {
    json_key(k_content(), true) + json_string(content) + json_key(kw_description(), false)
        + json_string(description) + json_key(kw_title(), false) + json_string(title) + json_key(
        k_show_home(),
        false,
    ) + json_bool(true) + json_key(k_path(), false) + json_string(path) + json_key(
        k_scripts(),
        false,
    ) + json_array(scripts.map_values(|v: Seq<u8>| json_string(v))) + json_key(k_styles(), false)
        + json_array(styles.map_values(|v: Seq<u8>| json_string(v))) + seq![125u8]
}

/// The JSON of one experiment manifest.
#[verifier::opaque]
pub open spec fn exp_meta_json(m: crate::experiments::ExperimentMetaView) -> Seq<u8> {
    json_key(kw_title(), true) + json_string(m.title) + json_key(kw_slug(), false) + json_string(
        m.slug,
    ) + json_key(kw_description(), false) + json_string(m.description) + json_key(k_assets(), false)
        + json_array(m.assets.map_values(|v: Seq<u8>| json_string(v))) + json_key(k_styles(), false)
        + json_array(m.styles.map_values(|v: Seq<u8>| json_string(v))) + json_key(
        k_scripts(),
        false,
    ) + json_array(m.scripts.map_values(|v: Seq<u8>| json_string(v))) + json_key(k_prepack(), false)
        + json_opt_string(m.prepack) + seq![125u8]
}

/// The JSON of one experiment.
#[verifier::opaque]
pub open spec fn exp_json(e: ExperimentView) -> Seq<u8> {
    json_key(k_experiment_markup(), true) + json_string(e.experiment_markup) + json_key(
        k_notes(),
        false,
    ) + json_string(e.notes) + json_key(k_meta(), false) + exp_meta_json(e.meta) + seq![125u8]
}

/// The JSON array of the experiment collection.
#[verifier::opaque]
pub open spec fn exps_json(s: Seq<ExperimentView>) -> Seq<u8> {
    json_array(s.map_values(|e: ExperimentView| exp_json(e)))
}

/// The experiment content context.
#[verifier::opaque]
pub open spec fn exp_ctx(all: Seq<ExperimentView>, e: ExperimentView) -> Seq<u8> {
    json_key(k_experiments(), true) + exps_json(all) + json_key(k_experiment_markup(), false)
        + json_string(e.experiment_markup) + json_key(k_notes(), false) + json_string(e.notes)
        + json_key(kw_slug(), false) + json_string(e.meta.slug) + json_key(kw_description(), false)
        + json_string(e.meta.description) + json_key(kw_title(), false) + json_string(e.meta.title)
        + seq![125u8]
}

// --- the builders for those documents ---

/// Appends the JSON of one front-matter record.
#[verifier::rlimit(100)]
#[verifier::spinoff_prover]
pub fn push_meta_json(out: &mut Vec<u8>, m: &PostMeta)
    ensures
        final(out)@ == old(out)@ + meta_json(m@),
{
    push_json_key(out, &crate::front_matter::kw_date_vec(), true);
    match &m.date {
        Some(d) => {
            let ts = epoch_seconds(d.day, d.month, d.year);
            push_dec_i64(out, ts);
        },
        None => {
            push_json_null(out);
        },
    }
    push_json_key(out, &crate::front_matter::kw_draft_vec(), false);
    push_json_bool(out, m.draft);
    push_json_key(out, &crate::front_matter::kw_next_vec(), false);
    push_json_opt_string(out, &m.next);
    push_json_key(out, &crate::front_matter::kw_slug_vec(), false);
    push_json_string(out, &m.slug);
    push_json_key(out, &crate::front_matter::kw_title_vec(), false);
    push_json_string(out, &m.title);
    push_json_key(out, &crate::front_matter::kw_description_vec(), false);
    push_json_string(out, &m.description);
    push_json_key(out, &crate::front_matter::kw_title_meta_vec(), false);
    push_json_opt_string(out, &m.title_meta);
    out.push(125);
    proof {
        reveal(meta_json);
        assert(out@ =~= old(out)@ + meta_json(m@));
    }
}

/// Appends the JSON of one post.
pub fn push_post_json(out: &mut Vec<u8>, p: &Post)
    requires
        p.meta is Some,
    ensures
        final(out)@ == old(out)@ + post_json(p@),
{
    push_json_key(out, &k_raw_content_vec(), true);
    push_json_string(out, &p.raw_content);
    push_json_key(out, &k_meta_vec(), false);
    push_meta_json(out, p.meta.as_ref().unwrap());
    out.push(125);
    proof {
        reveal(post_json);
        assert(out@ =~= old(out)@ + post_json(p@));
    }
}

/// Appends the JSON array of a post collection.
pub fn push_posts_json(out: &mut Vec<u8>, posts: &Vec<Post>)
    requires
        forall|k: int| 0 <= k < posts@.len() ==> (#[trigger] posts@[k])@.meta is Some,
    ensures
        final(out)@ == old(out)@ + posts_json(post_views(posts@)),
{
    let ghost elems = post_views(posts@).map_values(|p: PostView| post_json(p));
    out.push(91);
    let mut i: usize = 0;
    if posts.len() > 0 {
        proof {
            assert(elems[0] == post_json(posts@[0]@));
        }
        push_post_json(out, &posts[0]);
        i = 1;
        proof {
            assert(elems.take(1) =~= seq![elems[0]]);
            assert(json_items(elems.take(1)) == elems[0]);
        }
    } else {
        proof {
            assert(elems.take(0) =~= Seq::<Seq<u8>>::empty());
        }
    }
    proof {
        assert(out@ =~= old(out)@ + seq![91u8] + json_items(elems.take(i as int)));
    }
    while i < posts.len()
        invariant
            (1 <= i <= posts@.len()) || (i == 0 && posts@.len() == 0),
            forall|k: int| 0 <= k < posts@.len() ==> (#[trigger] posts@[k])@.meta is Some,
            elems == post_views(posts@).map_values(|p: PostView| post_json(p)),
            out@ == old(out)@ + seq![91u8] + json_items(elems.take(i as int)),
        decreases posts@.len() - i,
    {
        proof {
            assert(elems[i as int] == post_json(posts@[i as int]@));
            assert(elems.take(i as int).len() >= 1);
            lemma_json_items_snoc(elems.take(i as int), elems[i as int]);
            assert(elems.take(i as int).push(elems[i as int]) =~= elems.take(i + 1));
        }
        out.push(44);
        push_post_json(out, &posts[i]);
        i += 1;
        proof {
            assert(out@ =~= old(out)@ + seq![91u8] + json_items(elems.take(i as int)));
        }
    }
    proof {
        assert(elems.take(i as int) =~= elems);
    }
    out.push(93);
    proof {
        reveal(posts_json);
        assert(out@ =~= old(out)@ + posts_json(post_views(posts@)));
    }
}

/// Appends the JSON array of a related-posts window.
pub fn push_related_json(out: &mut Vec<u8>, related: &Vec<&Post>)
    requires
        forall|k: int| 0 <= k < related@.len() ==> (*#[trigger] related@[k])@.meta is Some,
    ensures
        final(out)@ == old(out)@ + posts_json(related@.map_values(|rp: &Post| rp@)),
{
    let ghost views = related@.map_values(|rp: &Post| rp@);
    let ghost elems = views.map_values(|p: PostView| post_json(p));
    out.push(91);
    let mut i: usize = 0;
    if related.len() > 0 {
        proof {
            assert(elems[0] == post_json((*related@[0])@));
        }
        push_post_json(out, related[0]);
        i = 1;
        proof {
            assert(elems.take(1) =~= seq![elems[0]]);
            assert(json_items(elems.take(1)) == elems[0]);
        }
    } else {
        proof {
            assert(elems.take(0) =~= Seq::<Seq<u8>>::empty());
        }
    }
    proof {
        assert(out@ =~= old(out)@ + seq![91u8] + json_items(elems.take(i as int)));
    }
    while i < related.len()
        invariant
            (1 <= i <= related@.len()) || (i == 0 && related@.len() == 0),
            forall|k: int| 0 <= k < related@.len() ==> (*#[trigger] related@[k])@.meta is Some,
            views == related@.map_values(|rp: &Post| rp@),
            elems == views.map_values(|p: PostView| post_json(p)),
            out@ == old(out)@ + seq![91u8] + json_items(elems.take(i as int)),
        decreases related@.len() - i,
    {
        proof {
            assert(elems[i as int] == post_json((*related@[i as int])@));
            assert(elems.take(i as int).len() >= 1);
            lemma_json_items_snoc(elems.take(i as int), elems[i as int]);
            assert(elems.take(i as int).push(elems[i as int]) =~= elems.take(i + 1));
        }
        out.push(44);
        push_post_json(out, related[i]);
        i += 1;
        proof {
            assert(out@ =~= old(out)@ + seq![91u8] + json_items(elems.take(i as int)));
        }
    }
    proof {
        assert(elems.take(i as int) =~= elems);
    }
    out.push(93);
    proof {
        reveal(posts_json);
        assert(out@ =~= old(out)@ + posts_json(views));
    }
}

/// Appends the JSON of one experiment manifest.
#[verifier::rlimit(100)]
#[verifier::spinoff_prover]
pub fn push_exp_meta_json(out: &mut Vec<u8>, m: &crate::experiments::ExperimentMeta)
    ensures
        final(out)@ == old(out)@ + exp_meta_json(m@),
{
    push_json_key(out, &crate::front_matter::kw_title_vec(), true);
    push_json_string(out, &m.title);
    push_json_key(out, &crate::front_matter::kw_slug_vec(), false);
    push_json_string(out, &m.slug);
    push_json_key(out, &crate::front_matter::kw_description_vec(), false);
    push_json_string(out, &m.description);
    push_json_key(out, &k_assets_vec(), false);
    push_json_str_array(out, &m.assets);
    push_json_key(out, &k_styles_vec(), false);
    push_json_str_array(out, &m.styles);
    push_json_key(out, &k_scripts_vec(), false);
    push_json_str_array(out, &m.scripts);
    push_json_key(out, &k_prepack_vec(), false);
    push_json_opt_string(out, &m.prepack);
    out.push(125);
    proof {
        reveal(exp_meta_json);
        assert(out@ =~= old(out)@ + exp_meta_json(m@));
    }
}

/// Appends the JSON of one experiment.
pub fn push_exp_json(out: &mut Vec<u8>, e: &crate::experiments::Experiment)
    ensures
        final(out)@ == old(out)@ + exp_json(e@),
{
    push_json_key(out, &k_experiment_markup_vec(), true);
    push_json_string(out, &e.experiment_markup);
    push_json_key(out, &k_notes_vec(), false);
    push_json_string(out, &e.notes);
    push_json_key(out, &k_meta_vec(), false);
    push_exp_meta_json(out, &e.meta);
    out.push(125);
    proof {
        reveal(exp_json);
        assert(out@ =~= old(out)@ + exp_json(e@));
    }
}

/// Appends the JSON array of the experiment collection.
pub fn push_exps_json(out: &mut Vec<u8>, all: &Vec<crate::experiments::Experiment>)
    ensures
        final(out)@ == old(out)@ + exps_json(crate::experiments::exp_views(all@)),
{
    let ghost elems = crate::experiments::exp_views(all@).map_values(
        |e: ExperimentView| exp_json(e),
    );
    out.push(91);
    let mut i: usize = 0;
    if all.len() > 0 {
        proof {
            assert(elems[0] == exp_json(all@[0]@));
        }
        push_exp_json(out, &all[0]);
        i = 1;
        proof {
            assert(elems.take(1) =~= seq![elems[0]]);
            assert(json_items(elems.take(1)) == elems[0]);
        }
    } else {
        proof {
            assert(elems.take(0) =~= Seq::<Seq<u8>>::empty());
        }
    }
    proof {
        assert(out@ =~= old(out)@ + seq![91u8] + json_items(elems.take(i as int)));
    }
    while i < all.len()
        invariant
            (1 <= i <= all@.len()) || (i == 0 && all@.len() == 0),
            elems == crate::experiments::exp_views(all@).map_values(
                |e: ExperimentView| exp_json(e),
            ),
            out@ == old(out)@ + seq![91u8] + json_items(elems.take(i as int)),
        decreases all@.len() - i,
    {
        proof {
            assert(elems[i as int] == exp_json(all@[i as int]@));
            assert(elems.take(i as int).len() >= 1);
            lemma_json_items_snoc(elems.take(i as int), elems[i as int]);
            assert(elems.take(i as int).push(elems[i as int]) =~= elems.take(i + 1));
        }
        out.push(44);
        push_exp_json(out, &all[i]);
        i += 1;
        proof {
            assert(out@ =~= old(out)@ + seq![91u8] + json_items(elems.take(i as int)));
        }
    }
    proof {
        assert(elems.take(i as int) =~= elems);
    }
    out.push(93);
    proof {
        reveal(exps_json);
        assert(out@ =~= old(out)@ + exps_json(crate::experiments::exp_views(all@)));
    }
}


// --- the pages themselves ---

// Each page is the content template rendered over its context, nested
// into the shell.  The context documents handed to the template engine
// are pinned byte-for-byte by the spec functions above and the builder
// proofs; the engine itself may reach the clock or iterate in hash order,
// so nothing is claimed of the rendered bytes.  What the page functions
// do pin exactly: every output path, and when each error comes.

#[derive(Clone, Copy, PartialEq, Eq, Structural, Debug)]
pub enum ComposeError {
    /// The template collaborator failed to parse or render.
    Render,
    /// A `next` reference that matches no post's slug.
    BrokenNextRef,
}

/// The resolution of a post's optional `next` reference: the title and
/// slug of the first post carrying the referenced slug.
pub open spec fn spec_next_pair(views: Seq<PostView>, p: PostView) -> Result<
    Option<(Seq<u8>, Seq<u8>)>,
    ComposeError,
>
    recommends
        p.meta is Some,
{
    match p.meta->0.next {
        None => Ok(None),
        Some(ns) => match find_slug(views, ns) {
            Some(i) => Ok(Some((views[i].meta->0.title, views[i].meta->0.slug))),
            None => Err(ComposeError::BrokenNextRef),
        },
    }
}

/// The post's `next` reference names a slug no post carries.
pub open spec fn broken_next(views: Seq<PostView>, p: PostView) -> bool
    recommends
        p.meta is Some,
{
    p.meta->0.next is Some && find_slug(views, p.meta->0.next->0) is None
}

/// Resolves the `next` reference of the post at `i`: exactly the first
/// post carrying the referenced slug, its title and slug; the broken-link
/// error if and only if no post carries it.
pub fn resolve_next(ix: &PostIndex, i: usize) -> (r: Result<
    Option<(Vec<u8>, Vec<u8>)>,
    ComposeError,
>)
    requires
        ix.wf(),
        i < ix.posts@.len(),
    ensures
        match r {
            Ok(Some(pair)) => spec_next_pair(post_views(ix.posts@), post_views(ix.posts@)[i as int])
                == Ok::<Option<(Seq<u8>, Seq<u8>)>, ComposeError>(Some((pair.0@, pair.1@))),
            Ok(None) => spec_next_pair(post_views(ix.posts@), post_views(ix.posts@)[i as int])
                == Ok::<Option<(Seq<u8>, Seq<u8>)>, ComposeError>(None),
            Err(e) => spec_next_pair(post_views(ix.posts@), post_views(ix.posts@)[i as int])
                == Err::<Option<(Seq<u8>, Seq<u8>)>, ComposeError>(e),
        },
{
    let ghost views = post_views(ix.posts@);
    proof {
        assert(views[i as int] == ix.posts@[i as int]@);
        assert(post_dated(views[i as int]));
    }
    let meta = ix.posts[i].meta.as_ref().unwrap();
    match &meta.next {
        None => Ok(None),
        Some(ns) => {
            match ix.find_by_slug(ns) {
                Some(k) => {
                    proof {
                        lemma_find_slug_some(views, ns@, k as int);
                        assert(post_dated(views[k as int]));
                    }
                    let found = ix.posts[k].meta.as_ref().unwrap();
                    Ok(Some((copy_vec(&found.title), copy_vec(&found.slug))))
                },
                None => {
                    proof {
                        lemma_find_slug_none(views, ns@);
                    }
                    Err(ComposeError::BrokenNextRef)
                },
            }
        },
    }
}

/// Renders the home page: the home template over the full sorted
/// collection (the context `home_ctx` pins), nested into the shell, at
/// `docs/index.html`.
pub fn build_homepage(ix: &PostIndex, home_t: &Vec<u8>, main_t: &Vec<u8>) -> (r: Result<
    OutputFile,
    ComposeError,
>)
    requires
        ix.wf(),
    ensures
        match r {
            Ok(f) => f@.path == lit_out_home(),
            Err(e) => e == ComposeError::Render,
        },
{
    proof {
        assert forall|k: int| 0 <= k < ix.posts@.len() implies (#[trigger] ix.posts@[k])@.meta
            is Some by {
            assert(post_dated(post_views(ix.posts@)[k]));
        }
    }
    let mut ctx: Vec<u8> = Vec::new();
    push_json_key(&mut ctx, &k_posts_vec(), true);
    push_posts_json(&mut ctx, &ix.posts);
    ctx.push(125);
    proof {
        reveal(home_ctx);
        assert(ctx@ =~= home_ctx(post_views(ix.posts@)));
    }
    let content = match render_template(home_t, &ctx) {
        Ok(c) => c,
        Err(_) => {
            return Err(ComposeError::Render);
        },
    };
    let mut shell: Vec<u8> = Vec::new();
    let empty: Vec<u8> = Vec::new();
    push_json_key(&mut shell, &k_content_vec(), true);
    push_json_string(&mut shell, &content);
    push_json_key(&mut shell, &crate::front_matter::kw_description_vec(), false);
    push_json_string(&mut shell, &empty);
    push_json_key(&mut shell, &crate::front_matter::kw_title_vec(), false);
    push_json_string(&mut shell, &lit_welcome_vec());
    push_json_key(&mut shell, &k_path_vec(), false);
    push_json_string(&mut shell, &empty);
    shell.push(125);
    proof {
        reveal(shell_home_ctx);
        assert(empty@ =~= Seq::<u8>::empty());
        assert(shell@ =~= shell_home_ctx(content@));
    }
    let page = match render_template(main_t, &shell) {
        Ok(p) => p,
        Err(_) => {
            return Err(ComposeError::Render);
        },
    };
    Ok(OutputFile { path: lit_out_home_vec(), data: page })
}

/// Renders the page of the post at `i` in sorted order.  The context is
/// pinned by `post_ctx`: display date, title, body, the related-posts
/// window and the resolved next pair; the output lands at
/// `docs/posts/<slug>.html`.  The broken-link error comes if and only if
/// the post's `next` reference matches no slug.
#[verifier::rlimit(60)]
pub fn build_post_page(ix: &PostIndex, i: usize, post_t: &Vec<u8>, main_t: &Vec<u8>) -> (r: Result<
    OutputFile,
    ComposeError,
>)
    requires
        ix.wf(),
        i < ix.posts@.len(),
    ensures
        match r {
            Ok(f) => f@.path == lit_out_posts() + post_slug(post_views(ix.posts@)[i as int])
                + lit_dot_html() && !broken_next(post_views(ix.posts@), post_views(ix.posts@)[i as int]),
            Err(ComposeError::BrokenNextRef) => broken_next(
                post_views(ix.posts@),
                post_views(ix.posts@)[i as int],
            ),
            Err(ComposeError::Render) => !broken_next(
                post_views(ix.posts@),
                post_views(ix.posts@)[i as int],
            ),
        },
{
    let ghost views = post_views(ix.posts@);
    proof {
        assert forall|k: int| 0 <= k < ix.posts@.len() implies (#[trigger] ix.posts@[k])@.meta
            is Some by {
            assert(post_dated(views[k]));
        }
        assert(post_dated(views[i as int]));
    }
    let p = &ix.posts[i];
    let meta = p.meta.as_ref().unwrap();
    // resolve the optional next reference
    let next_pair: Option<(Vec<u8>, Vec<u8>)> = match resolve_next(ix, i) {
        Ok(np) => np,
        Err(e) => {
            return Err(e);
        },
    };
    let ghost np = match next_pair {
        Some(ref pair) => Some((pair.0@, pair.1@)),
        None => None,
    };
    proof {
        assert(spec_next_pair(views, views[i as int]) == Ok::<
            Option<(Seq<u8>, Seq<u8>)>,
            ComposeError,
        >(np));
    }
    // the related-posts window
    let related = ix.get_related_posts(i);
    let ghost rel_views = related@.map_values(|rp: &Post| rp@);
    proof {
        assert forall|k: int| 0 <= k < related@.len() implies (*#[trigger] related@[k])@.meta
            is Some by {
            assert(*related@[k] == ix.posts@[window_start(i as int) + k]);
            assert(post_dated(views[window_start(i as int) + k]));
        }
        assert(rel_views =~= views.subrange(
            window_start(i as int),
            window_start(i as int) + window_len(i as int, views.len() as int),
        ));
    }
    // the content template context
    let d = meta.date.unwrap();
    let date_text = format_date(d.day, d.month, d.year);
    let mut ctx: Vec<u8> = Vec::new();
    push_json_key(&mut ctx, &crate::front_matter::kw_date_vec(), true);
    push_json_string(&mut ctx, &date_text);
    push_json_key(&mut ctx, &crate::front_matter::kw_title_vec(), false);
    push_json_string(&mut ctx, &meta.title);
    push_json_key(&mut ctx, &k_content_vec(), false);
    push_json_string(&mut ctx, &p.raw_content);
    push_json_key(&mut ctx, &k_posts_vec(), false);
    push_related_json(&mut ctx, &related);
    push_json_key(&mut ctx, &crate::front_matter::kw_slug_vec(), false);
    push_json_string(&mut ctx, &meta.slug);
    push_json_key(&mut ctx, &k_next_post_vec(), false);
    match &next_pair {
        Some(pair) => {
            push_json_key(&mut ctx, &crate::front_matter::kw_title_vec(), true);
            push_json_string(&mut ctx, &pair.0);
            push_json_key(&mut ctx, &crate::front_matter::kw_slug_vec(), false);
            push_json_string(&mut ctx, &pair.1);
            ctx.push(125);
        },
        None => {
            push_json_null(&mut ctx);
        },
    }
    ctx.push(125);
    proof {
        reveal(post_ctx);
        reveal(next_pair_json);
        assert(ctx@ =~= post_ctx(views[i as int], rel_views, np));
    }
    let content = match render_template(post_t, &ctx) {
        Ok(c) => c,
        Err(_) => {
            return Err(ComposeError::Render);
        },
    };
    // the shell context and the output path
    let mut shell_path = lit_posts_prefix_vec();
    append_bytes(&mut shell_path, &meta.slug);
    append_bytes(&mut shell_path, &lit_dot_html_vec());
    let mut shell: Vec<u8> = Vec::new();
    push_json_key(&mut shell, &k_content_vec(), true);
    push_json_string(&mut shell, &content);
    push_json_key(&mut shell, &crate::front_matter::kw_description_vec(), false);
    push_json_string(&mut shell, &meta.description);
    push_json_key(&mut shell, &crate::front_matter::kw_title_vec(), false);
    push_json_string(&mut shell, &meta.title);
    push_json_key(&mut shell, &k_show_home_vec(), false);
    push_json_bool(&mut shell, true);
    push_json_key(&mut shell, &k_path_vec(), false);
    push_json_string(&mut shell, &shell_path);
    shell.push(125);
    proof {
        reveal(shell_post_ctx);
        assert(shell_path@ =~= lit_posts_prefix() + post_slug(views[i as int]) + lit_dot_html());
        assert(shell@ =~= shell_post_ctx(
            content@,
            views[i as int].meta->0.description,
            views[i as int].meta->0.title,
            lit_posts_prefix() + post_slug(views[i as int]) + lit_dot_html(),
        ));
    }
    let page = match render_template(main_t, &shell) {
        Ok(pg) => pg,
        Err(_) => {
            return Err(ComposeError::Render);
        },
    };
    let mut out_path = lit_out_posts_vec();
    append_bytes(&mut out_path, &meta.slug);
    append_bytes(&mut out_path, &lit_dot_html_vec());
    proof {
        assert(out_path@ =~= lit_out_posts() + post_slug(views[i as int]) + lit_dot_html());
    }
    Ok(OutputFile { path: out_path, data: page })
}

/// Renders the page of the experiment at `i`: the experiment template
/// over the whole collection and this bundle (the context `exp_ctx`
/// pins), nested into the shell with the declared style and script lists,
/// at `docs/experiments/<slug>/index.html`.
#[verifier::rlimit(60)]
pub fn build_experiment_page(
    all: &Vec<Experiment>,
    i: usize,
    exp_t: &Vec<u8>,
    main_t: &Vec<u8>,
) -> (r: Result<OutputFile, ComposeError>)
    requires
        i < all@.len(),
    ensures
        match r {
            Ok(f) => f@.path == lit_out_experiments() + exp_views(all@)[i as int].meta.slug
                + lit_slash_index(),
            Err(e) => e == ComposeError::Render,
        },
{
    let ghost av = exp_views(all@);
    let e = &all[i];
    let mut ctx: Vec<u8> = Vec::new();
    push_json_key(&mut ctx, &k_experiments_vec(), true);
    push_exps_json(&mut ctx, all);
    push_json_key(&mut ctx, &k_experiment_markup_vec(), false);
    push_json_string(&mut ctx, &e.experiment_markup);
    push_json_key(&mut ctx, &k_notes_vec(), false);
    push_json_string(&mut ctx, &e.notes);
    push_json_key(&mut ctx, &crate::front_matter::kw_slug_vec(), false);
    push_json_string(&mut ctx, &e.meta.slug);
    push_json_key(&mut ctx, &crate::front_matter::kw_description_vec(), false);
    push_json_string(&mut ctx, &e.meta.description);
    push_json_key(&mut ctx, &crate::front_matter::kw_title_vec(), false);
    push_json_string(&mut ctx, &e.meta.title);
    ctx.push(125);
    proof {
        reveal(exp_ctx);
        assert(av[i as int] == all@[i as int]@);
        assert(ctx@ =~= exp_ctx(av, av[i as int]));
    }
    let content = match render_template(exp_t, &ctx) {
        Ok(c) => c,
        Err(_) => {
            return Err(ComposeError::Render);
        },
    };
    let mut shell_path = lit_experiments_prefix_vec();
    append_bytes(&mut shell_path, &e.meta.slug);
    let mut shell: Vec<u8> = Vec::new();
    push_json_key(&mut shell, &k_content_vec(), true);
    push_json_string(&mut shell, &content);
    push_json_key(&mut shell, &crate::front_matter::kw_description_vec(), false);
    push_json_string(&mut shell, &e.meta.description);
    push_json_key(&mut shell, &crate::front_matter::kw_title_vec(), false);
    push_json_string(&mut shell, &e.meta.title);
    push_json_key(&mut shell, &k_show_home_vec(), false);
    push_json_bool(&mut shell, true);
    push_json_key(&mut shell, &k_path_vec(), false);
    push_json_string(&mut shell, &shell_path);
    push_json_key(&mut shell, &k_scripts_vec(), false);
    push_json_str_array(&mut shell, &e.meta.scripts);
    push_json_key(&mut shell, &k_styles_vec(), false);
    push_json_str_array(&mut shell, &e.meta.styles);
    shell.push(125);
    proof {
        reveal(shell_exp_ctx);
        assert(shell_path@ =~= lit_experiments_prefix() + av[i as int].meta.slug);
        assert(shell@ =~= shell_exp_ctx(
            content@,
            av[i as int].meta.description,
            av[i as int].meta.title,
            lit_experiments_prefix() + av[i as int].meta.slug,
            av[i as int].meta.scripts,
            av[i as int].meta.styles,
        ));
    }
    let page = match render_template(main_t, &shell) {
        Ok(pg) => pg,
        Err(_) => {
            return Err(ComposeError::Render);
        },
    };
    let mut out_path = lit_out_experiments_vec();
    append_bytes(&mut out_path, &e.meta.slug);
    append_bytes(&mut out_path, &lit_slash_index_vec());
    proof {
        assert(out_path@ =~= lit_out_experiments() + av[i as int].meta.slug + lit_slash_index());
    }
    Ok(OutputFile { path: out_path, data: page })
}

} // verus!
