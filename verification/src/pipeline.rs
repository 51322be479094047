use vstd::prelude::*;

use crate::assets::{
    asset_views, pack_assets, pack_outputs_match, is_scss_name, AssetError, AssetFile,
    AssetFileView,
};
use crate::bytes::{append_bytes, copy_vec};
use crate::compose::{
    broken_next, build_experiment_page, build_homepage, build_post_page, lit_dot_html,
    lit_out_experiments, lit_out_home, lit_out_posts, lit_slash_index, ComposeError,
};
use crate::experiments::{
    assemble_experiment, exp_views, spec_assemble, Experiment, ExperimentError, ExperimentInput,
    ExperimentInputView, ExperimentView,
};
use crate::front_matter::FmError;
use crate::index::{all_dated, post_dated, post_slug, sort_posts_desc, unique_slugs, IndexError, PostIndex};
use crate::loader::{load_posts, load_posts_prefix, source_views, SourceFile, SourceFileView};
use crate::output::{output_views, OutputFile, OutputFileView};
use crate::post::{post_views, PostView};
use crate::watch::{lit_docs_slash, lit_docs_slash_vec};

verus! {

// The build orchestrator: one `run` performs a full build, top to bottom,
// from plain source values to the full output tree as a value.  Reading
// the source tree and writing the output tree are the caller's business.
// Loading, indexing and bundle assembly are deterministic and pinned
// exactly, stage by stage; the rendered and compiled bytes come from
// collaborators that may read the clock or the disk, so of those only the
// output paths, the copy contents and the error conditions are stated.

/// Everything one build reads: post files, experiment bundles, the four
/// page layouts, and the asset tree.
pub struct SourceInput {
    pub posts: Vec<SourceFile>,
    pub experiments: Vec<ExperimentInput>,
    pub home_layout: Vec<u8>,
    pub post_layout: Vec<u8>,
    pub experiment_layout: Vec<u8>,
    pub main_layout: Vec<u8>,
    pub assets: Vec<AssetFile>,
}

pub struct SourceInputView {
    pub posts: Seq<SourceFileView>,
    pub experiments: Seq<ExperimentInputView>,
    pub home_layout: Seq<u8>,
    pub post_layout: Seq<u8>,
    pub experiment_layout: Seq<u8>,
    pub main_layout: Seq<u8>,
    pub assets: Seq<AssetFileView>,
}

impl View for SourceInput {
    type V = SourceInputView;

    open spec fn view(&self) -> SourceInputView {
        SourceInputView {
            posts: source_views(self.posts@),
            experiments: self.experiments@.map_values(|e: ExperimentInput| e@),
            home_layout: self.home_layout@,
            post_layout: self.post_layout@,
            experiment_layout: self.experiment_layout@,
            main_layout: self.main_layout@,
            assets: asset_views(self.assets@),
        }
    }
}

impl SourceInput {
    /// Every bundle carries one data blob per declared asset, as the
    /// directory reader hands them over.
    pub open spec fn wf(&self) -> bool {
        forall|i: int| 0 <= i < self.experiments@.len() ==> (
        #[trigger] self.experiments@[i]).wf()
    }
}

#[derive(Clone, Copy, PartialEq, Eq, Structural, Debug)]
pub enum BuildError {
    /// Malformed front matter in a post file.
    FrontMatter(FmError),
    /// A post collection the index refuses.
    Index(IndexError),
    /// A bundle whose preview has no `<main>` element.
    Experiment(ExperimentError),
    /// A failing template render or a broken next reference.
    Compose(ComposeError),
    /// A failing style compile.
    Asset(AssetError),
}

/// Every post has front matter.
pub open spec fn all_meta(s: Seq<PostView>) -> bool {
    forall|i: int| 0 <= i < s.len() ==> (#[trigger] s[i]).meta is Some
}

/// What indexing yields: the checks in order, then the stable sort.
pub open spec fn spec_index(s: Seq<PostView>) -> Result<Seq<PostView>, IndexError> {
    if !all_meta(s) {
        Err(IndexError::MissingMeta)
    } else if !all_dated(s) {
        Err(IndexError::MissingDate)
    } else if !unique_slugs(s) {
        Err(IndexError::DuplicateSlug)
    } else {
        Ok(sort_posts_desc(s))
    }
}

/// What assembling the first `n` bundles yields.
pub open spec fn load_exps_prefix(inputs: Seq<ExperimentInputView>, n: int) -> Result<
    Seq<ExperimentView>,
    ExperimentError,
>
    decreases n,
{
    if n <= 0 {
        Ok(Seq::empty())
    } else {
        match load_exps_prefix(inputs, n - 1) {
            Err(e) => Err(e),
            Ok(rest) => match spec_assemble(inputs[n - 1]) {
                Ok(e) => Ok(rest.push(e)),
                Err(e) => Err(e),
            },
        }
    }
}

proof fn lemma_load_exps_prefix_err(inputs: Seq<ExperimentInputView>, i: int, n: int)
    requires
        0 <= i < n,
        load_exps_prefix(inputs, i) is Ok,
        spec_assemble(inputs[i]) is Err,
    ensures
        load_exps_prefix(inputs, n) == Err::<Seq<ExperimentView>, ExperimentError>(
            spec_assemble(inputs[i])->Err_0,
        ),
    decreases n,
{
    if n > i + 1 {
        lemma_load_exps_prefix_err(inputs, i, n - 1);
    }
}

/// A clean prefix pins each assembled bundle to its input.
proof fn lemma_load_exps_prefix_index(
    inputs: Seq<ExperimentInputView>,
    n: int,
    exps: Seq<ExperimentView>,
    q: int,
)
    requires
        load_exps_prefix(inputs, n) == Ok::<Seq<ExperimentView>, ExperimentError>(exps),
        0 <= q < n,
    ensures
        exps.len() == n,
        spec_assemble(inputs[q]) == Ok::<ExperimentView, ExperimentError>(exps[q]),
    decreases n,
{
    let rest = load_exps_prefix(inputs, n - 1)->Ok_0;
    if n == 1 {
        assert(load_exps_prefix(inputs, 0) == Ok::<Seq<ExperimentView>, ExperimentError>(
            Seq::empty(),
        ));
        assert(exps =~= rest.push(spec_assemble(inputs[0])->Ok_0));
        assert(rest.len() == 0);
    } else {
        lemma_load_exps_prefix_index(inputs, n - 1, rest, if q < n - 1 {
            q
        } else {
            0
        });
        if q < n - 1 {
            assert(exps[q] == rest[q]);
            lemma_load_exps_prefix_index(inputs, n - 1, rest, q);
        } else {
            assert(exps[q] == spec_assemble(inputs[q])->Ok_0);
        }
    }
}

/// The verbatim copies of one bundle's declared assets into the output
/// tree, under their rewritten paths.
pub open spec fn asset_copies(inpv: ExperimentInputView, ev: ExperimentView) -> Seq<OutputFileView>
    recommends
        inpv.asset_data.len() == ev.meta.assets.len(),
{
    Seq::new(
        ev.meta.assets.len(),
        |k: int| OutputFileView { path: lit_docs_slash() + ev.meta.assets[k], data: inpv.asset_data[k] },
    )
}

/// One page per post, in sorted order, each under
/// `docs/posts/<slug>.html`.
pub open spec fn post_pages_match(views: Seq<PostView>, outs: Seq<OutputFileView>) -> bool {
    &&& outs.len() == views.len()
    &&& forall|k: int| 0 <= k < views.len() ==> (#[trigger] outs[k]).path == lit_out_posts()
        + post_slug(views[k]) + lit_dot_html()
}

/// The outputs of the first `n` experiments: for each bundle, its page
/// (under `docs/experiments/<slug>/index.html`) followed by its declared
/// assets copied verbatim.
pub open spec fn exp_outputs_match(
    inputs: Seq<ExperimentInputView>,
    exps: Seq<ExperimentView>,
    n: int,
    outs: Seq<OutputFileView>,
) -> bool
    decreases n,
{
    if n <= 0 {
        outs.len() == 0
    } else {
        let m = exps[n - 1].meta.assets.len() as int;
        &&& outs.len() >= 1 + m
        &&& exp_outputs_match(inputs, exps, n - 1, outs.take(outs.len() - 1 - m))
        &&& outs[outs.len() - 1 - m].path == lit_out_experiments() + exps[n - 1].meta.slug
            + lit_slash_index()
        &&& outs.skip(outs.len() - m) == asset_copies(inputs[n - 1], exps[n - 1])
    }
}

/// One full build.  The loading stages are pinned exactly, each error if
/// and only if its condition; a successful run yields the home page, one
/// page per post in sorted order, each experiment's page followed by its
/// verbatim asset copies, and the mirrored static asset tree, every path
/// and every copied byte stated.
#[verifier::rlimit(100)]
#[verifier::spinoff_prover]
pub fn run(input: &SourceInput) -> (r: Result<Vec<OutputFile>, BuildError>)
    requires
        input.wf(),
    ensures
        ({
            let inp = input@;
            let posts_r = load_posts_prefix(inp.posts, inp.posts.len() as int);
            let exps_r = load_exps_prefix(inp.experiments, inp.experiments.len() as int);
            match r {
                Err(BuildError::FrontMatter(e)) => posts_r == Err::<Seq<PostView>, FmError>(e),
                Err(BuildError::Index(e)) => posts_r is Ok && spec_index(posts_r->Ok_0) == Err::<
                    Seq<PostView>,
                    IndexError,
                >(e),
                Err(BuildError::Experiment(e)) => posts_r is Ok && spec_index(posts_r->Ok_0) is Ok
                    && exps_r == Err::<Seq<ExperimentView>, ExperimentError>(e),
                Err(BuildError::Compose(ce)) => posts_r is Ok && spec_index(posts_r->Ok_0) is Ok
                    && exps_r is Ok && (ce == ComposeError::BrokenNextRef ==> exists|k: int|
                    0 <= k < spec_index(posts_r->Ok_0)->Ok_0.len() && broken_next(
                        spec_index(posts_r->Ok_0)->Ok_0,
                        #[trigger] spec_index(posts_r->Ok_0)->Ok_0[k],
                    )),
                Err(BuildError::Asset(e)) => posts_r is Ok && spec_index(posts_r->Ok_0) is Ok
                    && exps_r is Ok && e == AssetError::StyleCompile && exists|k: int|
                    0 <= k < inp.assets.len() && is_scss_name((#[trigger] inp.assets[k]).name),
                Ok(out) => posts_r is Ok && spec_index(posts_r->Ok_0) is Ok && exps_r is Ok && ({
                    let sorted = spec_index(posts_r->Ok_0)->Ok_0;
                    let exps = exps_r->Ok_0;
                    let outs = output_views(out@);
                    let n_pages = sorted.len() as int;
                    let n_assets = inp.assets.len() as int;
                    &&& outs.len() >= 1 + n_pages + n_assets
                    &&& outs[0].path == lit_out_home()
                    &&& post_pages_match(sorted, outs.subrange(1, 1 + n_pages))
                    &&& exp_outputs_match(
                        inp.experiments,
                        exps,
                        exps.len() as int,
                        outs.subrange(1 + n_pages, outs.len() - n_assets),
                    )
                    &&& pack_outputs_match(inp.assets, outs.skip(outs.len() - n_assets))
                }),
            }
        }),
{
    let ghost inpv = input@;
    // load and index the posts
    let loaded = match load_posts(&input.posts) {
        Ok(p) => p,
        Err(e) => {
            return Err(BuildError::FrontMatter(e));
        },
    };
    let ghost lv = post_views(loaded@);
    let ix = match PostIndex::new(loaded) {
        Ok(ix) => ix,
        Err(e) => {
            proof {
                match e {
                    IndexError::MissingMeta => {
                        let wi = choose|wi: int|
                            0 <= wi < loaded@.len() && (#[trigger] loaded@[wi])@.meta is None;
                        assert(lv[wi].meta is None);
                        assert(!all_meta(lv));
                    },
                    IndexError::MissingDate => {
                        assert(!all_dated(lv));
                        assert(all_meta(lv));
                    },
                    IndexError::DuplicateSlug => {
                        assert forall|k: int| 0 <= k < lv.len() implies (#[trigger] lv[k]).meta
                            is Some by {
                            assert(post_dated(lv[k]));
                        }
                        assert(all_meta(lv));
                    },
                }
                assert(spec_index(lv) == Err::<Seq<PostView>, IndexError>(e));
            }
            return Err(BuildError::Index(e));
        },
    };
    let ghost sorted = post_views(ix.posts@);
    proof {
        assert forall|k: int| 0 <= k < lv.len() implies (#[trigger] lv[k]).meta is Some by {
            assert(post_dated(lv[k]));
        }
        assert(spec_index(lv) == Ok::<Seq<PostView>, IndexError>(sorted));
    }
    // assemble the experiment bundles
    let mut exps: Vec<Experiment> = Vec::new();
    let mut i: usize = 0;
    proof {
        assert(exp_views(exps@) =~= Seq::<ExperimentView>::empty());
    }
    while i < input.experiments.len()
        invariant
            0 <= i <= input.experiments@.len(),
            input.wf(),
            inpv == input@,
            load_posts_prefix(inpv.posts, inpv.posts.len() as int) == Ok::<Seq<PostView>, FmError>(
                lv,
            ),
            spec_index(lv) == Ok::<Seq<PostView>, IndexError>(sorted),
            load_exps_prefix(inpv.experiments, i as int) == Ok::<
                Seq<ExperimentView>,
                ExperimentError,
            >(exp_views(exps@)),
        decreases input.experiments@.len() - i,
    {
        proof {
            assert(inpv.experiments[i as int] == input.experiments@[i as int]@);
        }
        match assemble_experiment(&input.experiments[i]) {
            Ok(e) => {
                let ghost b = exp_views(exps@);
                exps.push(e);
                proof {
                    assert(exp_views(exps@) =~= b.push(e@));
                }
            },
            Err(e) => {
                proof {
                    lemma_load_exps_prefix_err(
                        inpv.experiments,
                        i as int,
                        inpv.experiments.len() as int,
                    );
                }
                return Err(BuildError::Experiment(e));
            },
        }
        i += 1;
    }
    let ghost ev = exp_views(exps@);
    proof {
        if inpv.experiments.len() > 0 {
            lemma_load_exps_prefix_index(inpv.experiments, inpv.experiments.len() as int, ev, 0);
        }
        assert(exps@.len() == input.experiments@.len());
    }
    // the home page
    let home = match build_homepage(&ix, &input.home_layout, &input.main_layout) {
        Ok(f) => f,
        Err(_) => {
            return Err(BuildError::Compose(ComposeError::Render));
        },
    };
    let ghost homev = home@;
    // one page per post, in sorted order
    let mut post_files: Vec<OutputFile> = Vec::new();
    let mut p: usize = 0;
    proof {
        assert(output_views(post_files@) =~= Seq::<OutputFileView>::empty());
    }
    while p < ix.posts.len()
        invariant
            0 <= p <= ix.posts@.len(),
            ix.wf(),
            sorted == post_views(ix.posts@),
            inpv == input@,
            load_posts_prefix(inpv.posts, inpv.posts.len() as int) == Ok::<Seq<PostView>, FmError>(
                lv,
            ),
            spec_index(lv) == Ok::<Seq<PostView>, IndexError>(sorted),
            load_exps_prefix(inpv.experiments, inpv.experiments.len() as int) == Ok::<
                Seq<ExperimentView>,
                ExperimentError,
            >(ev),
            output_views(post_files@).len() == p,
            forall|k: int| 0 <= k < p ==> (#[trigger] output_views(post_files@)[k]).path
                == lit_out_posts() + post_slug(sorted[k]) + lit_dot_html(),
        decreases ix.posts@.len() - p,
    {
        match build_post_page(&ix, p, &input.post_layout, &input.main_layout) {
            Ok(f) => {
                let ghost b = output_views(post_files@);
                post_files.push(f);
                proof {
                    assert(output_views(post_files@) =~= b.push(f@));
                }
            },
            Err(e) => {
                proof {
                    if e == ComposeError::BrokenNextRef {
                        let sr = spec_index(
                            load_posts_prefix(inpv.posts, inpv.posts.len() as int)->Ok_0,
                        )->Ok_0;
                        assert(sr == sorted);
                        assert(broken_next(sr, sr[p as int]));
                    }
                }
                return Err(BuildError::Compose(e));
            },
        }
        p += 1;
    }
    let ghost ppages = output_views(post_files@);
    // one page plus asset copies per experiment
    let mut exp_files: Vec<OutputFile> = Vec::new();
    let mut q: usize = 0;
    proof {
        assert(output_views(exp_files@) =~= Seq::<OutputFileView>::empty());
    }
    while q < exps.len()
        invariant
            0 <= q <= exps@.len(),
            input.wf(),
            inpv == input@,
            ev == exp_views(exps@),
            exps@.len() == input.experiments@.len(),
            load_posts_prefix(inpv.posts, inpv.posts.len() as int) == Ok::<Seq<PostView>, FmError>(
                lv,
            ),
            spec_index(lv) == Ok::<Seq<PostView>, IndexError>(sorted),
            load_exps_prefix(inpv.experiments, inpv.experiments.len() as int) == Ok::<
                Seq<ExperimentView>,
                ExperimentError,
            >(ev),
            exp_outputs_match(inpv.experiments, ev, q as int, output_views(exp_files@)),
        decreases exps@.len() - q,
    {
        let ghost before_page = output_views(exp_files@);
        match build_experiment_page(&exps, q, &input.experiment_layout, &input.main_layout) {
            Ok(f) => {
                let ghost b = output_views(exp_files@);
                exp_files.push(f);
                proof {
                    assert(output_views(exp_files@) =~= b.push(f@));
                }
            },
            Err(_) => {
                return Err(BuildError::Compose(ComposeError::Render));
            },
        }
        // copy the bundle's declared assets verbatim
        let e = &exps[q];
        let inp_e = &input.experiments[q];
        let ghost copies = asset_copies(inpv.experiments[q as int], ev[q as int]);
        let ghost base = output_views(exp_files@);
        proof {
            assert(input.experiments@[q as int].wf());
            assert(inpv.experiments[q as int] == input.experiments@[q as int]@);
            assert(ev[q as int] == exps@[q as int]@);
            lemma_load_exps_prefix_index(
                inpv.experiments,
                inpv.experiments.len() as int,
                ev,
                q as int,
            );
            assert(copies.take(0) =~= Seq::<OutputFileView>::empty());
            assert(base + copies.take(0) =~= base);
        }
        let mut k: usize = 0;
        while k < e.meta.assets.len()
            invariant
                0 <= k <= e.meta.assets@.len(),
                e == &exps[q as int],
                q < exps@.len(),
                ev == exp_views(exps@),
                ev[q as int] == exps@[q as int]@,
                inp_e == &input.experiments[q as int],
                inpv == input@,
                inpv.experiments[q as int] == input.experiments@[q as int]@,
                e.meta.assets@.len() == inp_e.asset_data@.len(),
                copies == asset_copies(inpv.experiments[q as int], ev[q as int]),
                output_views(exp_files@) == base + copies.take(k as int),
            decreases e.meta.assets@.len() - k,
        {
            let mut path = lit_docs_slash_vec();
            append_bytes(&mut path, &e.meta.assets[k]);
            let data = copy_vec(&inp_e.asset_data[k]);
            let ghost b = output_views(exp_files@);
            let f = OutputFile { path, data };
            proof {
                assert(e.meta.assets@[k as int].deep_view() =~= e.meta.assets@[k as int]@);
                assert(e.meta.assets@[k as int]@ == ev[q as int].meta.assets[k as int]);
                assert(inp_e.asset_data@[k as int].deep_view() =~= inp_e.asset_data@[k as int]@);
                assert(inp_e.asset_data@[k as int]@ == inpv.experiments[q as int].asset_data[k as int]);
                assert(f@ == copies[k as int]);
            }
            exp_files.push(f);
            proof {
                assert(output_views(exp_files@) =~= b.push(copies[k as int]));
                assert(output_views(exp_files@) =~= base + copies.take(k + 1));
            }
            k += 1;
        }
        proof {
            assert(copies.take(k as int) =~= copies);
            let outs = output_views(exp_files@);
            let m = ev[q as int].meta.assets.len() as int;
            assert(outs.len() == before_page.len() + 1 + m);
            assert(outs.take(outs.len() - 1 - m) =~= before_page);
            assert(outs[outs.len() - 1 - m].path == lit_out_experiments() + ev[q as int].meta.slug
                + lit_slash_index());
            assert(outs.skip(outs.len() - m) =~= copies);
            assert(exp_outputs_match(inpv.experiments, ev, q + 1, outs));
        }
        q += 1;
    }
    let ghost eouts = output_views(exp_files@);
    // the static asset tree
    let asset_files = match pack_assets(&input.assets) {
        Ok(fs) => fs,
        Err(e) => {
            proof {
                let fv2 = asset_views(input.assets@);
                let wk = choose|wk: int|
                    0 <= wk < input.assets@.len() && is_scss_name(
                        (#[trigger] asset_views(input.assets@)[wk]).name,
                    );
                assert(inpv.assets == fv2);
                assert(0 <= wk < inpv.assets.len() && is_scss_name(inpv.assets[wk].name));
            }
            return Err(BuildError::Asset(e));
        },
    };
    // the whole output tree, in build order
    let mut out: Vec<OutputFile> = Vec::new();
    out.push(home);
    let mut asset_files = asset_files;
    let ghost av2 = output_views(asset_files@);
    out.append(&mut post_files);
    out.append(&mut exp_files);
    out.append(&mut asset_files);
    proof {
        let outs = output_views(out@);
        assert(outs =~= seq![homev] + ppages + eouts + av2);
        assert(homev.path == lit_out_home());
        assert(av2.len() == inpv.assets.len());
        assert(ppages.len() == sorted.len());
        assert(outs.subrange(1, 1 + sorted.len() as int) =~= ppages);
        assert(outs.subrange(1 + sorted.len() as int, outs.len() - av2.len()) =~= eouts);
        assert(outs.skip(outs.len() - av2.len()) =~= av2);
    }
    Ok(out)
}

} // verus!
