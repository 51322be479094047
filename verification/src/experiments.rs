use vstd::prelude::*;

use crate::bytes::{append_bytes, copy_opt_vec, copy_vec, copy_vec_list};
use crate::external::{extract_main, main_fragment_of, markdown_to_html, md_html_of};

verus! {

// An experiment bundle: a manifest, a static preview page whose first
// <main> subtree becomes the embedded markup, a markdown readme rendered to
// notes, and declared asset files.  Assembly rewrites each declared asset
// path to be relative to the experiments source tree.

/// The manifest of one experiment bundle.
pub struct ExperimentMeta {
    pub title: Vec<u8>,
    pub slug: Vec<u8>,
    pub description: Vec<u8>,
    pub assets: Vec<Vec<u8>>,
    pub styles: Vec<Vec<u8>>,
    pub scripts: Vec<Vec<u8>>,
    pub prepack: Option<Vec<u8>>,
}

pub struct ExperimentMetaView {
    pub title: Seq<u8>,
    pub slug: Seq<u8>,
    pub description: Seq<u8>,
    pub assets: Seq<Seq<u8>>,
    pub styles: Seq<Seq<u8>>,
    pub scripts: Seq<Seq<u8>>,
    pub prepack: Option<Seq<u8>>,
}

impl View for ExperimentMeta {
    type V = ExperimentMetaView;

    open spec fn view(&self) -> ExperimentMetaView {
        ExperimentMetaView {
            title: self.title@,
            slug: self.slug@,
            description: self.description@,
            assets: self.assets.deep_view(),
            styles: self.styles.deep_view(),
            scripts: self.scripts.deep_view(),
            prepack: match self.prepack {
                Some(ref v) => Some(v@),
                None => None,
            },
        }
    }
}

/// One assembled experiment.
pub struct Experiment {
    pub experiment_markup: Vec<u8>,
    pub notes: Vec<u8>,
    pub meta: ExperimentMeta,
}

pub struct ExperimentView {
    pub experiment_markup: Seq<u8>,
    pub notes: Seq<u8>,
    pub meta: ExperimentMetaView,
}

impl View for Experiment {
    type V = ExperimentView;

    open spec fn view(&self) -> ExperimentView {
        ExperimentView {
            experiment_markup: self.experiment_markup@,
            notes: self.notes@,
            meta: self.meta@,
        }
    }
}

/// The views of a sequence of experiments.
pub open spec fn exp_views(s: Seq<Experiment>) -> Seq<ExperimentView> {
    s.map_values(|e: Experiment| e@)
}

/// The source material of one bundle, as read from its directory.
pub struct ExperimentInput {
    pub dir_name: Vec<u8>,
    pub meta: ExperimentMeta,
    pub index_html: Vec<u8>,
    pub readme: Vec<u8>,
    pub asset_data: Vec<Vec<u8>>,
}

pub struct ExperimentInputView {
    pub dir_name: Seq<u8>,
    pub meta: ExperimentMetaView,
    pub index_html: Seq<u8>,
    pub readme: Seq<u8>,
    pub asset_data: Seq<Seq<u8>>,
}

impl View for ExperimentInput {
    type V = ExperimentInputView;

    open spec fn view(&self) -> ExperimentInputView {
        ExperimentInputView {
            dir_name: self.dir_name@,
            meta: self.meta@,
            index_html: self.index_html@,
            readme: self.readme@,
            asset_data: self.asset_data.deep_view(),
        }
    }
}

impl ExperimentInput {
    /// One data blob per declared asset.
    pub open spec fn wf(&self) -> bool {
        self.asset_data@.len() == self.meta.assets@.len()
    }
}

#[derive(Clone, Copy, PartialEq, Eq, Structural, Debug)]
pub enum ExperimentError {
    /// The static preview page has no `<main>` element.
    MissingMain,
}

/// The source-tree path of the experiments directory.
pub open spec fn lit_experiments_dir() -> Seq<u8> {
    seq![101u8, 120u8, 112u8, 101u8, 114u8, 105u8, 109u8, 101u8, 110u8, 116u8, 115u8]
}

/// The experiments directory name, `experiments`, as a vector.
pub fn lit_experiments_dir_vec() -> (r: Vec<u8>)
    ensures
        r@ == lit_experiments_dir(),
{
    let mut v: Vec<u8> = Vec::new();
    v.push(101);
    v.push(120);
    v.push(112);
    v.push(101);
    v.push(114);
    v.push(105);
    v.push(109);
    v.push(101);
    v.push(110);
    v.push(116);
    v.push(115);
    proof {
        assert(v@ =~= lit_experiments_dir());
    }
    v
}

/// A declared asset path made relative to the source root:
/// `experiments/<dir>/<asset>`.
pub open spec fn rewritten_asset(dir: Seq<u8>, asset: Seq<u8>) -> Seq<u8> {
    lit_experiments_dir() + seq![47u8] + dir + seq![47u8] + asset
}

/// Builds `experiments/<dir>/<asset>`.
pub fn rewrite_asset(dir: &Vec<u8>, asset: &Vec<u8>) -> (r: Vec<u8>)
    ensures
        r@ == rewritten_asset(dir@, asset@),
{
    let mut out = lit_experiments_dir_vec();
    out.push(47);
    append_bytes(&mut out, dir);
    out.push(47);
    append_bytes(&mut out, asset);
    proof {
        assert(out@ =~= rewritten_asset(dir@, asset@));
    }
    out
}

/// What assembling a bundle yields: the first `<main>` subtree of the
/// preview, the readme rendered to HTML, and the manifest with each asset
/// path rewritten.
pub open spec fn spec_assemble(inp: ExperimentInputView) -> Result<ExperimentView, ExperimentError> {
    match main_fragment_of(inp.index_html) {
        None => Err(ExperimentError::MissingMain),
        Some(markup) => Ok(
            ExperimentView {
                experiment_markup: markup,
                notes: md_html_of(inp.readme),
                meta: ExperimentMetaView {
                    assets: inp.meta.assets.map_values(
                        |a: Seq<u8>| rewritten_asset(inp.dir_name, a),
                    ),
                    ..inp.meta
                },
            },
        ),
    }
}

/// Assembles one experiment bundle, exactly as `spec_assemble` states.
pub fn assemble_experiment(inp: &ExperimentInput) -> (r: Result<Experiment, ExperimentError>)
    ensures
        match r {
            Ok(e) => spec_assemble(inp@) == Ok::<ExperimentView, ExperimentError>(e@),
            Err(e) => spec_assemble(inp@) == Err::<ExperimentView, ExperimentError>(e),
        },
{
    let markup = match extract_main(&inp.index_html) {
        Some(m) => m,
        None => {
            return Err(ExperimentError::MissingMain);
        },
    };
    let notes = markdown_to_html(&inp.readme);
    let mut assets: Vec<Vec<u8>> = Vec::new();
    let mut i: usize = 0;
    while i < inp.meta.assets.len()
        invariant
            0 <= i <= inp.meta.assets@.len(),
            assets.deep_view() == inp.meta.assets.deep_view().take(i as int).map_values(
                |a: Seq<u8>| rewritten_asset(inp.dir_name@, a),
            ),
        decreases inp.meta.assets@.len() - i,
    {
        let ghost a0 = assets.deep_view();
        let ra = rewrite_asset(&inp.dir_name, &inp.meta.assets[i]);
        let ghost rav = ra@;
        assets.push(ra);
        proof {
            assert(assets@[assets@.len() - 1].deep_view() =~= rav);
            assert(assets.deep_view() =~= a0.push(rav));
            assert(inp.meta.assets@[i as int].deep_view() =~= inp.meta.assets@[i as int]@);
            assert(assets.deep_view() =~= inp.meta.assets.deep_view().take(i + 1).map_values(
                |a: Seq<u8>| rewritten_asset(inp.dir_name@, a),
            ));
        }
        i += 1;
    }
    proof {
        assert(inp.meta.assets.deep_view().take(i as int) =~= inp.meta.assets.deep_view());
    }
    let meta = ExperimentMeta {
        title: copy_vec(&inp.meta.title),
        slug: copy_vec(&inp.meta.slug),
        description: copy_vec(&inp.meta.description),
        assets,
        styles: copy_vec_list(&inp.meta.styles),
        scripts: copy_vec_list(&inp.meta.scripts),
        prepack: copy_opt_vec(&inp.meta.prepack),
    };
    let e = Experiment { experiment_markup: markup, notes, meta };
    proof {
        assert(e@ == spec_assemble(inp@)->Ok_0);
    }
    Ok(e)
}

} // verus!
