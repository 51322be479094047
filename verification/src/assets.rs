use vstd::prelude::*;

use crate::bytes::{append_bytes, bytes_eq, contains_sub, contains_vec, copy_vec, subvec};
use crate::external::compile_scss;
use crate::output::{output_views, OutputFile, OutputFileView};

verus! {

// The asset pipeline mirrors the asset source tree into the output's
// static namespace: style-sheet sources are compiled to CSS under the same
// relative path with the extension replaced, everything else is copied
// verbatim.  A single failing compile aborts the whole run.  The compiler
// may read the disk for imports, so the compiled bytes themselves carry no
// contract; every path, and every verbatim copy, is pinned exactly.

/// One source asset: the sub-folder it sits in (empty for the root, with a
/// leading slash otherwise, as the directory walk hands it over), its file
/// name, and its bytes.
pub struct AssetFile {
    pub sub_folder: Vec<u8>,
    pub name: Vec<u8>,
    pub data: Vec<u8>,
}

pub struct AssetFileView {
    pub sub_folder: Seq<u8>,
    pub name: Seq<u8>,
    pub data: Seq<u8>,
}

impl View for AssetFile {
    type V = AssetFileView;

    open spec fn view(&self) -> AssetFileView {
        AssetFileView { sub_folder: self.sub_folder@, name: self.name@, data: self.data@ }
    }
}

pub open spec fn asset_views(s: Seq<AssetFile>) -> Seq<AssetFileView> {
    s.map_values(|f: AssetFile| f@)
}

#[derive(Clone, Copy, PartialEq, Eq, Structural, Debug)]
pub enum AssetError {
    /// A style-sheet source the compiler rejected.
    StyleCompile,
}

/// `.scss`
pub open spec fn lit_dot_scss() -> Seq<u8> {
    seq![46u8, 115u8, 99u8, 115u8, 115u8]
}

fn lit_dot_scss_vec() -> (r: Vec<u8>)
    ensures
        r@ == lit_dot_scss(),
{
    let mut v: Vec<u8> = Vec::new();
    v.push(46);
    v.push(115);
    v.push(99);
    v.push(115);
    v.push(115);
    proof {
        assert(v@ =~= lit_dot_scss());
    }
    v
}

/// `.md`
pub open spec fn lit_dot_md() -> Seq<u8> {
    seq![46u8, 109u8, 100u8]
}

fn lit_dot_md_vec() -> (r: Vec<u8>)
    ensures
        r@ == lit_dot_md(),
{
    let mut v: Vec<u8> = Vec::new();
    v.push(46);
    v.push(109);
    v.push(100);
    proof {
        assert(v@ =~= lit_dot_md());
    }
    v
}

/// `docs/static/`
pub open spec fn lit_static_prefix() -> Seq<u8> {
    seq![100u8, 111u8, 99u8, 115u8, 47u8, 115u8, 116u8, 97u8, 116u8, 105u8, 99u8, 47u8]
}

fn lit_static_prefix_vec() -> (r: Vec<u8>)
    ensures
        r@ == lit_static_prefix(),
{
    let mut v: Vec<u8> = Vec::new();
    v.push(100);
    v.push(111);
    v.push(99);
    v.push(115);
    v.push(47);
    v.push(115);
    v.push(116);
    v.push(97);
    v.push(116);
    v.push(105);
    v.push(99);
    v.push(47);
    proof {
        assert(v@ =~= lit_static_prefix());
    }
    v
}

/// `.css`
pub open spec fn lit_dot_css() -> Seq<u8> {
    seq![46u8, 99u8, 115u8, 115u8]
}

/// A name whose extension identifies a style-sheet source: it ends in
/// `.scss` with a non-empty stem before it.
pub open spec fn is_scss_name(name: Seq<u8>) -> bool {
    name.len() > lit_dot_scss().len() && name.skip(name.len() - lit_dot_scss().len() as int)
        == lit_dot_scss()
}

/// A name counts as a markdown source when `.md` occurs after at least one
/// leading character, as the loader's unanchored pattern has it.
pub open spec fn is_md_name(name: Seq<u8>) -> bool {
    name.len() >= 1 && contains_sub(name.skip(1), lit_dot_md())
}

/// Whether the name is a style-sheet source.
pub fn check_scss_name(name: &Vec<u8>) -> (r: bool)
    ensures
        r == is_scss_name(name@),
{
    let suffix = lit_dot_scss_vec();
    if name.len() <= suffix.len() {
        return false;
    }
    let tail = subvec(name, name.len() - suffix.len(), name.len());
    proof {
        assert(tail@ =~= name@.skip(name@.len() - lit_dot_scss().len() as int));
    }
    bytes_eq(&tail, &suffix)
}

/// Whether the name is a markdown source.
pub fn check_md_name(name: &Vec<u8>) -> (r: bool)
    ensures
        r == is_md_name(name@),
{
    if name.len() == 0 {
        return false;
    }
    let rest = subvec(name, 1, name.len());
    proof {
        assert(rest@ =~= name@.skip(1));
    }
    contains_vec(&rest, &lit_dot_md_vec())
}

/// Where a processed asset lands: `docs/static/<sub>/<file>`.
pub open spec fn static_path(sub_folder: Seq<u8>, file: Seq<u8>) -> Seq<u8> {
    lit_static_prefix() + sub_folder + seq![47u8] + file
}

/// The output path of one asset: for a style-sheet source, the same
/// relative path with the `.scss` extension replaced by `.css`; for
/// anything else, the path unchanged.
pub open spec fn spec_asset_path(f: AssetFileView) -> Seq<u8> {
    if is_scss_name(f.name) {
        static_path(
            f.sub_folder,
            f.name.take(f.name.len() - lit_dot_scss().len() as int) + lit_dot_css(),
        )
    } else {
        static_path(f.sub_folder, f.name)
    }
}

/// Wraps what the style compiler handed back as the output entry of a
/// style-sheet source: the compiled bytes, whatever they are, under the
/// source's path with the extension replaced.
pub fn styled_asset_output(f: &AssetFile, css: Vec<u8>) -> (out: OutputFile)
    requires
        is_scss_name(f@.name),
    ensures
        out@.path == spec_asset_path(f@),
        out@.data == css@,
{
    let mut path = lit_static_prefix_vec();
    append_bytes(&mut path, &f.sub_folder);
    path.push(47);
    let stem = subvec(&f.name, 0, f.name.len() - 5);
    proof {
        assert(stem@ =~= f.name@.take(f.name@.len() - lit_dot_scss().len() as int));
    }
    append_bytes(&mut path, &stem);
    path.push(46);
    path.push(99);
    path.push(115);
    path.push(115);
    proof {
        assert(path@ =~= spec_asset_path(f@));
    }
    OutputFile { path, data: css }
}

/// Processes one asset.  A style-sheet source is handed to the compiler
/// and fails the run if and only if the compiler refuses it; everything
/// else is copied verbatim, so plain copies always succeed.  The output
/// path is pinned in either case; only the compiled bytes, which may
/// depend on imports read from disk, are left open.
pub fn process_asset(f: &AssetFile) -> (r: Result<OutputFile, AssetError>)
    ensures
        match r {
            Ok(out) => out@.path == spec_asset_path(f@) && (!is_scss_name(f@.name) ==> out@.data
                == f@.data),
            Err(e) => e == AssetError::StyleCompile && is_scss_name(f@.name),
        },
{
    if check_scss_name(&f.name) {
        let css = match compile_scss(&f.data) {
            Ok(css) => css,
            Err(_) => {
                return Err(AssetError::StyleCompile);
            },
        };
        Ok(styled_asset_output(f, css))
    } else {
        let mut path = lit_static_prefix_vec();
        append_bytes(&mut path, &f.sub_folder);
        path.push(47);
        append_bytes(&mut path, &f.name);
        proof {
            assert(path@ =~= static_path(f@.sub_folder, f@.name));
        }
        Ok(OutputFile { path, data: copy_vec(&f.data) })
    }
}

/// What a successful pack yields: one output per asset, in order, each
/// under its pinned path, with plain copies byte-identical to their
/// sources.
pub open spec fn pack_outputs_match(files: Seq<AssetFileView>, outs: Seq<OutputFileView>) -> bool {
    &&& outs.len() == files.len()
    &&& forall|k: int| 0 <= k < files.len() ==> (#[trigger] outs[k]).path == spec_asset_path(
        files[k],
    )
    &&& forall|k: int| 0 <= k < files.len() && !is_scss_name(files[k].name) ==> (
    #[trigger] outs[k]).data == files[k].data
}

/// Mirrors the asset tree into the static namespace: processes each asset
/// in order and aborts at the first failing style compile.  Failure comes
/// only from a style-sheet source, so a tree without one always packs.
pub fn pack_assets(files: &Vec<AssetFile>) -> (r: Result<Vec<OutputFile>, AssetError>)
    ensures
        match r {
            Ok(outs) => pack_outputs_match(asset_views(files@), output_views(outs@)),
            Err(e) => e == AssetError::StyleCompile && exists|k: int|
                0 <= k < files@.len() && is_scss_name((#[trigger] asset_views(files@)[k]).name),
        },
{
    let ghost fv = asset_views(files@);
    let mut out: Vec<OutputFile> = Vec::new();
    let mut i: usize = 0;
    while i < files.len()
        invariant
            0 <= i <= files@.len(),
            fv == asset_views(files@),
            output_views(out@).len() == i,
            forall|k: int| 0 <= k < i ==> (#[trigger] output_views(out@)[k]).path
                == spec_asset_path(fv[k]),
            forall|k: int| 0 <= k < i && !is_scss_name(fv[k].name) ==> (#[trigger] output_views(
                out@,
            )[k]).data == fv[k].data,
        decreases files@.len() - i,
    {
        proof {
            assert(fv[i as int] == files@[i as int]@);
        }
        match process_asset(&files[i]) {
            Ok(o) => {
                let ghost b = output_views(out@);
                out.push(o);
                proof {
                    assert(output_views(out@) =~= b.push(o@));
                }
            },
            Err(e) => {
                return Err(e);
            },
        }
        i += 1;
    }
    Ok(out)
}

} // verus!
