use vstd::prelude::*;

verus! {

/// One file of the output tree: where it goes and what it holds.  The
/// build produces the whole output tree as a value; writing it to disk is
/// the caller's business.
pub struct OutputFile {
    pub path: Vec<u8>,
    pub data: Vec<u8>,
}

pub struct OutputFileView {
    pub path: Seq<u8>,
    pub data: Seq<u8>,
}

impl View for OutputFile {
    type V = OutputFileView;

    open spec fn view(&self) -> OutputFileView {
        OutputFileView { path: self.path@, data: self.data@ }
    }
}

/// The views of a sequence of output files.
pub open spec fn output_views(s: Seq<OutputFile>) -> Seq<OutputFileView> {
    s.map_values(|f: OutputFile| f@)
}

} // verus!
