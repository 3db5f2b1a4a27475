//! A plain model of filesystem paths: a path is an absolute-or-relative flag
//! plus the ordered list of its name components. The binary converts between
//! this form and the platform's path type at the boundary; the output
//! location of a processed file is derived here as a pure function of the
//! input path.

use vstd::prelude::*;

verus! {

/// The mathematical value of a [`FilePath`]: each component as a sequence
/// of characters, plus whether the path is anchored at the filesystem root.
pub struct PathV {
    pub absolute: bool,
    pub parts: Seq<Seq<char>>,
}

/// A filesystem path as the batch logic sees it. The empty component list
/// stands for the paths that have neither a parent directory nor a file
/// name (the root, or an empty relative path).
#[derive(Debug, PartialEq, Eq)]
pub struct FilePath {
    pub absolute: bool,
    pub components: Vec<String>,
}

impl DeepView for FilePath {
    type V = PathV;

    open spec fn deep_view(&self) -> PathV {
        PathV { absolute: self.absolute, parts: self.components.deep_view() }
    }
}

/// The name of the sibling directory that receives processed files.
pub open spec fn out_dir_name() -> Seq<char> {
    "removed-ocr"@
}

/// Where the processed copy of a file goes: alongside the original's parent
/// directory, under `removed-ocr`, keeping the original file name.
pub open spec fn output_of(p: PathV) -> PathV
    recommends
        p.parts.len() >= 1,
{
    PathV {
        absolute: p.absolute,
        parts: p.parts.subrange(0, p.parts.len() - 1) + seq![out_dir_name(), p.parts.last()],
    }
}

/// Copy the first `count` components of `src` into a fresh vector.
fn copy_components(src: &Vec<String>, count: usize) -> (r: Vec<String>)
    requires
        count <= src@.len(),
    ensures
        r@ =~= src@.subrange(0, count as int),
{
    let mut components: Vec<String> = Vec::new();
    let mut i: usize = 0;
    while i < count
        invariant
            i <= count <= src@.len(),
            components@ =~= src@.subrange(0, i as int),
        decreases count - i,
    {
        components.push(src[i].clone());
        i += 1;
    }
    components
}

impl Clone for FilePath {
    /// Cloning keeps the path's value exactly.
    fn clone(&self) -> (r: Self)
        ensures
            r.deep_view() == self.deep_view(),
    {
        let components = copy_components(&self.components, self.components.len());
        proof {
            assert(components@ =~= self.components@);
            assert(components.deep_view() =~= self.components.deep_view());
        }
        FilePath { absolute: self.absolute, components }
    }
}

impl FilePath {
    /// Derive the output location for this path, or nothing when the path
    /// has no final name component to place under `removed-ocr` (and hence
    /// no parent directory either): such a path cannot be processed.
    pub fn output_path(&self) -> (r: Option<FilePath>)
        ensures
            self.components@.len() == 0 ==> r is None,
            self.components@.len() >= 1 ==> (r matches Some(q) && q.deep_view() == output_of(
                self.deep_view(),
            )),
    {
        let n = self.components.len();
        if n == 0 {
            return None;
        }
        let mut components = copy_components(&self.components, n - 1);
        components.push(String::from_str("removed-ocr"));
        components.push(self.components[n - 1].clone());
        let q = FilePath { absolute: self.absolute, components };
        proof {
            assert(q.deep_view().parts =~= output_of(self.deep_view()).parts);
        }
        Some(q)
    }
}

} // verus!
