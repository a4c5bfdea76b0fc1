use vstd::prelude::*;
use crate::error::PathError;
use crate::segment::{segments_of, CloneRemainder, CratePath, PathPart, Segment, SegmentModel};
use crate::simple_path::SimplePath;
use crate::tree::{attach, concat_prefix_path_to_tree, ImportTree, TreeModel};

verus! {

/// An import declaration: non-path metadata plus exactly one import tree.
///
/// The metadata — visibility and attached documentation or attributes — is
/// never touched by a rewrite; only the path-shaped content changes.
#[derive(Debug)]
pub struct ImportDecl {
    /// Visibility marker, preserved verbatim across rewrites.
    pub vis: String,
    /// Attached documentation and metadata, preserved verbatim.
    pub attrs: Vec<String>,
    /// Whether the imported path is anchored at the global root.
    pub rooted: bool,
    /// The names this declaration brings into scope.
    pub tree: ImportTree,
}

/// Mathematical shape of an [`ImportDecl`].
#[verifier::ext_equal]
pub struct DeclModel {
    pub vis: Seq<char>,
    pub attrs: Seq<Seq<char>>,
    pub rooted: bool,
    pub tree: TreeModel,
}

impl View for ImportDecl {
    type V = DeclModel;

    open spec fn view(&self) -> DeclModel {
        DeclModel {
            vis: self.vis@,
            attrs: Seq::new(self.attrs@.len(), |i: int| self.attrs@[i]@),
            rooted: self.rooted,
            tree: self.tree@,
        }
    }
}

impl CratePath for ImportDecl {
    open spec fn root_spec(&self) -> bool {
        self@.rooted
    }

    open spec fn parts_spec(&self) -> Seq<SegmentModel> {
        segments_of(self@.tree.chain())
    }

    fn leading_colon(&self) -> (r: bool) {
        self.rooted
    }

    fn part_at(&self, i: usize) -> (r: Option<Segment>) {
        proof {
            self@.tree.lemma_chain_subtree(i as int);
        }
        match self.tree.descend(i) {
            Some(t) => match t {
                ImportTree::Simple { name, .. } => Some(Segment::from_ident(name.clone())),
                _ => None,
            },
            None => None,
        }
    }
}

impl CloneRemainder for ImportDecl {
    type Rest = ImportTree;

    open spec fn has_rest(&self, n: int) -> bool {
        0 <= n <= self@.tree.chain().len()
    }

    open spec fn rest_spec(&self, n: int) -> TreeModel {
        self@.tree.subtree_at(n)
    }

    /// The subtree at the point matching stopped: the first terminal node,
    /// or the `Simple` node at the boundary, with everything beneath it.
    fn clone_remainder(&self, n: usize) -> (r: Option<ImportTree>) {
        match self.tree.descend(n) {
            Some(t) => Some(t.clone()),
            None => None,
        }
    }
}

impl ImportDecl {
    /// Builds the rewritten declaration: a chain of `Simple` nodes, one per
    /// replacement identifier, with the remainder subtree found `consumed`
    /// links down the original chain reattached unchanged as its tail.
    /// Every non-path field is copied verbatim; the root marker is the
    /// replacement's.
    ///
    /// Fails with [`PathError::InternalInconsistency`] when no remainder
    /// exists at that depth, which a correct match never reports.
    pub fn concatenate(&self, prefix: &SimplePath, consumed: usize) -> (r: Result<
        ImportDecl,
        PathError,
    >)
        ensures
            match r {
                Ok(d) => consumed <= self@.tree.chain().len() && d@ == (DeclModel {
                    vis: self@.vis,
                    attrs: self@.attrs,
                    rooted: prefix@.rooted,
                    tree: attach(prefix@.segments, self@.tree.subtree_at(consumed as int)),
                }),
                Err(e) => consumed > self@.tree.chain().len() && e
                    == PathError::InternalInconsistency,
            },
    {
        match self.clone_remainder(consumed) {
            Some(rest) => {
                let tree = concat_prefix_path_to_tree(prefix, rest);
                let mut attrs: Vec<String> = Vec::new();
                let mut i: usize = 0;
                while i < self.attrs.len()
                    invariant
                        i <= self.attrs.len(),
                        attrs@.len() == i,
                        forall|k: int| 0 <= k < i ==> #[trigger] attrs@[k] == self.attrs@[k],
                    decreases self.attrs.len() - i,
                {
                    attrs.push(self.attrs[i].clone());
                    i += 1;
                }
                let d = ImportDecl { vis: self.vis.clone(), attrs, rooted: prefix.rooted, tree };
                proof {
                    assert(d@.attrs =~= self@.attrs);
                }
                Ok(d)
            },
            None => Err(PathError::InternalInconsistency),
        }
    }
}

} // verus!
