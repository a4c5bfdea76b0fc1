use vstd::prelude::*;
use crate::decl::{DeclModel, ImportDecl};
use crate::error::PathError;
use crate::matcher::{lemma_walk_cases, outcome, MatchOutcome, PrefixMatcher};
use crate::ref_path::{RefPath, RefPathModel};
use crate::segment::{all_clean, idents_of, segments_of, CloneRemainder, CratePath};
use crate::simple_path::{SimplePath, SimplePathModel};
use crate::tree::{attach, lemma_attach_chain, lemma_attach_of_own_prefix};

verus! {

/// Rewrites the query prefix of path-shaped nodes to the replacement.
///
/// The engine is stateless per node: for every reference path and every
/// import declaration a traversal encounters, it runs the prefix match
/// and, on a complete match, substitutes the rebuilt node in place;
/// otherwise the node is left untouched.  Substituted content is not
/// re-offered to the engine — the replacement is author-supplied and taken
/// as already rewritten — and recursing into a node's children stays with
/// the caller's traversal in both cases.
#[derive(Debug)]
pub struct PathReplacer {
    pub query: SimplePath,
    pub replacement: SimplePath,
}

impl PathReplacer {
    /// Validates the query and the replacement and fixes them for the
    /// lifetime of the engine.  Fails with
    /// [`PathError::InvalidPathShape`] when either carries extraneous
    /// structure.
    pub fn new(query: RefPath, replacement: RefPath) -> (r: Result<PathReplacer, PathError>)
        ensures
            match r {
                Ok(e) => {
                    &&& all_clean(query@.segments)
                    &&& all_clean(replacement@.segments)
                    &&& e.query@ == (SimplePathModel {
                        rooted: query@.rooted,
                        segments: idents_of(query@.segments),
                    })
                    &&& e.replacement@ == (SimplePathModel {
                        rooted: replacement@.rooted,
                        segments: idents_of(replacement@.segments),
                    })
                },
                Err(e) => {
                    &&& !all_clean(query@.segments) || !all_clean(replacement@.segments)
                    &&& e == PathError::InvalidPathShape
                },
            },
    {
        let q = match SimplePath::new(query) {
            Ok(q) => q,
            Err(e) => {
                return Err(e);
            },
        };
        let rep = match SimplePath::new(replacement) {
            Ok(rep) => rep,
            Err(e) => {
                return Err(e);
            },
        };
        Ok(PathReplacer { query: q, replacement: rep })
    }

    /// The matcher's verdict for a flat reference path.
    pub open spec fn path_outcome(&self, t: RefPathModel) -> MatchOutcome {
        outcome(self.query@.rooted, self.query@.segments, t.rooted, t.segments)
    }

    /// The matcher's verdict for an import declaration.
    pub open spec fn decl_outcome(&self, d: DeclModel) -> MatchOutcome {
        outcome(self.query@.rooted, self.query@.segments, d.rooted, segments_of(d.tree.chain()))
    }

    /// The rewritten form of a matched reference path: the replacement's
    /// identifiers, then the remainder verbatim, under the replacement's
    /// root marker.
    pub open spec fn rewritten_path(&self, t: RefPathModel) -> RefPathModel {
        RefPathModel {
            rooted: self.replacement@.rooted,
            segments: segments_of(self.replacement@.segments) + t.segments.skip(
                self.query@.segments.len() as int,
            ),
        }
    }

    /// The rewritten form of a matched import declaration: the metadata
    /// verbatim, the replacement's root marker, and the replacement chain
    /// leading to the original remainder subtree.
    pub open spec fn rewritten_decl(&self, d: DeclModel) -> DeclModel {
        DeclModel {
            vis: d.vis,
            attrs: d.attrs,
            rooted: self.replacement@.rooted,
            tree: attach(
                self.replacement@.segments,
                d.tree.subtree_at(self.query@.segments.len() as int),
            ),
        }
    }

    /// Matches `target` against the query and, on a complete match, builds
    /// the rewritten path.  `Ok(None)` is the ordinary non-match result.
    pub fn replace_if_match(&self, target: &RefPath) -> (r: Result<Option<RefPath>, PathError>)
        ensures
            match r {
                Ok(Some(p)) => self.path_outcome(target@) is Matched && p@ == self.rewritten_path(
                    target@,
                ),
                Ok(None) => self.path_outcome(target@) is NoMatch,
                Err(e) => self.path_outcome(target@) is Invalid && e
                    == PathError::InvalidPathShape,
            },
    {
        let matcher = PrefixMatcher::new(&self.query, target);
        let status = matcher.get_suffix();
        if status.invalid {
            return Err(PathError::InvalidPathShape);
        }
        if !status.is_match() {
            return Ok(None);
        }
        proof {
            lemma_walk_cases(self.query@.segments, target@.segments);
        }
        match target.clone_remainder(status.consumed) {
            Some(rest) => {
                let p = RefPath::concatenate(&self.replacement, &rest);
                proof {
                    assert(p@ =~= self.rewritten_path(target@));
                }
                Ok(Some(p))
            },
            None => Err(PathError::InternalInconsistency),
        }
    }

    /// Matches the chain of `target`'s import tree against the query and,
    /// on a complete match, builds the rewritten declaration.
    pub fn replace_if_match_import(&self, target: &ImportDecl) -> (r: Result<
        Option<ImportDecl>,
        PathError,
    >)
        ensures
            match r {
                Ok(Some(d)) => self.decl_outcome(target@) is Matched && d@ == self.rewritten_decl(
                    target@,
                ),
                Ok(None) => self.decl_outcome(target@) is NoMatch,
                Err(e) => self.decl_outcome(target@) is Invalid && e
                    == PathError::InvalidPathShape,
            },
    {
        let matcher = PrefixMatcher::new(&self.query, target);
        let status = matcher.get_suffix();
        if status.invalid {
            return Err(PathError::InvalidPathShape);
        }
        if !status.is_match() {
            return Ok(None);
        }
        proof {
            lemma_walk_cases(self.query@.segments, target.parts_spec());
        }
        match target.concatenate(&self.replacement, status.consumed) {
            Ok(d) => {
                proof {
                    assert(d@ =~= self.rewritten_decl(target@));
                }
                Ok(Some(d))
            },
            Err(e) => Err(e),
        }
    }

    /// Offers a reference path to the rewrite and substitutes it in place
    /// on a match; reports whether a substitution happened.  The path is
    /// untouched on a non-match and on an error.
    pub fn visit_path_mut(&self, path: &mut RefPath) -> (r: Result<bool, PathError>)
        ensures
            match r {
                Ok(true) => self.path_outcome(old(path)@) is Matched && final(path)@
                    == self.rewritten_path(old(path)@),
                Ok(false) => self.path_outcome(old(path)@) is NoMatch && final(path)@ == old(
                    path,
                )@,
                Err(e) => self.path_outcome(old(path)@) is Invalid && e
                    == PathError::InvalidPathShape && final(path)@ == old(path)@,
            },
    {
        match self.replace_if_match(path) {
            Ok(Some(p)) => {
                *path = p;
                Ok(true)
            },
            Ok(None) => Ok(false),
            Err(e) => Err(e),
        }
    }

    /// Offers an import declaration to the rewrite and substitutes it in
    /// place on a match; reports whether a substitution happened.  The
    /// declaration is untouched on a non-match and on an error.
    pub fn visit_item_use_mut(&self, decl: &mut ImportDecl) -> (r: Result<bool, PathError>)
        ensures
            match r {
                Ok(true) => self.decl_outcome(old(decl)@) is Matched && final(decl)@
                    == self.rewritten_decl(old(decl)@),
                Ok(false) => self.decl_outcome(old(decl)@) is NoMatch && final(decl)@ == old(
                    decl,
                )@,
                Err(e) => self.decl_outcome(old(decl)@) is Invalid && e
                    == PathError::InvalidPathShape && final(decl)@ == old(decl)@,
            },
    {
        match self.replace_if_match_import(decl) {
            Ok(Some(d)) => {
                *decl = d;
                Ok(true)
            },
            Ok(None) => Ok(false),
            Err(e) => Err(e),
        }
    }

    /// Idempotence: with query and replacement identical, a matched
    /// reference path is rebuilt exactly as it was; together with the
    /// untouched non-match and error cases, rewriting is then the identity
    /// on every reference path.
    pub proof fn lemma_identical_rewrite_path(&self, t: RefPathModel)
        requires
            self.query@ == self.replacement@,
            self.path_outcome(t) is Matched,
        ensures
            self.rewritten_path(t) == t,
    {
        lemma_walk_cases(self.query@.segments, t.segments);
        assert(self.rewritten_path(t) =~~= t);
    }

    /// Idempotence for import declarations: with query and replacement
    /// identical, a matched declaration is rebuilt exactly as it was.
    pub proof fn lemma_identical_rewrite_decl(&self, d: DeclModel)
        requires
            self.query@ == self.replacement@,
            self.decl_outcome(d) is Matched,
        ensures
            self.rewritten_decl(d) == d,
    {
        lemma_walk_cases(self.query@.segments, segments_of(d.tree.chain()));
        assert forall|i: int| 0 <= i < self.query@.segments.len() implies #[trigger] self.query@
            .segments[i] == d.tree.chain()[i] by {
            assert(segments_of(d.tree.chain())[i].ident == d.tree.chain()[i]);
        }
        lemma_attach_of_own_prefix(d.tree, self.query@.segments);
        assert(self.rewritten_decl(d) =~~= d);
    }

    /// Group preservation: whatever subtree stands at the end of the
    /// matched chain — in particular a group of sibling imports — stands
    /// verbatim, members and order unchanged, at the end of the
    /// replacement chain of the rewritten tree; and when that remainder is
    /// a terminal node, the rewritten chain is exactly the replacement.
    pub proof fn lemma_group_preservation(&self, d: DeclModel)
        ensures
            self.rewritten_decl(d).tree.subtree_at(self.replacement@.segments.len() as int)
                == d.tree.subtree_at(self.query@.segments.len() as int),
            !(d.tree.subtree_at(self.query@.segments.len() as int) is Simple)
                ==> self.rewritten_decl(d).tree.chain() == self.replacement@.segments,
    {
        let rest = d.tree.subtree_at(self.query@.segments.len() as int);
        lemma_attach_chain(self.replacement@.segments, rest);
        if !(rest is Simple) {
            assert(rest.chain().len() == 0);
            assert(self.replacement@.segments + rest.chain() =~= self.replacement@.segments);
        }
    }

    /// A zero-length query matches any reference path that agrees with it
    /// on the root marker; the replacement is prepended whole and the
    /// entire original path is the remainder.
    pub proof fn lemma_zero_length_prepends(&self, t: RefPathModel)
        requires
            self.query@.segments.len() == 0,
            self.query@.rooted == t.rooted,
        ensures
            self.path_outcome(t) is Matched,
            self.rewritten_path(t).segments == segments_of(self.replacement@.segments)
                + t.segments,
    {
        assert(t.segments.skip(0) =~= t.segments);
    }

    /// A zero-length query matches any import declaration that agrees with
    /// it on the root marker; the replacement chain is prepended whole and
    /// the entire original tree is the remainder.
    pub proof fn lemma_zero_length_prepends_decl(&self, d: DeclModel)
        requires
            self.query@.segments.len() == 0,
            self.query@.rooted == d.rooted,
        ensures
            self.decl_outcome(d) is Matched,
            self.rewritten_decl(d).tree == attach(self.replacement@.segments, d.tree),
    {
    }
}

} // verus!
