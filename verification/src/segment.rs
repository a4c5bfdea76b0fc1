use vstd::prelude::*;

verus! {

/// One identifier-bearing unit of a flat reference path.
///
/// `has_args` records whether the segment carries extraneous structure
/// (such as generic arguments in angle brackets).  Such a segment yields no
/// comparison identifier: matching against it fails with
/// [`crate::error::PathError::InvalidPathShape`].
#[derive(Debug)]
pub struct Segment {
    pub ident: String,
    pub has_args: bool,
}

/// Mathematical shape of a [`Segment`].
#[verifier::ext_equal]
pub struct SegmentModel {
    pub ident: Seq<char>,
    pub has_args: bool,
}

impl View for Segment {
    type V = SegmentModel;

    open spec fn view(&self) -> SegmentModel {
        SegmentModel { ident: self.ident@, has_args: self.has_args }
    }
}

impl Clone for Segment {
    fn clone(&self) -> (r: Self)
        ensures
            r == *self,
    {
        Segment { ident: self.ident.clone(), has_args: self.has_args }
    }
}

/// Whether every segment of `s` is a plain identifier.
pub open spec fn all_clean(s: Seq<SegmentModel>) -> bool {
    forall|i: int| 0 <= i < s.len() ==> !(#[trigger] s[i]).has_args
}

/// The comparison identifiers of `s`, in order.
pub open spec fn idents_of(s: Seq<SegmentModel>) -> Seq<Seq<char>> {
    Seq::new(s.len(), |i: int| s[i].ident)
}

/// Bare identifiers `ids` as clean segments, in order.
pub open spec fn segments_of(ids: Seq<Seq<char>>) -> Seq<SegmentModel> {
    Seq::new(ids.len(), |i: int| SegmentModel { ident: ids[i], has_args: false })
}

/// A part of a path-shaped node, exposing an identifier for comparison.
pub trait PathPart: Sized {
    /// Whether the part is a plain identifier, free of extra structure.
    spec fn clean(&self) -> bool;

    /// The comparison identifier, mathematically.
    spec fn ident_spec(&self) -> Seq<char>;

    /// The comparison identifier of a clean part.
    fn ident(&self) -> (r: &String)
        requires
            self.clean(),
        ensures
            r@ == self.ident_spec(),
    ;

    /// The part consisting of the bare identifier `id`.
    fn from_ident(id: String) -> (r: Self)
        ensures
            r.clean(),
            r.ident_spec() == id@,
    ;
}

impl PathPart for String {
    open spec fn clean(&self) -> bool {
        true
    }

    open spec fn ident_spec(&self) -> Seq<char> {
        self@
    }

    fn ident(&self) -> (r: &String) {
        self
    }

    fn from_ident(id: String) -> (r: Self) {
        id
    }
}

impl PathPart for Segment {
    open spec fn clean(&self) -> bool {
        !self.has_args
    }

    open spec fn ident_spec(&self) -> Seq<char> {
        self.ident@
    }

    fn ident(&self) -> (r: &String) {
        &self.ident
    }

    fn from_ident(id: String) -> (r: Self) {
        Segment { ident: id, has_args: false }
    }
}

/// A path-shaped node: a root marker plus an ordered run of matchable parts.
///
/// For a flat reference path the parts are its segments; for an import
/// declaration they are the idents along the chain of `Simple` tree nodes,
/// stopping at the first terminal node (which belongs to the remainder).
pub trait CratePath {
    /// The root-marker flag, mathematically.
    spec fn root_spec(&self) -> bool;

    /// The matchable parts, mathematically.
    spec fn parts_spec(&self) -> Seq<SegmentModel>;

    /// Whether the node carries the root marker.
    fn leading_colon(&self) -> (r: bool)
        ensures
            r == self.root_spec(),
    ;

    /// The part at position `i`, or `None` when the parts are exhausted.
    fn part_at(&self, i: usize) -> (r: Option<Segment>)
        ensures
            match r {
                Some(p) => i < self.parts_spec().len() && p@ == self.parts_spec()[i as int],
                None => i >= self.parts_spec().len(),
            },
    ;
}

/// A path-shaped node whose remainder after a matched prefix can be copied
/// out as a standalone value.
pub trait CloneRemainder: CratePath {
    /// The shape the remainder takes.
    type Rest: View;

    /// Whether a remainder exists after `n` consumed parts.
    spec fn has_rest(&self, n: int) -> bool;

    /// The remainder after `n` consumed parts, mathematically.
    spec fn rest_spec(&self, n: int) -> <Self::Rest as View>::V;

    /// A copy of the remainder after `n` consumed parts, or `None` when it
    /// cannot be located.
    fn clone_remainder(&self, n: usize) -> (r: Option<Self::Rest>)
        ensures
            match r {
                Some(rest) => self.has_rest(n as int) && rest@ == self.rest_spec(n as int),
                None => !self.has_rest(n as int),
            },
    ;
}

} // verus!
