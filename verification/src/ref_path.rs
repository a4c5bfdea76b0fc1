use vstd::prelude::*;
use crate::error::PathError;
use crate::segment::{
    all_clean, segments_of, CloneRemainder, CratePath, PathPart, Segment, SegmentModel,
};
use crate::simple_path::SimplePath;

verus! {

/// A bare, flat reference to a symbol: an ordered run of segments plus an
/// optional root marker.  Rewrites build a fresh value wholesale; a path is
/// never mutated segment by segment.
#[derive(Debug)]
pub struct RefPath {
    pub rooted: bool,
    pub segments: Vec<Segment>,
}

/// Mathematical shape of a [`RefPath`].
#[verifier::ext_equal]
pub struct RefPathModel {
    pub rooted: bool,
    pub segments: Seq<SegmentModel>,
}

impl View for RefPath {
    type V = RefPathModel;

    open spec fn view(&self) -> RefPathModel {
        RefPathModel {
            rooted: self.rooted,
            segments: Seq::new(self.segments@.len(), |i: int| self.segments@[i]@),
        }
    }
}

impl Clone for RefPath {
    /// A structural copy: the copy has the same model as the original.
    fn clone(&self) -> (r: Self)
        ensures
            r@ == self@,
    {
        let mut copies: Vec<Segment> = Vec::new();
        let mut j: usize = 0;
        while j < self.segments.len()
            invariant
                j <= self.segments.len(),
                copies@.len() == j,
                forall|k: int| 0 <= k < j ==> #[trigger] copies@[k] == self.segments@[k],
            decreases self.segments.len() - j,
        {
            copies.push(self.segments[j].clone());
            j += 1;
        }
        let r = RefPath { rooted: self.rooted, segments: copies };
        proof {
            assert(r@.segments =~= self@.segments);
        }
        r
    }
}

/// Checks that `path` can be read as a plain segment sequence: every
/// segment must be a bare identifier.  A path whose segments carry
/// arguments in angle brackets cannot be matched or rewritten safely.
pub fn check_simple(path: RefPath) -> (r: Result<RefPath, PathError>)
    ensures
        match r {
            Ok(p) => all_clean(path@.segments) && p == path,
            Err(e) => !all_clean(path@.segments) && e == PathError::InvalidPathShape,
        },
{
    let mut i: usize = 0;
    while i < path.segments.len()
        invariant
            i <= path.segments.len(),
            forall|k: int| 0 <= k < i ==> !(#[trigger] path@.segments[k]).has_args,
        decreases path.segments.len() - i,
    {
        if path.segments[i].has_args {
            proof {
                assert(path@.segments[i as int].has_args);
            }
            return Err(PathError::InvalidPathShape);
        }
        i += 1;
    }
    Ok(path)
}

impl RefPath {
    /// A new path: the replacement's identifiers, in order, followed by
    /// the suffix's segments, in order; the root marker is the
    /// replacement's, since the rewritten path is governed by the
    /// replacement's origin.
    pub fn concatenate(prefix: &SimplePath, suffix: &RefPath) -> (r: RefPath)
        ensures
            r@.rooted == prefix@.rooted,
            r@.segments == segments_of(prefix@.segments) + suffix@.segments,
    {
        let mut segs: Vec<Segment> = Vec::new();
        let mut i: usize = 0;
        while i < prefix.segments.len()
            invariant
                i <= prefix.segments.len(),
                segs@.len() == i,
                forall|k: int|
                    0 <= k < i ==> #[trigger] segs@[k]@ == segments_of(prefix@.segments)[k],
            decreases prefix.segments.len() - i,
        {
            segs.push(Segment::from_ident(prefix.segments[i].clone()));
            i += 1;
        }
        let mut j: usize = 0;
        while j < suffix.segments.len()
            invariant
                j <= suffix.segments.len(),
                segs@.len() == prefix.segments@.len() + j,
                forall|k: int|
                    0 <= k < prefix.segments@.len() ==> #[trigger] segs@[k]@ == segments_of(
                        prefix@.segments,
                    )[k],
                forall|k: int|
                    prefix.segments@.len() <= k < segs@.len() ==> #[trigger] segs@[k]@
                        == suffix@.segments[k - prefix.segments@.len()],
            decreases suffix.segments.len() - j,
        {
            segs.push(suffix.segments[j].clone());
            j += 1;
        }
        let r = RefPath { rooted: prefix.rooted, segments: segs };
        proof {
            assert(r@.segments =~= segments_of(prefix@.segments) + suffix@.segments);
        }
        r
    }
}

impl CratePath for RefPath {
    open spec fn root_spec(&self) -> bool {
        self@.rooted
    }

    open spec fn parts_spec(&self) -> Seq<SegmentModel> {
        self@.segments
    }

    fn leading_colon(&self) -> (r: bool) {
        self.rooted
    }

    fn part_at(&self, i: usize) -> (r: Option<Segment>) {
        if i < self.segments.len() {
            Some(self.segments[i].clone())
        } else {
            None
        }
    }
}

impl CloneRemainder for RefPath {
    type Rest = RefPath;

    open spec fn has_rest(&self, n: int) -> bool {
        0 <= n <= self@.segments.len()
    }

    open spec fn rest_spec(&self, n: int) -> RefPathModel {
        RefPathModel { rooted: false, segments: self@.segments.skip(n) }
    }

    /// The unmatched tail of the path, as a relative path of its own.
    fn clone_remainder(&self, n: usize) -> (r: Option<RefPath>) {
        if n <= self.segments.len() {
            let mut tail: Vec<Segment> = Vec::new();
            let mut j: usize = n;
            while j < self.segments.len()
                invariant
                    n <= j <= self.segments.len(),
                    tail@.len() == j - n,
                    forall|k: int|
                        0 <= k < tail@.len() ==> #[trigger] tail@[k] == self.segments@[k + n],
                decreases self.segments.len() - j,
            {
                tail.push(self.segments[j].clone());
                j += 1;
            }
            let r = RefPath { rooted: false, segments: tail };
            proof {
                assert(r@.segments =~= self@.segments.skip(n as int));
            }
            Some(r)
        } else {
            None
        }
    }
}

} // verus!
