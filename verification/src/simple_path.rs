use vstd::prelude::*;
use crate::error::PathError;
use crate::ref_path::RefPath;
use crate::segment::{all_clean, idents_of, CratePath, PathPart, Segment, SegmentModel};

verus! {

/// A validated query or replacement path: bare identifiers plus a
/// root-marker flag, with no attached structure anywhere.  Supplied once at
/// engine construction and read-only afterwards.
#[derive(Debug)]
pub struct SimplePath {
    pub rooted: bool,
    pub segments: Vec<String>,
}

/// Mathematical shape of a [`SimplePath`].
#[verifier::ext_equal]
pub struct SimplePathModel {
    pub rooted: bool,
    pub segments: Seq<Seq<char>>,
}

impl View for SimplePath {
    type V = SimplePathModel;

    open spec fn view(&self) -> SimplePathModel {
        SimplePathModel {
            rooted: self.rooted,
            segments: Seq::new(self.segments@.len(), |i: int| self.segments@[i]@),
        }
    }
}

impl SimplePath {
    /// Validates `path` and strips it down to its identifiers.  Fails with
    /// [`PathError::InvalidPathShape`] when any segment carries extraneous
    /// structure.
    pub fn new(path: RefPath) -> (r: Result<SimplePath, PathError>)
        ensures
            match r {
                Ok(p) => all_clean(path@.segments) && p@ == (SimplePathModel {
                    rooted: path@.rooted,
                    segments: idents_of(path@.segments),
                }),
                Err(e) => !all_clean(path@.segments) && e == PathError::InvalidPathShape,
            },
    {
        let mut ids: Vec<String> = Vec::new();
        let mut i: usize = 0;
        while i < path.segments.len()
            invariant
                i <= path.segments.len(),
                ids@.len() == i,
                forall|k: int| 0 <= k < i ==> !(#[trigger] path@.segments[k]).has_args,
                forall|k: int| 0 <= k < i ==> #[trigger] ids@[k]@ == path@.segments[k].ident,
            decreases path.segments.len() - i,
        {
            if path.segments[i].has_args {
                proof {
                    assert(path@.segments[i as int].has_args);
                }
                return Err(PathError::InvalidPathShape);
            }
            ids.push(path.segments[i].ident.clone());
            i += 1;
        }
        let r = SimplePath { rooted: path.rooted, segments: ids };
        proof {
            assert(r@.segments =~= idents_of(path@.segments));
        }
        Ok(r)
    }

    /// The number of identifiers in the path.
    pub fn len(&self) -> (n: usize)
        ensures
            n == self@.segments.len(),
    {
        self.segments.len()
    }

    /// The identifier at position `i`, or `None` past the end.
    pub fn segment_at(&self, i: usize) -> (r: Option<&String>)
        ensures
            match r {
                Some(s) => i < self@.segments.len() && s@ == self@.segments[i as int],
                None => i >= self@.segments.len(),
            },
    {
        if i < self.segments.len() {
            Some(&self.segments[i])
        } else {
            None
        }
    }
}

impl CratePath for SimplePath {
    open spec fn root_spec(&self) -> bool {
        self@.rooted
    }

    open spec fn parts_spec(&self) -> Seq<SegmentModel> {
        crate::segment::segments_of(self@.segments)
    }

    fn leading_colon(&self) -> (r: bool) {
        self.rooted
    }

    fn part_at(&self, i: usize) -> (r: Option<Segment>) {
        if i < self.segments.len() {
            Some(Segment::from_ident(self.segments[i].clone()))
        } else {
            None
        }
    }
}

} // verus!
