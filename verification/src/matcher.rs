use vstd::prelude::*;
use crate::segment::{CratePath, Segment, SegmentModel};
use crate::simple_path::SimplePath;

verus! {

/// The three possible verdicts when a target is offered to the matcher.
pub enum MatchOutcome {
    /// A target part that had to be compared carries extraneous structure
    /// and yields no comparison identifier.
    Invalid,
    /// Root markers disagree, an identifier differs, or the target has
    /// fewer parts than the query.  Prefix matching is all-or-nothing for
    /// the full query length.
    NoMatch,
    /// Every query identifier matched, in order; the target's parts from
    /// the query's length onward are the remainder.
    Matched,
}

/// Lock-step walk of query identifiers `q` against target parts `t`.
pub open spec fn walk(q: Seq<Seq<char>>, t: Seq<SegmentModel>) -> MatchOutcome
    decreases q.len(),
{
    if q.len() == 0 {
        MatchOutcome::Matched
    } else if t.len() == 0 {
        MatchOutcome::NoMatch
    } else if t[0].has_args {
        MatchOutcome::Invalid
    } else if q[0] != t[0].ident {
        MatchOutcome::NoMatch
    } else {
        walk(q.skip(1), t.skip(1))
    }
}

/// What each verdict of the walk means.  A walk matches exactly when the
/// target has at least as many parts as the query and agrees with it —
/// with clean parts — on every query position; and it reports invalid
/// structure only when a part it had to compare carries such structure.
pub proof fn lemma_walk_cases(q: Seq<Seq<char>>, t: Seq<SegmentModel>)
    ensures
        walk(q, t) is Matched <==> (q.len() <= t.len() && forall|i: int|
            0 <= i < q.len() ==> !(#[trigger] t[i]).has_args && t[i].ident == q[i]),
        walk(q, t) is Invalid ==> exists|i: int|
            0 <= i < q.len() && i < t.len() && (#[trigger] t[i]).has_args,
    decreases q.len(),
{
    if q.len() == 0 {
    } else if t.len() == 0 {
    } else if t[0].has_args {
        assert(0 < q.len() && 0 < t.len() && t[0].has_args);
    } else if q[0] != t[0].ident {
    } else {
        lemma_walk_cases(q.skip(1), t.skip(1));
        if walk(q, t) is Matched {
            assert forall|i: int| 0 <= i < q.len() implies !(#[trigger] t[i]).has_args
                && t[i].ident == q[i] by {
                if i > 0 {
                    assert(t.skip(1)[i - 1] == t[i]);
                    assert(q.skip(1)[i - 1] == q[i]);
                }
            }
        }
        if q.len() <= t.len() && forall|i: int|
            0 <= i < q.len() ==> !(#[trigger] t[i]).has_args && t[i].ident == q[i] {
            assert forall|i: int|
                0 <= i < q.skip(1).len() implies !(#[trigger] t.skip(1)[i]).has_args
                && t.skip(1)[i].ident == q.skip(1)[i] by {
                assert(t[i + 1] == t.skip(1)[i]);
                assert(q[i + 1] == q.skip(1)[i]);
            }
            assert(walk(q.skip(1), t.skip(1)) is Matched);
        }
        if walk(q, t) is Invalid {
            let i0 = choose|i: int|
                0 <= i < q.skip(1).len() && i < t.skip(1).len() && (#[trigger] t.skip(1)[i]).has_args;
            assert(t[i0 + 1] == t.skip(1)[i0]);
            assert(0 <= i0 + 1 < q.len() && i0 + 1 < t.len() && t[i0 + 1].has_args);
        }
    }
}

/// The matcher's verdict for a query against a target: root markers must
/// agree before any part is compared.
pub open spec fn outcome(
    qroot: bool,
    q: Seq<Seq<char>>,
    troot: bool,
    t: Seq<SegmentModel>,
) -> MatchOutcome {
    if qroot != troot {
        MatchOutcome::NoMatch
    } else {
        walk(q, t)
    }
}

/// Root-marker sensitivity: when query and target disagree on the root
/// marker, the verdict is `NoMatch`, regardless of segment content — an
/// absolute query never matches a relative path and vice versa.
pub proof fn lemma_root_marker_sensitivity(
    qroot: bool,
    q: Seq<Seq<char>>,
    troot: bool,
    t: Seq<SegmentModel>,
)
    requires
        qroot != troot,
    ensures
        outcome(qroot, q, troot, t) is NoMatch,
{
}

/// Prefix totality: a target whose first parts equal the query's
/// identifiers — as plain, structure-free parts — matches, and the
/// remainder is the target's parts from the query's length onward.
pub proof fn lemma_prefix_totality(
    qroot: bool,
    q: Seq<Seq<char>>,
    troot: bool,
    t: Seq<SegmentModel>,
)
    requires
        qroot == troot,
        q.len() <= t.len(),
        forall|i: int| 0 <= i < q.len() ==> !(#[trigger] t[i]).has_args && t[i].ident == q[i],
    ensures
        outcome(qroot, q, troot, t) is Matched,
{
    lemma_walk_cases(q, t);
}

/// Non-prefix rejection: when the target has fewer parts than the query,
/// or any compared identifier differs, the verdict is `NoMatch`.
pub proof fn lemma_non_prefix_rejection(
    qroot: bool,
    q: Seq<Seq<char>>,
    troot: bool,
    t: Seq<SegmentModel>,
)
    requires
        qroot == troot,
        forall|i: int| 0 <= i < q.len() && i < t.len() ==> !(#[trigger] t[i]).has_args,
        t.len() < q.len() || exists|i: int|
            0 <= i < q.len() && i < t.len() && (#[trigger] t[i]).ident != q[i],
    ensures
        outcome(qroot, q, troot, t) is NoMatch,
{
    lemma_walk_cases(q, t);
    if t.len() >= q.len() {
        let i0 = choose|i: int|
            0 <= i < q.len() && i < t.len() && (#[trigger] t[i]).ident != q[i];
        assert(!(walk(q, t) is Matched));
    }
    if walk(q, t) is Invalid {
        let i1 = choose|i: int| 0 <= i < q.len() && i < t.len() && (#[trigger] t[i]).has_args;
        assert(false);
    }
}

/// A zero-length query always matches — root markers must still agree,
/// since they are compared before any part — and the entire target is the
/// remainder.
pub proof fn lemma_zero_length_query(
    qroot: bool,
    q: Seq<Seq<char>>,
    troot: bool,
    t: Seq<SegmentModel>,
)
    requires
        qroot == troot,
        q.len() == 0,
    ensures
        outcome(qroot, q, troot, t) is Matched,
{
}

/// Running state of one lock-step comparison walk.
#[derive(Debug)]
pub struct MatchStatus {
    /// An identifier differed, or the target ran out of parts first.
    pub mismatch: bool,
    /// A compared target part carried extraneous structure.
    pub invalid: bool,
    /// The whole query was consumed.
    pub match_complete: bool,
    /// How many part pairs matched so far.
    pub consumed: usize,
}

impl MatchStatus {
    /// Whether the walk has come to rest.
    pub open spec fn spec_done(&self) -> bool {
        self.mismatch || self.invalid || self.match_complete
    }

    /// The verdict a finished walk stands for.
    pub open spec fn verdict(&self) -> MatchOutcome {
        if self.invalid {
            MatchOutcome::Invalid
        } else if self.mismatch {
            MatchOutcome::NoMatch
        } else {
            MatchOutcome::Matched
        }
    }

    /// One step of the walk, mathematically.
    pub open spec fn step(
        s: MatchStatus,
        q: Option<Seq<char>>,
        t: Option<SegmentModel>,
    ) -> MatchStatus {
        if s.spec_done() {
            s
        } else {
            match (q, t) {
                (Option::Some(qi), Option::Some(ti)) => if ti.has_args {
                    MatchStatus { invalid: true, ..s }
                } else if qi == ti.ident {
                    MatchStatus { consumed: (s.consumed + 1) as usize, ..s }
                } else {
                    MatchStatus { mismatch: true, ..s }
                },
                (Option::None, _) => MatchStatus { match_complete: true, ..s },
                (Option::Some(_), Option::None) => MatchStatus { mismatch: true, ..s },
            }
        }
    }

    /// The state before any parts have been compared.
    pub fn begin() -> (r: MatchStatus)
        ensures
            r == (MatchStatus { mismatch: false, invalid: false, match_complete: false, consumed: 0 }),
    {
        MatchStatus { mismatch: false, invalid: false, match_complete: false, consumed: 0 }
    }

    /// Whether the walk has come to rest.
    pub fn is_done(&self) -> (r: bool)
        ensures
            r == self.spec_done(),
    {
        self.mismatch || self.invalid || self.match_complete
    }

    /// Whether the walk finished with a complete match.
    pub fn is_match(&self) -> (r: bool)
        ensures
            r == (self.verdict() is Matched && self.spec_done()),
    {
        self.match_complete && !self.mismatch && !self.invalid
    }

    /// Feeds the next query identifier and target part into the walk.
    ///
    /// `None` on the query side means the query is exhausted (the match is
    /// complete); `None` on the target side means the target ran out first.
    pub fn update(&mut self, q: Option<&String>, t: Option<&Segment>)
        requires
            !old(self).spec_done() && q is Some && t is Some ==> old(self).consumed < usize::MAX,
        ensures
            *final(self) == Self::step(
                *old(self),
                match q {
                    Option::Some(qi) => Option::Some(qi@),
                    Option::None => Option::None,
                },
                match t {
                    Option::Some(ti) => Option::Some(ti@),
                    Option::None => Option::None,
                },
            ),
    {
        if self.mismatch || self.invalid || self.match_complete {
            return;
        }
        match (q, t) {
            (Some(qi), Some(ti)) => {
                if ti.has_args {
                    self.invalid = true;
                } else if *qi == ti.ident {
                    self.consumed = self.consumed + 1;
                } else {
                    self.mismatch = true;
                }
            },
            (None, _) => {
                self.match_complete = true;
            },
            (Some(_), None) => {
                self.mismatch = true;
            },
        }
    }
}

/// Compares a query against one target, walking their parts in lock-step.
pub struct PrefixMatcher<'a, P: CratePath> {
    pub query: &'a SimplePath,
    pub target: &'a P,
}

impl<'a, P: CratePath> PrefixMatcher<'a, P> {
    /// Pairs a query with a target for one match attempt.
    pub fn new(query: &'a SimplePath, target: &'a P) -> (r: Self)
        ensures
            r.query == query,
            r.target == target,
    {
        PrefixMatcher { query, target }
    }

    /// Runs the walk to rest and reports how it ended.  On a complete
    /// match, the number of consumed parts is the query's length, and the
    /// target's parts from that position onward are the remainder.
    #[verifier::loop_isolation(false)]
    pub fn get_suffix(&self) -> (r: MatchStatus)
        ensures
            r.spec_done(),
            r.verdict() == outcome(
                self.query@.rooted,
                self.query@.segments,
                self.target.root_spec(),
                self.target.parts_spec(),
            ),
            r.verdict() is Matched ==> r.consumed == self.query@.segments.len(),
    {
        let ghost qm = self.query@.segments;
        let ghost tm = self.target.parts_spec();
        if self.query.leading_colon() != self.target.leading_colon() {
            let mut status = MatchStatus::begin();
            status.mismatch = true;
            return status;
        }
        let mut status = MatchStatus::begin();
        let qlen = self.query.len();
        let mut i: usize = 0;
        proof {
            assert(qm.skip(0) =~= qm);
            assert(tm.skip(0) =~= tm);
        }
        while !status.is_done()
            invariant
                i <= qlen + 1,
                !status.spec_done() ==> {
                    &&& i <= qlen
                    &&& i <= tm.len()
                    &&& status.consumed == i
                    &&& walk(qm, tm) == walk(qm.skip(i as int), tm.skip(i as int))
                },
                status.spec_done() ==> {
                    &&& status.verdict() == walk(qm, tm)
                    &&& (status.verdict() is Matched ==> status.consumed == qm.len())
                },
            decreases qlen + 1 - i, (if status.spec_done() { 0int } else { 1int }),
        {
            let q_next = self.query.segment_at(i);
            let t_next = self.target.part_at(i);
            proof {
                if i < qm.len() {
                    assert(qm.skip(i as int)[0] == qm[i as int]);
                    assert(qm.skip(i as int).skip(1) =~= qm.skip(i + 1));
                }
                if i < tm.len() {
                    assert(tm.skip(i as int)[0] == tm[i as int]);
                    assert(tm.skip(i as int).skip(1) =~= tm.skip(i + 1));
                }
            }
            status.update(q_next, t_next.as_ref());
            if !status.is_done() {
                i = i + 1;
            }
        }
        status
    }
}

} // verus!
