use vstd::prelude::*;
use crate::simple_path::SimplePath;

verus! {

/// One branch of an import declaration's tree of names.
///
/// Only `Simple` nodes are mid-path: every other variant is terminal and
/// carries no further nested segments below it.  A query therefore matches
/// only against the chain of `Simple` nodes at the top of a tree; the first
/// terminal node, with everything beneath it, belongs to the remainder.
#[derive(Debug)]
pub enum ImportTree {
    /// One segment that continues into a nested tree.
    Simple { name: String, next: Box<ImportTree> },
    /// Terminal segment with no alias.
    Leaf { name: String },
    /// Terminal segment exposed under a different local name.
    Renamed { name: String, alias: String },
    /// Terminal "import everything" marker.
    Wildcard,
    /// Terminal branching into sibling trees.
    Group { items: Vec<ImportTree> },
}

/// Mathematical shape of an [`ImportTree`]: the same variants over
/// sequences of characters and sequences of models.
#[verifier::ext_equal]
pub enum TreeModel {
    Simple { name: Seq<char>, next: Box<TreeModel> },
    Leaf { name: Seq<char> },
    Renamed { name: Seq<char>, alias: Seq<char> },
    Wildcard,
    Group { items: Seq<TreeModel> },
}

impl TreeModel {
    /// The idents along the chain of `Simple` nodes at the top of the tree.
    pub open spec fn chain(self) -> Seq<Seq<char>>
        decreases self,
    {
        match self {
            TreeModel::Simple { name, next } => seq![name] + next.chain(),
            _ => Seq::empty(),
        }
    }

    /// The subtree reached by descending `n` links of the `Simple` chain.
    ///
    /// Meaningful for `0 <= n <= self.chain().len()`; from a terminal node
    /// (or for non-positive `n`) it is the node itself.
    pub open spec fn subtree_at(self, n: int) -> TreeModel
        decreases self,
    {
        if n <= 0 {
            self
        } else {
            match self {
                TreeModel::Simple { next, .. } => next.subtree_at(n - 1),
                _ => self,
            }
        }
    }

    /// How the chain and the subtrees along it relate: within the chain,
    /// descending one more link steps into a `Simple` node's continuation;
    /// past the chain, the walk has come to rest at the terminal node.
    pub proof fn lemma_chain_subtree(self, k: int)
        requires
            0 <= k,
        ensures
            k < self.chain().len() ==> self.subtree_at(k) is Simple
                && self.subtree_at(k)->Simple_name == self.chain()[k]
                && self.subtree_at(k + 1) == *self.subtree_at(k)->Simple_next,
            k >= self.chain().len() ==> !(self.subtree_at(k) is Simple)
                && self.subtree_at(k) == self.subtree_at(self.chain().len() as int),
        decreases k,
    {
        match self {
            TreeModel::Simple { name, next } => {
                if k == 0 {
                    assert(self.chain()[0] == name);
                } else {
                    next.lemma_chain_subtree(k - 1);
                    if k < self.chain().len() {
                        assert(self.chain()[k] == next.chain()[k - 1]);
                    }
                }
            },
            _ => {},
        }
    }
}

impl ImportTree {
    /// The model of this tree.
    pub open spec fn model(self) -> TreeModel
        decreases self,
    {
        match self {
            ImportTree::Simple { name, next } => TreeModel::Simple {
                name: name@,
                next: Box::new(next.model()),
            },
            ImportTree::Leaf { name } => TreeModel::Leaf { name: name@ },
            ImportTree::Renamed { name, alias } => TreeModel::Renamed {
                name: name@,
                alias: alias@,
            },
            ImportTree::Wildcard => TreeModel::Wildcard,
            ImportTree::Group { items } => TreeModel::Group {
                items: Self::models_of(items@),
            },
        }
    }

    /// The models of a sequence of trees, element by element.
    pub open spec fn models_of(s: Seq<ImportTree>) -> Seq<TreeModel>
        decreases s,
    {
        if s.len() == 0 {
            Seq::empty()
        } else {
            Self::models_of(s.drop_last()).push(s.last().model())
        }
    }

    /// `models_of` maps the sequence element by element.
    pub proof fn lemma_models_of(s: Seq<ImportTree>)
        ensures
            Self::models_of(s).len() == s.len(),
            forall|i: int|
                0 <= i < s.len() ==> #[trigger] Self::models_of(s)[i] == s[i]@,
        decreases s.len(),
    {
        if s.len() > 0 {
            Self::lemma_models_of(s.drop_last());
        }
    }
}

impl View for ImportTree {
    type V = TreeModel;

    open spec fn view(&self) -> TreeModel {
        self.model()
    }
}

/// A restartable forward walk along the `Simple` chain of an import tree.
///
/// Each call of [`TreeIter::next`] yields the node the walk stands on and
/// advances into a `Simple` node's continuation; from any terminal node the
/// walk ends, since terminals carry no further matchable parts.
pub struct TreeIter<'a> {
    pub next_tree: Option<&'a ImportTree>,
}

impl<'a> TreeIter<'a> {
    /// A walk positioned at the root of `tree`.
    pub fn new(tree: &'a ImportTree) -> (r: Self)
        ensures
            r.next_tree == Some(tree),
    {
        TreeIter { next_tree: Some(tree) }
    }

    /// Yields the current node and advances along the chain.
    pub fn next(&mut self) -> (r: Option<&'a ImportTree>)
        ensures
            r == old(self).next_tree,
            old(self).next_tree is None ==> final(self).next_tree is None,
            old(self).next_tree matches Some(t) ==> {
                &&& t@ is Simple ==> (final(self).next_tree matches Some(n)
                    && n@ == *t@->Simple_next)
                &&& !(t@ is Simple) ==> final(self).next_tree is None
            },
    {
        let r = self.next_tree;
        if let Some(tree) = self.next_tree {
            self.next_tree = match tree {
                ImportTree::Simple { next, .. } => Some(&**next),
                _ => None,
            };
        }
        r
    }
}

impl ImportTree {
    /// The subtree reached by descending `n` links of the `Simple` chain,
    /// or `None` when the chain is shorter than `n`.
    pub fn descend(&self, n: usize) -> (r: Option<&ImportTree>)
        ensures
            match r {
                Some(t) => n <= self@.chain().len() && t@ == self@.subtree_at(n as int),
                None => n > self@.chain().len(),
            },
    {
        let mut iter = TreeIter::new(self);
        let mut k: usize = 0;
        while k < n
            invariant
                k <= n,
                k <= self@.chain().len() ==> (iter.next_tree matches Some(t)
                    && t@ == self@.subtree_at(k as int)),
                k > self@.chain().len() ==> iter.next_tree is None,
            decreases n - k,
        {
            proof {
                self@.lemma_chain_subtree(k as int);
            }
            iter.next();
            k += 1;
        }
        iter.next_tree
    }
}

/// A chain of `Simple` nodes, one per identifier of `prefix` in order,
/// ending in `rest`.
pub open spec fn attach(prefix: Seq<Seq<char>>, rest: TreeModel) -> TreeModel
    decreases prefix.len(),
{
    if prefix.len() == 0 {
        rest
    } else {
        TreeModel::Simple { name: prefix[0], next: Box::new(attach(prefix.skip(1), rest)) }
    }
}

/// The shape of an attached tree: its chain is the prefix followed by the
/// remainder's own chain, and descending the whole prefix finds the
/// remainder again, verbatim.
pub proof fn lemma_attach_chain(prefix: Seq<Seq<char>>, rest: TreeModel)
    ensures
        attach(prefix, rest).chain() == prefix + rest.chain(),
        attach(prefix, rest).subtree_at(prefix.len() as int) == rest,
    decreases prefix.len(),
{
    if prefix.len() == 0 {
        assert(prefix + rest.chain() =~= rest.chain());
    } else {
        lemma_attach_chain(prefix.skip(1), rest);
        assert(attach(prefix, rest).chain() =~= prefix + rest.chain());
    }
}

/// Rebuilding a tree from a prefix of its own chain and the subtree at
/// that depth gives the tree back unchanged.
pub proof fn lemma_attach_of_own_prefix(m: TreeModel, q: Seq<Seq<char>>)
    requires
        q.len() <= m.chain().len(),
        forall|i: int| 0 <= i < q.len() ==> q[i] == m.chain()[i],
    ensures
        attach(q, m.subtree_at(q.len() as int)) == m,
    decreases q.len(),
{
    if q.len() > 0 {
        match m {
            TreeModel::Simple { name, next } => {
                assert forall|i: int| 0 <= i < q.skip(1).len() implies #[trigger] q.skip(1)[i]
                    == next.chain()[i] by {
                    assert(q.skip(1)[i] == q[i + 1]);
                    assert(m.chain()[i + 1] == next.chain()[i]);
                }
                lemma_attach_of_own_prefix(*next, q.skip(1));
                assert(q[0] == m.chain()[0]);
                assert(m.chain()[0] == name);
            },
            _ => {
                assert(m.chain().len() == 0);
            },
        }
    }
}

/// Builds the tree [`attach`] describes: the replacement prefix as a chain
/// of `Simple` nodes, with the remainder subtree — branching and all —
/// reattached unchanged as its tail.
pub fn concat_prefix_path_to_tree(prefix: &SimplePath, rest: ImportTree) -> (r: ImportTree)
    ensures
        r@ == attach(prefix@.segments, rest@),
{
    let ghost rm = rest@;
    let mut tail = rest;
    let mut j: usize = prefix.segments.len();
    proof {
        assert(prefix@.segments.skip(j as int).len() == 0);
    }
    while j > 0
        invariant
            j <= prefix.segments.len(),
            tail@ == attach(prefix@.segments.skip(j as int), rm),
        decreases j,
    {
        j = j - 1;
        proof {
            assert(prefix@.segments.skip(j as int)[0] == prefix@.segments[j as int]);
            assert(prefix@.segments.skip(j as int).skip(1) =~= prefix@.segments.skip(j + 1));
        }
        tail = ImportTree::Simple {
            name: prefix.segments[j].clone(),
            next: Box::new(tail),
        };
    }
    proof {
        assert(prefix@.segments.skip(0) =~= prefix@.segments);
    }
    tail
}

impl Clone for ImportTree {
    /// A structural copy: the copy has the same model as the original.
    #[verifier::loop_isolation(false)]
    fn clone(&self) -> (r: Self)
        ensures
            r@ == self@,
        decreases self,
    {
        match self {
            ImportTree::Simple { name, next } => ImportTree::Simple {
                name: name.clone(),
                next: Box::new((**next).clone()),
            },
            ImportTree::Leaf { name } => ImportTree::Leaf { name: name.clone() },
            ImportTree::Renamed { name, alias } => ImportTree::Renamed {
                name: name.clone(),
                alias: alias.clone(),
            },
            ImportTree::Wildcard => ImportTree::Wildcard,
            ImportTree::Group { items } => {
                let mut copies: Vec<ImportTree> = Vec::new();
                let mut j: usize = 0;
                while j < items.len()
                    invariant
                        j <= items.len(),
                        copies@.len() == j,
                        forall|k: int|
                            0 <= k < j ==> #[trigger] copies@[k]@ == items@[k]@,
                    decreases items.len() - j,
                {
                    copies.push(items[j].clone());
                    j += 1;
                }
                proof {
                    Self::lemma_models_of(items@);
                    Self::lemma_models_of(copies@);
                    assert(Self::models_of(copies@) =~= Self::models_of(items@));
                }
                ImportTree::Group { items: copies }
            },
        }
    }
}

} // verus!
