use vstd::prelude::*;

verus! {

broadcast use vstd::std_specs::vec::group_vec_axioms;

/// A rose tree: a branch holds any number of subtrees, a leaf holds a value.
#[derive(Debug, PartialEq, Eq)]
pub enum Tree<T> {
    Branch(Vec<Tree<T>>),
    Leaf(T),
}

/// The mathematical value of a [`Tree`]: the same shape, with sequences for children.
pub enum TreeModel<T> {
    Branch(Seq<TreeModel<T>>),
    Leaf(T),
}

impl<T> Tree<T> {
    /// The tree as a mathematical value.
    pub open spec fn model(self) -> TreeModel<T>
        decreases self,
    {
        match self {
            Tree::Branch(children) => TreeModel::Branch(
                Seq::new(
                    children@.len(),
                    |i: int|
                        if 0 <= i < children@.len() {
                            children@[i].model()
                        } else {
                            TreeModel::Leaf(arbitrary())
                        },
                ),
            ),
            Tree::Leaf(v) => TreeModel::Leaf(v),
        }
    }
}

impl<T> View for Tree<T> {
    type V = TreeModel<T>;

    open spec fn view(&self) -> TreeModel<T> {
        self.model()
    }
}

impl<T> TreeModel<T> {
    /// Number of leaves.
    pub open spec fn size(self) -> nat
        decreases self,
    {
        match self {
            TreeModel::Branch(children) => Self::forest_size(children),
            TreeModel::Leaf(_) => 1,
        }
    }

    /// Number of leaves of all the trees in `forest`.
    pub open spec fn forest_size(forest: Seq<TreeModel<T>>) -> nat
        decreases forest,
    {
        if forest.len() == 0 {
            0
        } else {
            Self::forest_size(forest.drop_last()) + forest.last().size()
        }
    }

    /// The mirror image: the children of every branch in reverse order.
    pub open spec fn flip(self) -> TreeModel<T>
        decreases self,
    {
        match self {
            TreeModel::Branch(children) => TreeModel::Branch(
                Seq::new(
                    children.len(),
                    |i: int|
                        if 0 <= i < children.len() {
                            children[children.len() - 1 - i].flip()
                        } else {
                            TreeModel::Leaf(arbitrary())
                        },
                ),
            ),
            TreeModel::Leaf(v) => TreeModel::Leaf(v),
        }
    }
}

impl<T: Clone> TreeModel<T> {
    /// `self` has the shape of `original`, and each of its leaves is a clone of the
    /// leaf of `original` at the same place.
    pub open spec fn is_clone_of(self, original: TreeModel<T>) -> bool
        decreases self,
    {
        match self {
            TreeModel::Branch(a) => match original {
                TreeModel::Branch(b) => a.len() == b.len() && forall|i: int|
                    0 <= i < a.len() ==> (#[trigger] a[i]).is_clone_of(b[i]),
                TreeModel::Leaf(_) => false,
            },
            TreeModel::Leaf(x) => match original {
                TreeModel::Branch(_) => false,
                TreeModel::Leaf(y) => cloned::<T>(y, x),
            },
        }
    }
}

impl<T> TreeModel<T> {
    /// `self` and `other` have the same branches and leaves in the same places,
    /// whatever the leaves hold.
    pub open spec fn same_shape(self, other: TreeModel<T>) -> bool
        decreases self,
    {
        match self {
            TreeModel::Branch(a) => match other {
                TreeModel::Branch(b) => a.len() == b.len() && forall|i: int|
                    0 <= i < a.len() ==> (#[trigger] a[i]).same_shape(b[i]),
                TreeModel::Leaf(_) => false,
            },
            TreeModel::Leaf(_) => other is Leaf,
        }
    }
}

/// `T::clone` gives back a value equal to its argument (true of the integer types).
pub open spec fn clone_is_exact<T: Clone>() -> bool {
    forall|x: T, y: T| #[trigger] cloned::<T>(x, y) ==> x == y
}

/// Cloning an `isize` gives the same value, so the trees of the library's
/// tests flip back exactly.
pub proof fn lemma_isize_clone_is_exact()
    ensures
        clone_is_exact::<isize>(),
{
}

proof fn lemma_forest_size_first<T>(s: Seq<TreeModel<T>>)
    requires
        s.len() > 0,
    ensures
        TreeModel::forest_size(s) == s[0].size() + TreeModel::forest_size(s.skip(1)),
    decreases s.len(),
{
    if s.len() == 1 {
        assert(s.drop_last() =~= Seq::<TreeModel<T>>::empty());
        assert(s.skip(1) =~= Seq::<TreeModel<T>>::empty());
    } else {
        lemma_forest_size_first(s.drop_last());
        assert(s.skip(1).drop_last() =~= s.drop_last().skip(1));
        assert(s.drop_last()[0] == s[0]);
        assert(s.skip(1).last() == s.last());
    }
}

proof fn lemma_forest_size_prefix<T>(s: Seq<TreeModel<T>>, k: int)
    requires
        0 <= k <= s.len(),
    ensures
        TreeModel::forest_size(s.take(k)) <= TreeModel::forest_size(s),
    decreases s.len(),
{
    if k == s.len() {
        assert(s.take(k) =~= s);
    } else {
        assert(s.take(k) =~= s.drop_last().take(k));
        lemma_forest_size_prefix(s.drop_last(), k);
    }
}

proof fn lemma_forest_size_reversed<T>(a: Seq<TreeModel<T>>, b: Seq<TreeModel<T>>)
    requires
        a.len() == b.len(),
        forall|i: int| 0 <= i < a.len() ==> (#[trigger] a[i]).size() == b[a.len() - 1 - i].size(),
    ensures
        TreeModel::forest_size(a) == TreeModel::forest_size(b),
    decreases a.len(),
{
    if a.len() > 0 {
        let n = a.len();
        lemma_forest_size_first(b);
        let a2 = a.drop_last();
        let b2 = b.skip(1);
        assert forall|i: int| 0 <= i < a2.len() implies (#[trigger] a2[i]).size() == b2[a2.len() - 1 - i].size() by {
            assert(a2[i] == a[i]);
            assert(b2[a2.len() - 1 - i] == b[n - 1 - i]);
        }
        lemma_forest_size_reversed(a2, b2);
        assert(a[n - 1].size() == b[0].size());
    }
}

/// Flipping a branch reverses the order of its children and flips each of
/// them: the child at place `i` of the result is the flip of the child at
/// place `n - 1 - i`. A leaf is its own flip.
pub proof fn law_flip_reverses_children<T>(cs: Seq<TreeModel<T>>, v: T)
    ensures
        TreeModel::Branch(cs).flip() == TreeModel::Branch(cs.reverse().map_values(|c: TreeModel<T>| c.flip())),
        TreeModel::Leaf(v).flip() == TreeModel::<T>::Leaf(v),
{
    let t = TreeModel::Branch(cs);
    match t.flip() {
        TreeModel::Branch(fs) => {
            assert(fs =~= cs.reverse().map_values(|c: TreeModel<T>| c.flip()));
        },
        TreeModel::Leaf(_) => {},
    }
}

/// Flipping a tree twice gives back the tree.
pub proof fn law_flip_involutive<T>(t: TreeModel<T>)
    ensures
        t.flip().flip() == t,
    decreases t,
{
    match t {
        TreeModel::Branch(cs) => {
            let f = t.flip();
            let n = cs.len();
            assert forall|i: int| 0 <= i < n implies #[trigger] cs[i].flip().flip() == cs[i] by {
                law_flip_involutive(cs[i]);
            }
            match f {
                TreeModel::Branch(fs) => {
                    assert forall|i: int| 0 <= i < n implies fs[n - 1 - i].flip() == cs[i] by {
                        assert(fs[n - 1 - i] == cs[i].flip());
                    }
                    match f.flip() {
                        TreeModel::Branch(gs) => {
                            assert(gs =~= cs);
                        },
                        TreeModel::Leaf(_) => {},
                    }
                },
                TreeModel::Leaf(_) => {},
            }
        },
        TreeModel::Leaf(_) => {},
    }
}

/// Flipping a tree keeps its number of leaves.
pub proof fn law_flip_preserves_size<T>(t: TreeModel<T>)
    ensures
        t.flip().size() == t.size(),
    decreases t,
{
    match t {
        TreeModel::Branch(cs) => {
            let n = cs.len();
            match t.flip() {
                TreeModel::Branch(fs) => {
                    assert forall|i: int| 0 <= i < n implies (#[trigger] fs[i]).size() == cs[n - 1 - i].size() by {
                        law_flip_preserves_size(cs[n - 1 - i]);
                    }
                    lemma_forest_size_reversed(fs, cs);
                },
                TreeModel::Leaf(_) => {},
            }
        },
        TreeModel::Leaf(_) => {},
    }
}

proof fn lemma_forest_size_pointwise<T>(a: Seq<TreeModel<T>>, b: Seq<TreeModel<T>>)
    requires
        a.len() == b.len(),
        forall|i: int| 0 <= i < a.len() ==> (#[trigger] a[i]).size() == b[i].size(),
    ensures
        TreeModel::forest_size(a) == TreeModel::forest_size(b),
    decreases a.len(),
{
    if a.len() > 0 {
        let a2 = a.drop_last();
        let b2 = b.drop_last();
        assert forall|i: int| 0 <= i < a2.len() implies (#[trigger] a2[i]).size() == b2[i].size() by {
            assert(a2[i] == a[i] && b2[i] == b[i]);
        }
        lemma_forest_size_pointwise(a2, b2);
    }
}

/// Trees of the same shape have the same number of leaves.
pub proof fn law_same_shape_same_size<T>(a: TreeModel<T>, b: TreeModel<T>)
    requires
        a.same_shape(b),
    ensures
        a.size() == b.size(),
    decreases a,
{
    match a {
        TreeModel::Branch(xs) => match b {
            TreeModel::Branch(ys) => {
                assert forall|i: int| 0 <= i < xs.len() implies (#[trigger] xs[i]).size() == ys[i].size() by {
                    law_same_shape_same_size(xs[i], ys[i]);
                }
                lemma_forest_size_pointwise(xs, ys);
            },
            TreeModel::Leaf(_) => {},
        },
        TreeModel::Leaf(_) => {},
    }
}

/// A clone of a tree has the tree's shape.
pub proof fn lemma_clone_same_shape<T: Clone>(a: TreeModel<T>, b: TreeModel<T>)
    requires
        a.is_clone_of(b),
    ensures
        a.same_shape(b),
    decreases a,
{
    match a {
        TreeModel::Branch(xs) => match b {
            TreeModel::Branch(ys) => {
                assert forall|i: int| 0 <= i < xs.len() implies (#[trigger] xs[i]).same_shape(ys[i]) by {
                    lemma_clone_same_shape(xs[i], ys[i]);
                }
            },
            TreeModel::Leaf(_) => {},
        },
        TreeModel::Leaf(_) => {},
    }
}

/// The leaves of a forest add up: those of `a` followed by `b` are those of
/// `a` and those of `b`; one tree has its own leaves, no tree has none.
pub proof fn law_forest_size_adds<T>(a: Seq<TreeModel<T>>, b: Seq<TreeModel<T>>, t: TreeModel<T>)
    ensures
        TreeModel::forest_size(a + b) == TreeModel::forest_size(a) + TreeModel::forest_size(b),
        TreeModel::forest_size(seq![t]) == t.size(),
        TreeModel::forest_size(Seq::<TreeModel<T>>::empty()) == 0,
    decreases b.len(),
{
    if b.len() == 0 {
        assert(a + b =~= a);
    } else {
        law_forest_size_adds(a, b.drop_last(), t);
        assert((a + b).drop_last() =~= a + b.drop_last());
        assert((a + b).last() == b.last());
    }
    let one = seq![t];
    assert(one.drop_last() =~= Seq::<TreeModel<T>>::empty());
    assert(one.last() == t);
    assert(TreeModel::forest_size(one) == TreeModel::forest_size(one.drop_last()) + one.last().size());
}

/// Flipping an executable tree keeps its number of leaves, whatever `T::clone`
/// does: `r` stands for `t.flip()`, as the `ensures` of [`Tree::flip`]
/// describes it.
pub proof fn law_flip_keeps_size<T: Clone>(t: Tree<T>, r: Tree<T>)
    requires
        r@.is_clone_of(t@.flip()),
    ensures
        r@.size() == t@.size(),
{
    lemma_clone_same_shape(r@, t@.flip());
    law_same_shape_same_size(r@, t@.flip());
    law_flip_preserves_size(t@);
}

/// Where `T::clone` is exact, a clone of a tree is the tree itself.
pub proof fn lemma_exact_clone<T: Clone>(a: TreeModel<T>, b: TreeModel<T>)
    requires
        clone_is_exact::<T>(),
        a.is_clone_of(b),
    ensures
        a == b,
    decreases a,
{
    match a {
        TreeModel::Branch(xs) => match b {
            TreeModel::Branch(ys) => {
                assert forall|i: int| 0 <= i < xs.len() implies xs[i] == ys[i] by {
                    lemma_exact_clone(xs[i], ys[i]);
                }
                assert(xs =~= ys);
            },
            TreeModel::Leaf(_) => {},
        },
        TreeModel::Leaf(x) => match b {
            TreeModel::Branch(_) => {},
            TreeModel::Leaf(y) => {
                assert(cloned::<T>(y, x));
            },
        },
    }
}

/// Where `T::clone` is exact, flipping a tree and flipping the result gives back
/// the tree: `r1` stands for `t.flip()` and `r2` for `r1.flip()`, as the
/// `ensures` of [`Tree::flip`] describes them.
pub proof fn law_flip_twice_restores<T: Clone>(t: Tree<T>, r1: Tree<T>, r2: Tree<T>)
    requires
        clone_is_exact::<T>(),
        r1@.is_clone_of(t@.flip()),
        r2@.is_clone_of(r1@.flip()),
    ensures
        r2@ == t@,
{
    lemma_exact_clone(r1@, t@.flip());
    lemma_exact_clone(r2@, r1@.flip());
    law_flip_involutive(t@);
}

impl<T: Clone> Tree<T> {
    /// The mirror image of the tree: the children of every branch in reverse
    /// order, each leaf value cloned.
    pub fn flip(&self) -> (r: Self)
        ensures
            r@.is_clone_of(self@.flip()),
        decreases self,
    {
        match self {
            Tree::Branch(branch) => {
                let n = branch.len();
                let ghost cs = self@->Branch_0;
                assert(cs.len() == branch@.len());
                let ghost fs = self@.flip()->Branch_0;
                let mut out: Vec<Tree<T>> = Vec::new();
                let mut i: usize = n;
                while i > 0
                    invariant
                        n == branch@.len(),
                        *self == Tree::Branch(*branch),
                        i <= n,
                        cs.len() == n,
                        fs.len() == n,
                        forall|j: int| 0 <= j < n ==> #[trigger] cs[j] == branch@[j]@,
                        forall|j: int| 0 <= j < n ==> #[trigger] fs[j] == cs[n - 1 - j].flip(),
                        out@.len() == n - i,
                        forall|j: int| 0 <= j < out@.len() ==> (#[trigger] out@[j])@.is_clone_of(fs[j]),
                    decreases i,
                {
                    i -= 1;
                    proof {
                        assert(decreases_to!(*self => self->Branch_0));
                        assert(decreases_to!(*branch => branch[i as int]));
                    }
                    let child = branch[i].flip();
                    out.push(child);
                    proof {
                        assert(fs[n - 1 - i] == cs[i as int].flip());
                    }
                }
                let r = Tree::Branch(out);
                proof {
                    let rs = r@->Branch_0;
                    assert forall|j: int| 0 <= j < rs.len() implies (#[trigger] rs[j]).is_clone_of(fs[j]) by {
                        assert(rs[j] == out@[j]@);
                    }
                }
                r
            },
            Tree::Leaf(v) => Tree::Leaf(v.clone()),
        }
    }

    /// The number of leaves.
    pub fn size(&self) -> (n: usize)
        requires
            self@.size() <= usize::MAX,
        ensures
            n == self@.size(),
        decreases self,
    {
        match self {
            Tree::Branch(vec) => {
                let ghost cs = self@->Branch_0;
                assert(cs.len() == vec@.len());
                let len = vec.len();
                let mut total: usize = 0;
                let mut i: usize = 0;
                while i < len
                    invariant
                        len == vec@.len(),
                        *self == Tree::Branch(*vec),
                        i <= len,
                        cs.len() == len,
                        forall|j: int| 0 <= j < len ==> #[trigger] cs[j] == vec@[j]@,
                        TreeModel::forest_size(cs) <= usize::MAX,
                        total == TreeModel::forest_size(cs.take(i as int)),
                    decreases len - i,
                {
                    proof {
                        lemma_forest_size_prefix(cs, i + 1);
                        assert(cs.take(i + 1).drop_last() =~= cs.take(i as int));
                    }
                    proof {
                        assert(decreases_to!(*self => self->Branch_0));
                        assert(decreases_to!(*vec => vec[i as int]));
                    }
                    let s = vec[i].size();
                    total = total + s;
                    i += 1;
                }
                proof {
                    assert(cs.take(len as int) =~= cs);
                }
                total
            },
            Tree::Leaf(_) => 1,
        }
    }
}

} // verus!
