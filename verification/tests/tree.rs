use quickcheck_arbitrary_derive::tree::Tree;

fn leaf(v: isize) -> Tree<isize> {
    Tree::Leaf(v)
}

fn branch(children: Vec<Tree<isize>>) -> Tree<isize> {
    Tree::Branch(children)
}

fn sample() -> Tree<isize> {
    branch(vec![
        leaf(1),
        branch(vec![leaf(2), leaf(3), branch(vec![])]),
        leaf(4),
    ])
}

/// Builds a tree of any depth out of a list: the first value decides how many
/// children a branch has (none makes a leaf), the rest is shared out among them.
fn tree_of(values: &[isize]) -> Tree<isize> {
    match values.split_first() {
        None => branch(vec![]),
        Some((&v, rest)) => {
            let children = (v.rem_euclid(4)) as usize;
            if children == 0 || rest.is_empty() {
                leaf(v)
            } else {
                let chunk = (rest.len() + children - 1) / children;
                branch(rest.chunks(chunk).map(tree_of).collect())
            }
        }
    }
}

fn depth(t: &Tree<isize>) -> usize {
    match t {
        Tree::Leaf(_) => 0,
        Tree::Branch(cs) => 1 + cs.iter().map(depth).max().unwrap_or(0),
    }
}

#[test]
fn recursive() {
    fn prop(values: Vec<isize>) -> bool {
        let tree = tree_of(&values);
        tree == tree.flip().flip() && tree.flip().size() == tree.size()
    }
    quickcheck::QuickCheck::new().quickcheck(prop as fn(Vec<isize>) -> bool);
    let deep: Vec<isize> = (0..200).map(|i| if i % 5 == 0 { 1 } else { i }).collect();
    let tree = tree_of(&deep);
    assert!(depth(&tree) >= 3);
    assert_eq!(tree, tree.flip().flip());
}

#[test]
fn flip_reverses_every_branch() {
    let flipped = sample().flip();
    let expected = branch(vec![
        leaf(4),
        branch(vec![branch(vec![]), leaf(3), leaf(2)]),
        leaf(1),
    ]);
    assert_eq!(flipped, expected);
}

#[test]
fn flip_twice_restores() {
    let tree = sample();
    assert_eq!(tree.flip().flip(), tree);
}

#[test]
fn flip_of_leaf_is_leaf() {
    assert_eq!(leaf(7).flip(), leaf(7));
}

#[test]
fn size_counts_leaves() {
    assert_eq!(sample().size(), 4);
    assert_eq!(leaf(0).size(), 1);
    assert_eq!(branch(vec![]).size(), 0);
}

#[test]
fn flip_keeps_size() {
    let tree = sample();
    assert_eq!(tree.flip().size(), tree.size());
}

#[test]
fn size_adds_over_children() {
    let a = vec![leaf(1), branch(vec![leaf(2), leaf(3)])];
    let b = vec![leaf(4)];
    let joined: Vec<Tree<isize>> = vec![leaf(1), branch(vec![leaf(2), leaf(3)]), leaf(4)];
    assert_eq!(branch(joined).size(), branch(a).size() + branch(b).size());
    assert_eq!(branch(vec![sample()]).size(), sample().size());
}

#[test]
fn same_shape_same_size() {
    let other = branch(vec![
        leaf(-1),
        branch(vec![leaf(-2), leaf(-3), branch(vec![])]),
        leaf(-4),
    ]);
    assert_eq!(other.size(), sample().size());
}
