use vstd::prelude::*;

verus! {

/// A node within the type tree. The tree is stored as a list in pre-order, with
/// each node's depth in `level`.
#[derive(Debug, Clone)]
pub struct TypeTreeNode {
    pub type_string: String,
    pub name: String,
    pub size: i32,
    pub index: u32,
    pub type_flags: u32,
    pub version: u32,
    pub meta_flags: u32,
    pub level: u8,
}

/// A type tree node as a value: its strings as characters.
pub struct NodeView {
    pub type_string: Seq<char>,
    pub name: Seq<char>,
    pub size: i32,
    pub index: u32,
    pub type_flags: u32,
    pub version: u32,
    pub meta_flags: u32,
    pub level: u8,
}

impl View for TypeTreeNode {
    type V = NodeView;

    open spec fn view(&self) -> NodeView {
        NodeView {
            type_string: self.type_string@,
            name: self.name@,
            size: self.size,
            index: self.index,
            type_flags: self.type_flags,
            version: self.version,
            meta_flags: self.meta_flags,
            level: self.level,
        }
    }
}

/// Whether a node wants the reader aligned to 4 bytes after its value.
pub open spec fn aligns_after(node: TypeTreeNode) -> bool {
    node.meta_flags & 0x4000 != 0
}

/// The first index from `i` on whose node is at `level` or shallower (`tree.len()` if
/// there is none).
pub open spec fn subtree_end(tree: Seq<TypeTreeNode>, level: u8, i: int) -> int
    decreases tree.len() - i,
{
    if i < 0 || i >= tree.len() {
        tree.len() as int
    } else if tree[i].level <= level {
        i
    } else {
        subtree_end(tree, level, i + 1)
    }
}

/// The split of a non-empty tree list into its first node, that node's descendants,
/// and the rest.
pub open spec fn spec_split_tree(tree: Seq<TypeTreeNode>) -> Option<
    (TypeTreeNode, Seq<TypeTreeNode>, Seq<TypeTreeNode>),
> {
    if tree.len() == 0 {
        None
    } else {
        let e = subtree_end(tree, tree[0].level, 1);
        Some((tree[0], tree.subrange(1, e), tree.subrange(e, tree.len() as int)))
    }
}

pub proof fn lemma_subtree_end(tree: Seq<TypeTreeNode>, level: u8, i: int)
    requires
        0 <= i <= tree.len(),
    ensures
        i <= subtree_end(tree, level, i) <= tree.len(),
        forall|k: int| i <= k < subtree_end(tree, level, i) ==> (#[trigger] tree[k]).level > level,
    decreases tree.len() - i,
{
    if i < tree.len() && tree[i].level > level {
        lemma_subtree_end(tree, level, i + 1);
    }
}

/// Splits the tree into:
///
/// - The next root node
/// - its children
/// - its siblings
///
/// If empty, returns [`None`].
pub fn split_tree(tree: &[TypeTreeNode]) -> (r: Option<
    (&TypeTreeNode, &[TypeTreeNode], &[TypeTreeNode]),
>)
    ensures
        r matches Some((n, c, s)) ==> spec_split_tree(tree@) == Some((*n, c@, s@)),
        r is None <==> spec_split_tree(tree@) is None,
{
    if tree.len() == 0 {
        return None;
    }
    let next = &tree[0];
    let mut last_index: usize = 1;
    while last_index < tree.len() && tree[last_index].level > next.level
        invariant
            1 <= last_index <= tree@.len(),
            *next == tree@[0],
            subtree_end(tree@, next.level, 1) == subtree_end(tree@, next.level, last_index as int),
        decreases tree.len() - last_index,
    {
        last_index = last_index + 1;
    }
    let children = &tree[1..last_index];
    let siblings = &tree[last_index..tree.len()];
    Some((next, children, siblings))
}

/// The values of a list of nodes.
pub open spec fn node_views(v: Seq<TypeTreeNode>) -> Seq<NodeView> {
    Seq::new(v.len(), |i: int| v[i]@)
}

/// `subtree_end` over node values.
pub open spec fn subtree_end_v(tree: Seq<NodeView>, level: u8, i: int) -> int
    decreases tree.len() - i,
{
    if i < 0 || i >= tree.len() {
        tree.len() as int
    } else if tree[i].level <= level {
        i
    } else {
        subtree_end_v(tree, level, i + 1)
    }
}

/// The split of a non-empty list of node values into its first node, that node's
/// descendants, and the rest.
pub open spec fn split_views(tree: Seq<NodeView>) -> Option<(NodeView, Seq<NodeView>, Seq<NodeView>)> {
    if tree.len() == 0 {
        None
    } else {
        let e = subtree_end_v(tree, tree[0].level, 1);
        Some((tree[0], tree.subrange(1, e), tree.subrange(e, tree.len() as int)))
    }
}

pub proof fn lemma_subtree_end_v(tree: Seq<NodeView>, level: u8, i: int)
    requires
        0 <= i <= tree.len(),
    ensures
        i <= subtree_end_v(tree, level, i) <= tree.len(),
    decreases tree.len() - i,
{
    if i < tree.len() && tree[i].level > level {
        lemma_subtree_end_v(tree, level, i + 1);
    }
}

proof fn lemma_subtree_end_views(tree: Seq<TypeTreeNode>, level: u8, i: int)
    requires
        0 <= i <= tree.len(),
    ensures
        subtree_end(tree, level, i) == subtree_end_v(node_views(tree), level, i),
    decreases tree.len() - i,
{
    if i < tree.len() && tree[i].level > level {
        lemma_subtree_end_views(tree, level, i + 1);
    }
}

/// Splitting node values agrees with splitting the nodes.
pub proof fn lemma_split_views(tree: Seq<TypeTreeNode>)
    ensures
        match spec_split_tree(tree) {
            None => split_views(node_views(tree)) is None,
            Some((n, c, s)) => split_views(node_views(tree)) == Some((n@, node_views(c), node_views(s))),
        },
{
    if tree.len() > 0 {
        lemma_subtree_end_views(tree, tree[0].level, 1);
        lemma_subtree_end(tree, tree[0].level, 1);
        let e = subtree_end(tree, tree[0].level, 1);
        assert(node_views(tree.subrange(1, e)) =~= node_views(tree).subrange(1, e));
        assert(node_views(tree.subrange(e, tree.len() as int)) =~= node_views(tree).subrange(e, tree.len() as int));
    }
}

proof fn lemma_subtree_end_stop(tree: Seq<TypeTreeNode>, level: u8, i: int)
    requires
        0 <= i <= tree.len(),
    ensures
        subtree_end(tree, level, i) < tree.len() ==> tree[subtree_end(tree, level, i)].level <= level,
    decreases tree.len() - i,
{
    if i < tree.len() && tree[i].level > level {
        lemma_subtree_end_stop(tree, level, i + 1);
    }
}

/// Splitting a non-empty list of nodes gives its first node, the nodes right after
/// it that lie deeper (its descendants), and the rest, which starts at a node no
/// deeper than the first; in this order they make up the list.
pub proof fn lemma_split_tree_partition(tree: Seq<TypeTreeNode>)
    requires
        tree.len() > 0,
    ensures
        spec_split_tree(tree) matches Some((n, c, s)) && tree == seq![n] + c + s && (forall|k: int|
            0 <= k < c.len() ==> (#[trigger] c[k]).level > n.level) && (s.len() > 0 ==> s[0].level <= n.level),
{
    let e = subtree_end(tree, tree[0].level, 1);
    lemma_subtree_end(tree, tree[0].level, 1);
    lemma_subtree_end_stop(tree, tree[0].level, 1);
    assert(tree =~= seq![tree[0]] + tree.subrange(1, e) + tree.subrange(e, tree.len() as int));
    assert forall|k: int| 0 <= k < e - 1 implies (#[trigger] tree.subrange(1, e)[k]).level > tree[0].level by {
        assert(tree.subrange(1, e)[k] == tree[k + 1]);
    }
}

} // verus!
