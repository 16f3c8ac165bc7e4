//! Move tree data structure for representing chess games with variations.

use shakmaty::Chess;
use vstd::prelude::*;
use crate::domain::chess::{is_starting_position, starting_position};

verus! {

/// Unique identifier for a node in the move tree.
pub type MoveNodeId = usize;

/// A node in the move tree representing a position after a move.
#[derive(Clone, Debug)]
pub struct MoveNode {
    /// Unique identifier for this node.
    pub id: MoveNodeId,
    /// Parent node ID (None for root).
    pub parent_id: Option<MoveNodeId>,
    /// The chess position at this node.
    pub position: Chess,
    /// The SAN notation of the move that led to this position (None for root).
    pub san: Option<String>,
    /// Child node IDs - first child is the main line continuation, rest are variations.
    pub children: Vec<MoveNodeId>,
}

/// The mathematical content of a [`MoveNode`].
pub struct MoveNodeView {
    pub id: MoveNodeId,
    pub parent_id: Option<MoveNodeId>,
    pub position: Chess,
    pub san: Option<Seq<char>>,
    pub children: Seq<MoveNodeId>,
}

impl View for MoveNode {
    type V = MoveNodeView;

    open spec fn view(&self) -> MoveNodeView {
        MoveNodeView {
            id: self.id,
            parent_id: self.parent_id,
            position: self.position,
            san: match self.san {
                Some(san) => Some(san@),
                None => None,
            },
            children: self.children@,
        }
    }
}

/// `ids` without every occurrence of `id`.
pub open spec fn without(ids: Seq<MoveNodeId>, id: MoveNodeId) -> Seq<MoveNodeId>
    decreases ids.len(),
{
    if ids.len() == 0 {
        ids
    } else if ids.last() == id {
        without(ids.drop_last(), id)
    } else {
        without(ids.drop_last(), id).push(ids.last())
    }
}

/// What is left without `id` is everything else, as often as before.
pub proof fn lemma_without(ids: Seq<MoveNodeId>, id: MoveNodeId)
    ensures
        forall|x: MoveNodeId| #[trigger]
            without(ids, id).contains(x) <==> ids.contains(x) && x != id,
        ids.no_duplicates() ==> without(ids, id).no_duplicates(),
    decreases ids.len(),
{
    if ids.len() > 0 {
        let front = ids.drop_last();
        let last = ids.last();
        let kept = without(front, id);
        lemma_without(front, id);
        assert forall|x: MoveNodeId| #[trigger]
            without(ids, id).contains(x) <==> ids.contains(x) && x != id by {
            if ids.contains(x) && x != id {
                let k = choose|k: int| 0 <= k < ids.len() && ids[k] == x;
                if k < front.len() {
                    assert(front[k] == x);
                    assert(kept.contains(x));
                    let j = choose|j: int| 0 <= j < kept.len() && kept[j] == x;
                    assert(without(ids, id)[j] == x);
                } else {
                    assert(without(ids, id)[kept.len() as int] == x);
                }
            }
            if without(ids, id).contains(x) {
                let j = choose|j: int| 0 <= j < without(ids, id).len() && without(ids, id)[j] == x;
                if j < kept.len() {
                    assert(kept[j] == x);
                    assert(kept.contains(x));
                    let k = choose|k: int| 0 <= k < front.len() && front[k] == x;
                    assert(ids[k] == x);
                } else {
                    assert(ids[ids.len() - 1] == x);
                }
            }
        }
        if ids.no_duplicates() {
            assert forall|a: int, b: int| 0 <= a < front.len() && 0 <= b < front.len() && a
                != b implies front[a] != front[b] by {
                assert(ids[a] != ids[b]);
            }
            if last != id {
                assert forall|a: int| 0 <= a < kept.len() implies kept[a] != last by {
                    if kept[a] == last {
                        assert(kept.contains(last));
                        let k = choose|k: int| 0 <= k < front.len() && front[k] == last;
                        assert(ids[k] == ids[ids.len() - 1]);
                    }
                }
            }
        }
    }
}

/// The first place of `id` in `ids`; the length of `ids` where it has none.
pub open spec fn place_of(ids: Seq<MoveNodeId>, id: MoveNodeId) -> int
    decreases ids.len(),
{
    if ids.len() == 0 || ids[0] == id {
        0
    } else {
        1 + place_of(ids.skip(1), id)
    }
}

/// `ids` with the first occurrence of `id` moved to the front.
pub open spec fn moved_to_front(ids: Seq<MoveNodeId>, id: MoveNodeId) -> Seq<MoveNodeId> {
    if ids.contains(id) {
        seq![id] + ids.remove(place_of(ids, id))
    } else {
        ids
    }
}

/// The place of an item is the first index that holds it.
pub proof fn lemma_place_of(ids: Seq<MoveNodeId>, id: MoveNodeId)
    ensures
        0 <= place_of(ids, id) <= ids.len(),
        forall|k: int| 0 <= k < place_of(ids, id) ==> ids[k] != id,
        place_of(ids, id) < ids.len() ==> ids[place_of(ids, id)] == id,
        place_of(ids, id) < ids.len() <==> ids.contains(id),
    decreases ids.len(),
{
    if ids.len() > 0 && ids[0] != id {
        let rest = ids.skip(1);
        lemma_place_of(rest, id);
        assert forall|k: int| 0 <= k < place_of(ids, id) implies ids[k] != id by {
            if k > 0 {
                assert(rest[k - 1] == ids[k]);
            }
        }
        if place_of(ids, id) < ids.len() {
            assert(rest[place_of(rest, id)] == ids[place_of(ids, id)]);
        }
        if ids.contains(id) {
            let k = choose|k: int| 0 <= k < ids.len() && ids[k] == id;
            assert(rest[k - 1] == id);
        }
    }
}

/// Moving an item to the front keeps what is listed, each once.
pub proof fn lemma_moved_to_front(ids: Seq<MoveNodeId>, id: MoveNodeId)
    requires
        ids.no_duplicates(),
    ensures
        moved_to_front(ids, id).no_duplicates(),
        moved_to_front(ids, id).len() == ids.len(),
        forall|x: MoveNodeId| #[trigger] moved_to_front(ids, id).contains(x) <==> ids.contains(x),
{
    lemma_place_of(ids, id);
    if ids.contains(id) {
        let p = place_of(ids, id);
        let rest = ids.remove(p);
        let moved = moved_to_front(ids, id);
        assert forall|k: int| 0 <= k < rest.len() implies #[trigger] rest[k] == ids[if k < p {
            k
        } else {
            k + 1
        }] by {}
        assert forall|x: MoveNodeId| #[trigger] moved.contains(x) <==> ids.contains(x) by {
            if ids.contains(x) {
                let k = choose|k: int| 0 <= k < ids.len() && ids[k] == x;
                if k == p {
                    assert(moved[0] == x);
                } else if k < p {
                    assert(rest[k] == x);
                    assert(moved[k + 1] == x);
                } else {
                    assert(rest[k - 1] == x);
                    assert(moved[k] == x);
                }
            }
            if moved.contains(x) {
                let j = choose|j: int| 0 <= j < moved.len() && moved[j] == x;
                if j > 0 {
                    assert(moved[j] == rest[j - 1]);
                }
            }
        }
        assert forall|a: int, b: int| 0 <= a < moved.len() && 0 <= b < moved.len() && a
            != b implies moved[a] != moved[b] by {
            if a > 0 {
                assert(moved[a] == rest[a - 1]);
            }
            if b > 0 {
                assert(moved[b] == rest[b - 1]);
            }
        }
    }
}

/// The mathematical content of a list of nodes.
pub open spec fn node_views(nodes: Seq<MoveNode>) -> Seq<MoveNodeView> {
    nodes.map_values(|n: MoveNode| n@)
}

/// A tree structure representing a chess game with variations.
#[derive(Clone, Debug)]
pub struct MoveTree {
    /// All nodes in the tree, indexed by their ID.
    nodes: Vec<MoveNode>,
    /// The currently viewed node.
    current_id: MoveNodeId,
}

/// The mathematical content of a [`MoveTree`]: every node that was ever
/// added, by its identifier, and the node that is being viewed.
pub struct MoveTreeView {
    pub nodes: Seq<MoveNodeView>,
    pub current_id: MoveNodeId,
}

impl View for MoveTree {
    type V = MoveTreeView;

    closed spec fn view(&self) -> MoveTreeView {
        MoveTreeView { nodes: node_views(self.nodes@), current_id: self.current_id }
    }
}

impl MoveTreeView {
    /// The invariant of every tree. Node 0 is the root. Every other node was
    /// added after its parent. A node lists as children only nodes that name
    /// it as their parent, each once; a node that was deleted keeps its
    /// parent but is listed by none.
    pub open spec fn wf(self) -> bool {
        &&& self.nodes.len() > 0
        &&& self.current_id < self.nodes.len()
        &&& self.nodes[0].parent_id is None
        &&& forall|i: int| 0 <= i < self.nodes.len() ==> (#[trigger] self.nodes[i]).id == i
        &&& forall|i: int|
            0 < i < self.nodes.len() ==> (#[trigger] self.nodes[i]).parent_id is Some
                && self.nodes[i].parent_id->0 < i
        &&& forall|i: int, k: int|
            0 <= i < self.nodes.len() && 0 <= k < self.nodes[i].children.len() ==> i < (
            #[trigger] self.nodes[i].children[k]) < self.nodes.len()
                && self.nodes[self.nodes[i].children[k] as int].parent_id == Some(i as usize)
        &&& forall|i: int|
            0 <= i < self.nodes.len() ==> (#[trigger] self.nodes[i]).children.no_duplicates()
    }

    /// The parent of node `id`, if `id` is a node other than the root.
    pub open spec fn parent(self, id: MoveNodeId) -> Option<MoveNodeId> {
        if id < self.nodes.len() {
            self.nodes[id as int].parent_id
        } else {
            None
        }
    }

    /// The number of moves that lead from the root to node `id`.
    pub open spec fn ply(self, id: MoveNodeId) -> nat
        decreases id,
    {
        match self.parent(id) {
            Some(p) => if p < id {
                1 + self.ply(p)
            } else {
                0
            },
            None => 0,
        }
    }

    /// Whether `id` is `ancestor` or lies below it.
    pub open spec fn is_descendant_of(self, id: MoveNodeId, ancestor: MoveNodeId) -> bool
        decreases id,
    {
        id == ancestor || match self.parent(id) {
            Some(p) => p < id && self.is_descendant_of(p, ancestor),
            None => false,
        }
    }

    /// The first child of node `id`, if it has children.
    pub open spec fn main_line_child(self, id: MoveNodeId) -> Option<MoveNodeId> {
        if id < self.nodes.len() && self.nodes[id as int].children.len() > 0 {
            Some(self.nodes[id as int].children[0])
        } else {
            None
        }
    }

    /// The nodes reached from `id` by following first children, `id` first.
    pub open spec fn line_from(self, id: MoveNodeId) -> Seq<MoveNodeId>
        decreases self.nodes.len() - id,
    {
        match self.main_line_child(id) {
            Some(c) => if id < c < self.nodes.len() {
                seq![id] + self.line_from(c)
            } else {
                seq![id]
            },
            None => seq![id],
        }
    }

    /// The tree seen from node `id`.
    pub open spec fn at(self, id: MoveNodeId) -> MoveTreeView {
        MoveTreeView { current_id: id, ..self }
    }

    /// The first of `children` that was reached by the move `san`.
    pub open spec fn first_with_san(self, children: Seq<MoveNodeId>, san: Seq<char>) -> Option<
        MoveNodeId,
    >
        decreases children.len(),
    {
        if children.len() == 0 {
            None
        } else if children[0] < self.nodes.len() && self.nodes[children[0] as int].san == Some(
            san,
        ) {
            Some(children[0])
        } else {
            self.first_with_san(children.skip(1), san)
        }
    }

    /// The tree with the children of node `id` replaced by `children`.
    pub open spec fn with_children(self, id: MoveNodeId, children: Seq<MoveNodeId>) -> MoveTreeView {
        MoveTreeView {
            nodes: self.nodes.update(
                id as int,
                MoveNodeView { children, ..self.nodes[id as int] },
            ),
            ..self
        }
    }

    /// Deleting node `id` with everything below it, and whether anything was
    /// deleted. The root and identifiers that name no node are refused. The
    /// node leaves the children of its parent; where the node being viewed
    /// lies in what was deleted, the parent is viewed instead.
    pub open spec fn delete_node(self, id: MoveNodeId) -> (MoveTreeView, bool) {
        if id == 0 || id >= self.nodes.len() {
            (self, false)
        } else {
            match self.nodes[id as int].parent_id {
                Some(parent) => (
                    self.at(
                        if self.is_descendant_of(self.current_id, id) {
                            parent
                        } else {
                            self.current_id
                        },
                    ).with_children(parent, without(self.nodes[parent as int].children, id)),
                    true,
                ),
                None => (self, false),
            }
        }
    }

    /// Making node `id` the first child of its parent, and whether its
    /// parent lists it.
    pub open spec fn promote_node(self, id: MoveNodeId) -> (MoveTreeView, bool) {
        match self.parent(id) {
            Some(parent) => if self.nodes[parent as int].children.contains(id) {
                (
                    self.with_children(
                        parent,
                        moved_to_front(self.nodes[parent as int].children, id),
                    ),
                    true,
                )
            } else {
                (self, false)
            },
            None => (self, false),
        }
    }

    /// The nearest node on the way from `id` to the root, `id` included,
    /// that is not the first child of its parent; 0 where there is none.
    pub open spec fn branch_point(self, id: MoveNodeId) -> MoveNodeId
        decreases id,
    {
        if id == 0 {
            0
        } else {
            match self.parent(id) {
                Some(parent) => if self.main_line_child(parent) != Some(id) {
                    id
                } else if parent < id {
                    self.branch_point(parent)
                } else {
                    0
                },
                None => 0,
            }
        }
    }

    /// Promoting the variation that node `id` lies in at the point where it
    /// branches off, and whether that succeeded. The root and identifiers
    /// that name no node are refused; on the main line nothing is left to do.
    pub open spec fn promote_variation(self, id: MoveNodeId) -> (MoveTreeView, bool) {
        if id == 0 || id >= self.nodes.len() {
            (self, false)
        } else if self.branch_point(id) == 0 {
            (self, true)
        } else {
            self.promote_node(self.branch_point(id))
        }
    }

    /// The nodes on the way from `id` up to the root, `id` first and the
    /// root left out.
    pub open spec fn path_up(self, id: MoveNodeId) -> Seq<MoveNodeId>
        decreases id,
    {
        if id == 0 {
            Seq::empty()
        } else {
            match self.parent(id) {
                Some(parent) => if parent < id {
                    seq![id] + self.path_up(parent)
                } else {
                    seq![id]
                },
                None => seq![id],
            }
        }
    }

    /// Promoting the variation of every node of `path` in turn, last first.
    pub open spec fn promote_each(self, path: Seq<MoveNodeId>) -> MoveTreeView
        decreases path.len(),
    {
        if path.len() == 0 {
            self
        } else {
            self.promote_variation(path.last()).0.promote_each(path.drop_last())
        }
    }

    /// Making the line that leads to node `id` the main line: every branch
    /// point between the root and `id` is promoted, nearest the root first.
    pub open spec fn promote_to_main_line(self, id: MoveNodeId) -> (MoveTreeView, bool) {
        if id == 0 || id >= self.nodes.len() {
            (self, false)
        } else {
            (self.promote_each(self.path_up(id)), true)
        }
    }

    /// Whether every node on the way from `id` up to the root is listed by
    /// its parent, so that nothing on the way was deleted.
    pub open spec fn attached(self, id: MoveNodeId) -> bool
        decreases id,
    {
        id == 0 || match self.parent(id) {
            Some(parent) => parent < id && self.nodes[parent as int].children.contains(id)
                && self.attached(parent),
            None => false,
        }
    }

    /// Whether every node on the way from `id` up to the root is the first
    /// child of its parent.
    pub open spec fn on_main_line(self, id: MoveNodeId) -> bool
        decreases id,
    {
        id == 0 || match self.parent(id) {
            Some(parent) => parent < id && self.main_line_child(parent) == Some(id)
                && self.on_main_line(parent),
            None => false,
        }
    }

    /// Whether `other` has the nodes of this tree with the same parents and
    /// the same children, whatever their order.
    pub open spec fn same_shape(self, other: MoveTreeView) -> bool {
        &&& self.nodes.len() == other.nodes.len()
        &&& forall|i: int|
            0 <= i < self.nodes.len() ==> (#[trigger] self.nodes[i]).parent_id
                == other.nodes[i].parent_id
        &&& forall|i: int, c: MoveNodeId|
            0 <= i < self.nodes.len() ==> (#[trigger] self.nodes[i].children.contains(c))
                == other.nodes[i].children.contains(c)
    }

    /// Playing `san` from the current node, and the node that is reached. A
    /// child that was reached by the same move is visited; failing that a
    /// new node becomes the last child of the current one.
    pub open spec fn add_move(self, position: Chess, san: Seq<char>) -> (MoveTreeView, MoveNodeId) {
        let here = self.nodes[self.current_id as int];
        match self.first_with_san(here.children, san) {
            Some(child) => (self.at(child), child),
            None => {
                let id = self.nodes.len() as usize;
                let node = MoveNodeView {
                    id,
                    parent_id: Some(self.current_id),
                    position,
                    san: Some(san),
                    children: Seq::empty(),
                };
                (
                    (MoveTreeView { nodes: self.nodes.push(node), current_id: id }).with_children(
                        self.current_id,
                        here.children.push(id),
                    ),
                    id,
                )
            },
        }
    }
}

/// Replacing the children of a node by some of them, each once, keeps the
/// tree well formed.
pub proof fn lemma_with_children_wf(t: MoveTreeView, id: MoveNodeId, children: Seq<MoveNodeId>)
    requires
        t.wf(),
        id < t.nodes.len(),
        children.no_duplicates(),
        forall|k: int|
            0 <= k < children.len() ==> t.nodes[id as int].children.contains(#[trigger] children[k]),
    ensures
        t.with_children(id, children).wf(),
        t.with_children(id, children).nodes.len() == t.nodes.len(),
{
    let r = t.with_children(id, children);
    assert forall|i: int, k: int|
        0 <= i < r.nodes.len() && 0 <= k < r.nodes[i].children.len() implies i < (
    #[trigger] r.nodes[i].children[k]) < r.nodes.len() && r.nodes[r.nodes[i].children[k] as int].parent_id
        == Some(i as usize) by {
        if i == id {
            let c = children[k];
            assert(t.nodes[id as int].children.contains(c));
            let j = choose|j: int|
                0 <= j < t.nodes[id as int].children.len() && t.nodes[id as int].children[j] == c;
            assert(t.nodes[i].children[j] == c);
        } else {
            assert(r.nodes[i].children[k] == t.nodes[i].children[k]);
        }
    }
    assert forall|i: int| 0 < i < r.nodes.len() implies (#[trigger] r.nodes[i]).parent_id is Some
        && r.nodes[i].parent_id->0 < i by {
        assert(r.nodes[i].parent_id == t.nodes[i].parent_id);
    }
    assert forall|i: int| 0 <= i < r.nodes.len() implies (#[trigger] r.nodes[i]).id == i by {
        assert(r.nodes[i].id == t.nodes[i].id);
    }
    assert forall|i: int| 0 <= i < r.nodes.len() implies (
    #[trigger] r.nodes[i]).children.no_duplicates() by {
        if i != id {
            assert(r.nodes[i] == t.nodes[i]);
        }
    }
}

/// Deleting and promoting keep the tree well formed, and neither adds nor
/// removes a node.
pub proof fn lemma_edits_keep_wf(t: MoveTreeView, id: MoveNodeId)
    requires
        t.wf(),
    ensures
        t.delete_node(id).0.wf(),
        t.delete_node(id).0.nodes.len() == t.nodes.len(),
        t.promote_node(id).0.wf(),
        t.promote_node(id).0.nodes.len() == t.nodes.len(),
        t.promote_variation(id).0.wf(),
        t.promote_variation(id).0.nodes.len() == t.nodes.len(),
{
    if 0 < id < t.nodes.len() {
        let parent = t.nodes[id as int].parent_id->0;
        let children = t.nodes[parent as int].children;
        lemma_without(children, id);
        let seen = if t.is_descendant_of(t.current_id, id) {
            parent
        } else {
            t.current_id
        };
        assert forall|k: int| 0 <= k < without(children, id).len() implies children.contains(
            #[trigger] without(children, id)[k],
        ) by {
            assert(without(children, id).contains(without(children, id)[k]));
        }
        lemma_with_children_wf(t.at(seen), parent, without(children, id));
    }
    lemma_promote_node_wf(t, id);
    if 0 < id < t.nodes.len() {
        lemma_promote_node_wf(t, t.branch_point(id));
    }
}

/// Promoting a node keeps the tree well formed.
pub proof fn lemma_promote_node_wf(t: MoveTreeView, id: MoveNodeId)
    requires
        t.wf(),
    ensures
        t.promote_node(id).0.wf(),
        t.promote_node(id).0.nodes.len() == t.nodes.len(),
        t.promote_node(id).0.current_id == t.current_id,
{
    if 0 < id < t.nodes.len() {
        let parent = t.nodes[id as int].parent_id->0;
        let children = t.nodes[parent as int].children;
        if children.contains(id) {
            lemma_moved_to_front(children, id);
            let moved = moved_to_front(children, id);
            assert forall|k: int| 0 <= k < moved.len() implies children.contains(
                #[trigger] moved[k],
            ) by {
                assert(moved.contains(moved[k]));
            }
            lemma_with_children_wf(t, parent, moved);
        }
    }
}

/// A node that was promoted is the first child of its parent, and its
/// parent lists the same children as before.
pub proof fn law_promoted_node_comes_first(t: MoveTreeView, id: MoveNodeId)
    requires
        t.wf(),
        t.promote_node(id).1,
    ensures
        t.promote_node(id).0.main_line_child(t.parent(id)->0) == Some(id),
        forall|c: MoveNodeId|
            t.promote_node(id).0.nodes[t.parent(id)->0 as int].children.contains(c)
                <==> t.nodes[t.parent(id)->0 as int].children.contains(c),
{
    let parent = t.parent(id)->0;
    lemma_moved_to_front(t.nodes[parent as int].children, id);
    assert(moved_to_front(t.nodes[parent as int].children, id)[0] == id);
}

/// A node that was deleted is a child of no node, is never reached from the
/// root again, and the node being viewed lies outside what was deleted.
pub proof fn law_deleted_node_is_unlisted(t: MoveTreeView, id: MoveNodeId)
    requires
        t.wf(),
        t.delete_node(id).1,
    ensures
        forall|i: int|
            0 <= i < t.nodes.len() ==> !(#[trigger] t.delete_node(id).0.nodes[i]).children.contains(
                id,
            ),
        !t.delete_node(id).0.is_descendant_of(t.delete_node(id).0.current_id, id),
{
    let r = t.delete_node(id).0;
    let parent = t.nodes[id as int].parent_id->0;
    lemma_without(t.nodes[parent as int].children, id);
    assert forall|i: int| 0 <= i < t.nodes.len() implies !(#[trigger] r.nodes[i]).children.contains(
        id,
    ) by {
        if i != parent && r.nodes[i].children.contains(id) {
            let k = choose|k: int|
                0 <= k < t.nodes[i].children.len() && t.nodes[i].children[k] == id;
            assert(t.nodes[t.nodes[i].children[k] as int].parent_id == Some(i as usize));
        }
    }
    lemma_descendants_share_parents(t, r, r.current_id, id);
    if t.is_descendant_of(t.current_id, id) {
        lemma_ancestors_come_first(t, parent, id);
    }
}

/// Whether a node lies below another depends on the parents alone.
pub proof fn lemma_descendants_share_parents(
    t: MoveTreeView,
    r: MoveTreeView,
    id: MoveNodeId,
    ancestor: MoveNodeId,
)
    requires
        t.nodes.len() == r.nodes.len(),
        forall|i: int|
            0 <= i < t.nodes.len() ==> (#[trigger] t.nodes[i]).parent_id == r.nodes[i].parent_id,
    ensures
        t.is_descendant_of(id, ancestor) == r.is_descendant_of(id, ancestor),
    decreases id,
{
    if id != ancestor && id < t.nodes.len() {
        assert(t.nodes[id as int].parent_id == r.nodes[id as int].parent_id);
        match t.parent(id) {
            Some(p) => {
                if p < id {
                    lemma_descendants_share_parents(t, r, p, ancestor);
                }
            },
            None => {},
        }
    }
}

/// A node lies below later nodes never: what is below a node was added
/// after it.
pub proof fn lemma_ancestors_come_first(t: MoveTreeView, id: MoveNodeId, ancestor: MoveNodeId)
    requires
        id < ancestor,
    ensures
        !t.is_descendant_of(id, ancestor),
    decreases id,
{
    match t.parent(id) {
        Some(p) => {
            if p < id {
                lemma_ancestors_come_first(t, p, ancestor);
            }
        },
        None => {},
    }
}

/// A move that was added, or found again, leads back to where it was played.
pub proof fn law_added_move_leads_back(t: MoveTreeView, position: Chess, san: Seq<char>)
    requires
        t.wf(),
        t.nodes.len() < usize::MAX,
    ensures
        ({
            let (r, id) = t.add_move(position, san);
            &&& r.current_id == id
            &&& r.parent(id) == Some(t.current_id)
            &&& r.nodes[id as int].san == Some(san)
            &&& r.nodes[t.current_id as int].children.contains(id)
            &&& r.ply(id) == t.ply(t.current_id) + 1
        }),
{
    let (r, id) = t.add_move(position, san);
    let children = t.nodes[t.current_id as int].children;
    lemma_first_with_san(t, children, san);
    if t.first_with_san(children, san) is Some {
        let k = choose|k: int| 0 <= k < children.len() && children[k] == id;
        assert(t.nodes[t.current_id as int].children[k] == id);
        assert(r.nodes[t.current_id as int].children[k] == id);
        lemma_ply_of_older_nodes(t, r, t.current_id);
        assert(r.ply(id) == 1 + r.ply(t.current_id));
    } else {
        assert(id == t.nodes.len());
        assert(r.nodes.len() == t.nodes.len() + 1);
        assert(r.nodes[t.current_id as int].children == children.push(id));
        assert(r.nodes[t.current_id as int].children[children.len() as int] == id);
        assert(r.nodes[id as int].parent_id == Some(t.current_id));
        assert forall|i: int| 0 <= i < t.nodes.len() implies (#[trigger] t.nodes[i]).parent_id
            == r.nodes[i].parent_id by {}
        lemma_ply_of_older_nodes(t, r, t.current_id);
        assert(r.ply(id) == 1 + r.ply(t.current_id));
    }
}

/// The child that is found for a move is one of the children and was
/// reached by that move.
pub proof fn lemma_first_with_san(t: MoveTreeView, children: Seq<MoveNodeId>, san: Seq<char>)
    ensures
        match t.first_with_san(children, san) {
            Some(c) => children.contains(c) && c < t.nodes.len() && t.nodes[c as int].san == Some(
                san,
            ),
            None => true,
        },
    decreases children.len(),
{
    if children.len() > 0 {
        if children[0] < t.nodes.len() && t.nodes[children[0] as int].san == Some(san) {
        } else {
            lemma_first_with_san(t, children.skip(1), san);
            match t.first_with_san(children.skip(1), san) {
                Some(c) => {
                    let k = choose|k: int|
                        0 <= k < children.skip(1).len() && children.skip(1)[k] == c;
                    assert(children[k + 1] == c);
                },
                None => {},
            }
        }
    }
}

/// Nodes that keep their parents keep their distance from the root.
pub proof fn lemma_ply_of_older_nodes(t: MoveTreeView, r: MoveTreeView, id: MoveNodeId)
    requires
        id < t.nodes.len() <= r.nodes.len(),
        forall|i: int|
            0 <= i < t.nodes.len() ==> (#[trigger] t.nodes[i]).parent_id == r.nodes[i].parent_id,
    ensures
        t.ply(id) == r.ply(id),
    decreases id,
{
    assert(t.nodes[id as int].parent_id == r.nodes[id as int].parent_id);
    match t.parent(id) {
        Some(p) => {
            if p < id {
                lemma_ply_of_older_nodes(t, r, p);
            }
        },
        None => {},
    }
}

/// Promoting a variation moves no node to another parent.
pub proof fn lemma_promote_variation_shape(t: MoveTreeView, id: MoveNodeId)
    requires
        t.wf(),
    ensures
        t.same_shape(t.promote_variation(id).0),
        t.promote_variation(id).0.wf(),
{
    lemma_edits_keep_wf(t, id);
    if 0 < id < t.nodes.len() && t.branch_point(id) != 0 {
        let b = t.branch_point(id);
        match t.parent(b) {
            Some(parent) => {
                let children = t.nodes[parent as int].children;
                if children.contains(b) {
                    lemma_moved_to_front(children, b);
                    let r = t.promote_node(b).0;
                    assert forall|i: int, c: MoveNodeId| 0 <= i < t.nodes.len() implies (
                    #[trigger] t.nodes[i].children.contains(c)) == r.nodes[i].children.contains(
                        c,
                    ) by {
                        if i == parent {
                            assert(r.nodes[i].children == moved_to_front(children, b));
                        } else {
                            assert(r.nodes[i] == t.nodes[i]);
                        }
                    }
                }
            },
            None => {},
        }
    }
}

/// Promoting one variation after another moves no node to another parent.
pub proof fn lemma_promote_each_shape(t: MoveTreeView, path: Seq<MoveNodeId>)
    requires
        t.wf(),
    ensures
        t.same_shape(t.promote_each(path)),
        t.promote_each(path).wf(),
    decreases path.len(),
{
    if path.len() > 0 {
        let next = t.promote_variation(path.last()).0;
        lemma_promote_variation_shape(t, path.last());
        lemma_promote_each_shape(next, path.drop_last());
        let r = next.promote_each(path.drop_last());
        assert forall|i: int, c: MoveNodeId| 0 <= i < t.nodes.len() implies (
        #[trigger] t.nodes[i].children.contains(c)) == r.nodes[i].children.contains(c) by {
            assert(t.nodes[i].children.contains(c) == next.nodes[i].children.contains(c));
            assert(next.nodes[i].children.contains(c) == r.nodes[i].children.contains(c));
        }
        assert forall|i: int| 0 <= i < t.nodes.len() implies (#[trigger] t.nodes[i]).parent_id
            == r.nodes[i].parent_id by {
            assert(t.nodes[i].parent_id == next.nodes[i].parent_id);
            assert(next.nodes[i].parent_id == r.nodes[i].parent_id);
        }
    }
}

/// The node that comes first in a path is promoted last.
pub proof fn lemma_promote_each_front(t: MoveTreeView, id: MoveNodeId, rest: Seq<MoveNodeId>)
    ensures
        t.promote_each(seq![id] + rest) == t.promote_each(rest).promote_variation(id).0,
    decreases rest.len(),
{
    let path = seq![id] + rest;
    if rest.len() == 0 {
        assert(path.drop_last() =~= Seq::<MoveNodeId>::empty());
        assert(path.last() == id);
        assert(t.promote_variation(id).0.promote_each(path.drop_last()) == t.promote_variation(
            id,
        ).0);
    } else {
        assert(path.last() == rest.last());
        assert(path.drop_last() =~= seq![id] + rest.drop_last());
        lemma_promote_each_front(t.promote_variation(rest.last()).0, id, rest.drop_last());
    }
}

/// Trees of the same shape have the same nodes attached.
pub proof fn lemma_attached_by_shape(t: MoveTreeView, r: MoveTreeView, id: MoveNodeId)
    requires
        t.same_shape(r),
        t.attached(id),
    ensures
        r.attached(id),
    decreases id,
{
    if id != 0 {
        let parent = t.parent(id)->0;
        assert(t.nodes[id as int].parent_id == r.nodes[id as int].parent_id);
        assert(t.nodes[parent as int].children.contains(id) == r.nodes[parent as int].children.contains(
            id,
        ));
        lemma_attached_by_shape(t, r, parent);
    }
}

/// On the main line no variation branches off.
pub proof fn lemma_main_line_has_no_branch(t: MoveTreeView, id: MoveNodeId)
    requires
        t.on_main_line(id),
    ensures
        t.branch_point(id) == 0,
    decreases id,
{
    if id != 0 {
        lemma_main_line_has_no_branch(t, t.parent(id)->0);
    }
}

/// What is on the main line stays there while the nodes before `limit`
/// stay as they are and every node keeps its parent.
pub proof fn lemma_main_line_kept(t: MoveTreeView, r: MoveTreeView, id: MoveNodeId, limit: MoveNodeId)
    requires
        t.same_shape(r),
        forall|i: int| 0 <= i < limit && i < t.nodes.len() ==> (#[trigger] t.nodes[i]) == r.nodes[i],
        id <= limit,
        t.on_main_line(id),
    ensures
        r.on_main_line(id),
    decreases id,
{
    if id != 0 {
        let parent = t.parent(id)->0;
        assert(t.nodes[id as int].parent_id == r.nodes[id as int].parent_id);
        assert(t.nodes[parent as int] == r.nodes[parent as int]);
        lemma_main_line_kept(t, r, parent, limit);
    }
}

/// A line holds every line that starts at one of its nodes.
pub proof fn lemma_line_holds_later_lines(t: MoveTreeView, from: MoveNodeId, via: MoveNodeId)
    requires
        t.line_from(from).contains(via),
    ensures
        forall|x: MoveNodeId| t.line_from(via).contains(x) ==> t.line_from(from).contains(x),
    decreases t.nodes.len() - from,
{
    if via != from {
        let line = t.line_from(from);
        let k = choose|k: int| 0 <= k < line.len() && line[k] == via;
        match t.main_line_child(from) {
            Some(c) => {
                if from < c < t.nodes.len() {
                    let rest = t.line_from(c);
                    assert(line == seq![from] + rest);
                    assert(rest[k - 1] == via);
                    lemma_line_holds_later_lines(t, c, via);
                    assert forall|x: MoveNodeId| t.line_from(via).contains(x) implies line.contains(
                        x,
                    ) by {
                        let j = choose|j: int| 0 <= j < rest.len() && rest[j] == x;
                        assert(line[j + 1] == x);
                    }
                }
            },
            None => {},
        }
    }
}

/// What is on the main line is reached from the root by following first
/// children.
pub proof fn lemma_main_line_is_reached(t: MoveTreeView, id: MoveNodeId)
    requires
        t.wf(),
        id < t.nodes.len(),
        t.on_main_line(id),
    ensures
        t.line_from(0).contains(id),
    decreases id,
{
    if id == 0 {
        assert(t.line_from(0)[0] == 0);
    } else {
        let parent = t.parent(id)->0;
        lemma_main_line_is_reached(t, parent);
        lemma_line_holds_later_lines(t, 0, parent);
        assert(t.nodes[parent as int].children[0] == id);
        assert(t.line_from(parent) == seq![parent] + t.line_from(id));
        assert(t.line_from(id)[0] == id);
        assert(t.line_from(parent)[1] == id);
    }
}

/// Promoting the variations on the way from the root to a node brings the
/// node on the main line.
pub proof fn lemma_promoted_path_is_main_line(t: MoveTreeView, id: MoveNodeId)
    requires
        t.wf(),
        id < t.nodes.len(),
        t.attached(id),
    ensures
        t.promote_each(t.path_up(id)).on_main_line(id),
        t.promote_each(t.path_up(id)).wf(),
        t.same_shape(t.promote_each(t.path_up(id))),
    decreases id,
{
    lemma_promote_each_shape(t, t.path_up(id));
    if id != 0 {
        let parent = t.parent(id)->0;
        let before = t.promote_each(t.path_up(parent));
        lemma_promoted_path_is_main_line(t, parent);
        lemma_promote_each_front(t, id, t.path_up(parent));
        let after = before.promote_variation(id).0;
        assert(after == t.promote_each(t.path_up(id)));
        lemma_attached_by_shape(t, before, id);
        assert(before.nodes[id as int].parent_id == Some(parent));
        assert(before.nodes[parent as int].children.contains(id));
        if before.main_line_child(parent) == Some(id) {
            lemma_main_line_has_no_branch(before, id);
        } else {
            assert(before.branch_point(id) == id);
            let children = before.nodes[parent as int].children;
            lemma_moved_to_front(children, id);
            assert(after == before.with_children(parent, moved_to_front(children, id)));
            assert(moved_to_front(children, id)[0] == id);
            lemma_promote_variation_shape(before, id);
            lemma_main_line_kept(before, after, parent, parent);
        }
    }
}

/// Promoting a node to the main line brings it on the main line: it is then
/// reached from the root by following first children, unless it or a node
/// above it was deleted.
pub proof fn law_promoted_node_is_on_main_line(t: MoveTreeView, id: MoveNodeId)
    requires
        t.wf(),
        0 < id < t.nodes.len(),
        t.attached(id),
    ensures
        t.promote_to_main_line(id).1,
        t.promote_to_main_line(id).0.wf(),
        t.promote_to_main_line(id).0.on_main_line(id),
        t.promote_to_main_line(id).0.line_from(0).contains(id),
{
    lemma_promoted_path_is_main_line(t, id);
    lemma_main_line_is_reached(t.promote_to_main_line(id).0, id);
}

impl MoveNode {
    /// Create a new root node with the starting position.
    pub fn root() -> (node: MoveNode)
        ensures
            node@.id == 0,
            node@.parent_id is None,
            node@.san is None,
            node@.children == Seq::<MoveNodeId>::empty(),
            is_starting_position(node@.position),
    {
        MoveNode {
            id: 0,
            parent_id: None,
            position: starting_position(),
            san: None,
            children: Vec::new(),
        }
    }

    /// Create a new node from a move.
    pub fn new(id: MoveNodeId, parent_id: MoveNodeId, position: Chess, san: String) -> (node:
        MoveNode)
        ensures
            node@ == (MoveNodeView {
                id,
                parent_id: Some(parent_id),
                position,
                san: Some(san@),
                children: Seq::empty(),
            }),
    {
        MoveNode { id, parent_id: Some(parent_id), position, san: Some(san), children: Vec::new() }
    }

    /// Get the main line continuation (first child), if any.
    pub fn main_line_child(&self) -> (child: Option<MoveNodeId>)
        ensures
            child == if self@.children.len() > 0 {
                Some(self@.children[0])
            } else {
                None
            },
    {
        if self.children.len() > 0 {
            Some(self.children[0])
        } else {
            None
        }
    }

    /// Get variation children (all children except the first).
    pub fn variation_children(&self) -> (rest: &[MoveNodeId])
        ensures
            rest@ == if self@.children.len() > 1 {
                self@.children.skip(1)
            } else {
                Seq::empty()
            },
    {
        let all = self.children.as_slice();
        if all.len() > 1 {
            vstd::slice::slice_subrange(all, 1, all.len())
        } else {
            vstd::slice::slice_subrange(all, 0, 0)
        }
    }

    /// Calculate the half-move number (ply) for this node.
    /// Root is ply 0, first move is ply 1, etc.
    pub fn ply(&self, tree: &MoveTree) -> (count: usize)
        requires
            tree@.wf(),
        ensures
            count == tree@.ply(self@.id),
    {
        let mut count: usize = 0;
        let mut current_id: usize = self.id;
        let ghost t = tree@;
        assert(t.nodes.len() == tree.nodes@.len());
        loop
            invariant
                t == tree@,
                t.wf(),
                t.nodes.len() == tree.nodes@.len(),
                count + t.ply(current_id) == t.ply(self.id),
                count + current_id <= usize::MAX,
            ensures
                count == t.ply(self.id),
            decreases current_id,
        {
            if current_id >= tree.nodes.len() {
                break;
            }
            assert(t.nodes[current_id as int] == tree.nodes@[current_id as int]@);
            match tree.nodes[current_id].parent_id {
                Some(parent_id) => {
                    assert(current_id != 0);
                    count += 1;
                    current_id = parent_id;
                },
                None => {
                    break;
                },
            }
        }
        count
    }

    /// Get the move number (1-based, for display).
    /// Returns (move_number, is_black_move).
    pub fn move_number(&self, tree: &MoveTree) -> (r: (usize, bool))
        requires
            tree@.wf(),
        ensures
            r.0 == (tree@.ply(self@.id) + 1) / 2,
            r.1 == (tree@.ply(self@.id) > 0 && tree@.ply(self@.id) % 2 == 0),
    {
        let ply = self.ply(tree);
        if ply == 0 {
            (0, false)  // Root has no move number
        } else {
            let move_num = (ply - 1) / 2 + 1;
            let is_black = ply % 2 == 0;  // ply 2, 4, 6... are black's moves
            (move_num, is_black)
        }
    }
}

impl MoveTree {
    /// Create a new tree with just the root (starting position).
    pub fn new() -> (tree: MoveTree)
        ensures
            tree@.wf(),
            tree@.nodes.len() == 1,
            tree@.current_id == 0,
            tree@.nodes[0].san is None,
            tree@.nodes[0].children == Seq::<MoveNodeId>::empty(),
            is_starting_position(tree@.nodes[0].position),
    {
        let mut nodes: Vec<MoveNode> = Vec::new();
        nodes.push(MoveNode::root());
        MoveTree { nodes, current_id: 0 }
    }

    /// Get a node by ID.
    pub fn get(&self, id: MoveNodeId) -> (node: Option<&MoveNode>)
        ensures
            match node {
                Some(n) => id < self@.nodes.len() && n@ == self@.nodes[id as int],
                None => id >= self@.nodes.len(),
            },
    {
        if id < self.nodes.len() {
            Some(&self.nodes[id])
        } else {
            None
        }
    }

    /// Get the currently viewed node.
    pub fn current(&self) -> (node: &MoveNode)
        requires
            self@.wf(),
        ensures
            node@ == self@.nodes[self@.current_id as int],
    {
        &self.nodes[self.current_id]
    }

    /// Get the current node ID.
    pub fn current_id(&self) -> (id: MoveNodeId)
        ensures
            id == self@.current_id,
    {
        self.current_id
    }

    /// Navigate to a specific node.
    pub fn go_to(&mut self, id: MoveNodeId) -> (moved: bool)
        ensures
            moved == (id < old(self)@.nodes.len()),
            final(self)@ == if moved {
                old(self)@.at(id)
            } else {
                old(self)@
            },
            old(self)@.wf() ==> final(self)@.wf(),
    {
        if id < self.nodes.len() {
            self.current_id = id;
            true
        } else {
            false
        }
    }

    /// Navigate to the root.
    pub fn go_to_root(&mut self)
        ensures
            final(self)@ == old(self)@.at(0),
            old(self)@.wf() ==> final(self)@.wf(),
    {
        self.current_id = 0;
    }

    /// Navigate to parent (go back one move).
    pub fn go_back(&mut self) -> (moved: bool)
        requires
            old(self)@.wf(),
        ensures
            final(self)@.wf(),
            match old(self)@.parent(old(self)@.current_id) {
                Some(parent) => moved && final(self)@ == old(self)@.at(parent),
                None => !moved && final(self)@ == old(self)@,
            },
    {
        assert(self@.nodes[self.current_id as int] == self.nodes@[self.current_id as int]@);
        if let Some(parent_id) = self.nodes[self.current_id].parent_id {
            self.current_id = parent_id;
            true
        } else {
            false
        }
    }

    /// Navigate to main line child (go forward one move).
    pub fn go_forward(&mut self) -> (moved: bool)
        requires
            old(self)@.wf(),
        ensures
            final(self)@.wf(),
            match old(self)@.main_line_child(old(self)@.current_id) {
                Some(child) => moved && final(self)@ == old(self)@.at(child),
                None => !moved && final(self)@ == old(self)@,
            },
    {
        assert(self@.nodes[self.current_id as int] == self.nodes@[self.current_id as int]@);
        if let Some(child_id) = self.nodes[self.current_id].main_line_child() {
            self.current_id = child_id;
            true
        } else {
            false
        }
    }

    /// Navigate to the end of the main line from current position.
    pub fn go_to_end(&mut self)
        requires
            old(self)@.wf(),
        ensures
            final(self)@.wf(),
            final(self)@ == old(self)@.at(old(self)@.line_from(old(self)@.current_id).last()),
    {
        let ghost t = self@;
        loop
            invariant
                self@.wf(),
                self@ == t.at(self@.current_id),
                t.line_from(t.current_id).last() == t.line_from(self@.current_id).last(),
            ensures
                self@ == t.at(t.line_from(t.current_id).last()),
            decreases self@.nodes.len() - self@.current_id,
        {
            let ghost here = self@.current_id;
            let ghost line = t.line_from(here);
            if !self.go_forward() {
                assert(line == seq![here]);
                break;
            }
            proof {
                let rest = t.line_from(self@.current_id);
                assert(line == seq![here] + rest);
                assert(rest.len() > 0);
                assert(line.last() == rest.last());
            }
        }
    }

    /// Check if we're at the root.
    pub fn is_at_root(&self) -> (r: bool)
        ensures
            r == (self@.current_id == 0),
    {
        self.current_id == 0
    }

    /// Check if we're at a leaf node (no children).
    pub fn is_at_leaf(&self) -> (r: bool)
        requires
            self@.wf(),
        ensures
            r == (self@.nodes[self@.current_id as int].children.len() == 0),
    {
        assert(self@.nodes[self.current_id as int] == self.nodes@[self.current_id as int]@);
        self.nodes[self.current_id].children.len() == 0
    }

    /// Add a new move from the current position.
    /// Returns the ID of the new or existing node.
    ///
    /// If a child with the same SAN exists, navigates to it.
    /// Otherwise, creates a new node and navigates to it.
    pub fn add_move(&mut self, position: Chess, san: String) -> (id: MoveNodeId)
        requires
            old(self)@.wf(),
            old(self)@.nodes.len() < usize::MAX,
        ensures
            (final(self)@, id) == old(self)@.add_move(position, san@),
            final(self)@.wf(),
    {
        let ghost t = self@;
        let ghost children = t.nodes[t.current_id as int].children;
        assert(t.nodes[self.current_id as int] == self.nodes@[self.current_id as int]@);
        // Check if this move already exists as a child
        let n: usize = self.nodes[self.current_id].children.len();
        let mut k: usize = 0;
        assert(children.skip(0) =~= children);
        while k < n
            invariant
                self@ == t,
                t == old(self)@,
                children == t.nodes[t.current_id as int].children,
                t.wf(),
                n == children.len(),
                k <= n,
                children == self.nodes@[self.current_id as int].children@,
                t.first_with_san(children, san@) == t.first_with_san(children.skip(k as int), san@),
            decreases n - k,
        {
            let child_id: usize = self.nodes[self.current_id].children[k];
            assert(children.skip(k as int)[0] == child_id);
            assert(children.skip(k as int).skip(1) =~= children.skip(k as int + 1));
            if child_id < self.nodes.len() {
                assert(t.nodes[child_id as int] == self.nodes@[child_id as int]@);
                let same = match &self.nodes[child_id].san {
                    Some(s) => *s == san,
                    None => false,
                };
                if same {
                    // Move already exists, navigate to it
                    assert(t.nodes[child_id as int].san == Some(san@));
                    assert(t.first_with_san(children.skip(k as int), san@) == Some(child_id));
                    self.current_id = child_id;
                    assert(self@ == t.at(child_id));
                    return child_id;
                }
            }
            k += 1;
        }

        // Create new node
        let new_id: usize = self.nodes.len();
        let parent_id: usize = self.current_id;
        let new_node = MoveNode::new(new_id, parent_id, position, san);
        self.nodes.push(new_node);

        // Add as child of current node
        self.nodes[parent_id].children.push(new_id);

        // Navigate to new node
        self.current_id = new_id;
        proof {
            let expected = t.add_move(position, san@).0;
            assert(self@.nodes =~= expected.nodes);
            assert forall|i: int, j: int|
                0 <= i < self@.nodes.len() && 0 <= j < self@.nodes[i].children.len() implies i < (
            #[trigger] self@.nodes[i].children[j]) < self@.nodes.len()
                && self@.nodes[self@.nodes[i].children[j] as int].parent_id == Some(
                i as usize,
            ) by {
                if i == parent_id && j == children.len() {
                } else if i < t.nodes.len() {
                    assert(self@.nodes[i].children[j] == t.nodes[i].children[j]);
                }
            }
            assert forall|i: int| 0 <= i < self@.nodes.len() implies (
            #[trigger] self@.nodes[i]).children.no_duplicates() by {
                if i == parent_id {
                    assert forall|a: int| 0 <= a < children.len() implies children[a]
                        != new_id by {
                        assert(t.nodes[parent_id as int].children[a] < t.nodes.len());
                    }
                } else if i < t.nodes.len() {
                    assert(self@.nodes[i] == t.nodes[i]);
                }
            }
        }
        new_id
    }

    /// Delete a node and all its descendants.
    /// If the current position is within the deleted subtree, navigates to the parent.
    /// Returns true on success, false if node_id is root or invalid.
    pub fn delete_node(&mut self, node_id: MoveNodeId) -> (deleted: bool)
        requires
            old(self)@.wf(),
        ensures
            (final(self)@, deleted) == old(self)@.delete_node(node_id),
            final(self)@.wf(),
    {
        // Can't delete root
        if node_id == 0 || node_id >= self.nodes.len() {
            return false;
        }
        let ghost t = self@;
        proof {
            lemma_edits_keep_wf(t, node_id);
            assert(t.nodes[node_id as int] == self.nodes@[node_id as int]@);
        }
        // Get parent_id before we modify anything
        let parent_id: usize = match self.nodes[node_id].parent_id {
            Some(pid) => pid,
            None => {
                return false;
            },
        };
        assert(t.nodes[parent_id as int] == self.nodes@[parent_id as int]@);

        // Check if current position is in the subtree being deleted
        if self.is_descendant_of(self.current_id, node_id) {
            self.current_id = parent_id;
        }
        // Remove from parent's children

        let ghost children = t.nodes[parent_id as int].children;
        let n: usize = self.nodes[parent_id].children.len();
        let mut kept: Vec<MoveNodeId> = Vec::new();
        let mut k: usize = 0;
        assert(children.take(0) =~= Seq::<MoveNodeId>::empty());
        while k < n
            invariant
                parent_id < self.nodes@.len(),
                children == self.nodes@[parent_id as int].children@,
                n == children.len(),
                k <= n,
                kept@ == without(children.take(k as int), node_id),
            decreases n - k,
        {
            let child: usize = self.nodes[parent_id].children[k];
            proof {
                assert(children.take(k + 1).drop_last() =~= children.take(k as int));
                assert(children.take(k + 1).last() == child);
            }
            if child != node_id {
                kept.push(child);
            }
            k += 1;
        }
        assert(children.take(n as int) =~= children);
        self.nodes[parent_id].children = kept;

        // The nodes are not removed from the list (that would invalidate
        // identifiers); they are only no longer reachable from the root.
        assert(self@.nodes =~= t.delete_node(node_id).0.nodes);
        true
    }

    /// Check if `node_id` is equal to `ancestor_id` or is a descendant of it.
    fn is_descendant_of(&self, node_id: MoveNodeId, ancestor_id: MoveNodeId) -> (r: bool)
        requires
            self@.wf(),
        ensures
            r == self@.is_descendant_of(node_id, ancestor_id),
    {
        let mut current: usize = node_id;
        let ghost t = self@;
        loop
            invariant
                t == self@,
                t.wf(),
                t.nodes.len() == self.nodes@.len(),
                t.is_descendant_of(current, ancestor_id) == t.is_descendant_of(
                    node_id,
                    ancestor_id,
                ),
            decreases current,
        {
            if current == ancestor_id {
                return true;
            }
            if current >= self.nodes.len() {
                return false;
            }
            assert(t.nodes[current as int] == self.nodes@[current as int]@);
            match self.nodes[current].parent_id {
                Some(parent) => {
                    assert(current != 0);
                    current = parent;
                },
                None => {
                    return false;
                },
            }
        }
    }

    /// Promote a variation to be the main line at its branch point.
    /// This finds the first ancestor that is not the main line continuation
    /// (i.e., not the first child of its parent) and promotes that.
    /// Returns true on success.
    pub fn promote_variation(&mut self, node_id: MoveNodeId) -> (promoted: bool)
        requires
            old(self)@.wf(),
        ensures
            (final(self)@, promoted) == old(self)@.promote_variation(node_id),
            final(self)@.wf(),
            final(self)@.nodes.len() == old(self)@.nodes.len(),
    {
        if node_id == 0 || node_id >= self.nodes.len() {
            return false;
        }
        proof {
            lemma_edits_keep_wf(self@, node_id);
        }
        // Find the first ancestor that is a variation (not first child of parent)
        let branch_node_id = self.find_variation_branch_point(node_id);

        if branch_node_id == 0 {
            // Already on main line, nothing to promote
            return true;
        }
        // Now promote that branch node

        self.promote_node(branch_node_id)
    }

    /// Find the first ancestor (including self) that is not the first child of its parent.
    /// Returns 0 if already on main line.
    fn find_variation_branch_point(&self, node_id: MoveNodeId) -> (branch: MoveNodeId)
        requires
            self@.wf(),
            node_id < self@.nodes.len(),
        ensures
            branch == self@.branch_point(node_id),
            branch < self@.nodes.len(),
    {
        let mut current: usize = node_id;
        let ghost t = self@;
        while current != 0
            invariant
                t == self@,
                t.wf(),
                t.nodes.len() == self.nodes@.len(),
                current < t.nodes.len(),
                t.branch_point(current) == t.branch_point(node_id),
            decreases current,
        {
            assert(t.nodes[current as int] == self.nodes@[current as int]@);
            let parent_id: usize = match self.nodes[current].parent_id {
                Some(pid) => pid,
                None => {
                    return 0;  // at root
                },
            };
            assert(t.nodes[parent_id as int] == self.nodes@[parent_id as int]@);
            if self.nodes[parent_id].main_line_child() != Some(current) {
                // This node is not the first child - it's where the variation branches
                return current;
            }
            current = parent_id;
        }
        0  // On main line
    }

    /// Promote a specific node to be the first child of its parent.
    fn promote_node(&mut self, node_id: MoveNodeId) -> (promoted: bool)
        requires
            old(self)@.wf(),
            node_id < old(self)@.nodes.len(),
        ensures
            (final(self)@, promoted) == old(self)@.promote_node(node_id),
            final(self)@.wf(),
            final(self)@.nodes.len() == old(self)@.nodes.len(),
    {
        let ghost t = self@;
        proof {
            lemma_promote_node_wf(t, node_id);
            assert(t.nodes[node_id as int] == self.nodes@[node_id as int]@);
        }
        let parent_id: usize = match self.nodes[node_id].parent_id {
            Some(pid) => pid,
            None => {
                return false;
            },
        };
        assert(node_id != 0);
        assert(t.nodes[parent_id as int] == self.nodes@[parent_id as int]@);
        let ghost children = t.nodes[parent_id as int].children;

        // Find position of node_id in children
        let n: usize = self.nodes[parent_id].children.len();
        let mut pos: usize = 0;
        assert(children.skip(0) =~= children);
        while pos < n && self.nodes[parent_id].children[pos] != node_id
            invariant
                parent_id < self.nodes@.len(),
                children == self.nodes@[parent_id as int].children@,
                n == children.len(),
                pos <= n,
                place_of(children, node_id) == pos + place_of(children.skip(pos as int), node_id),
            decreases n - pos,
        {
            assert(children.skip(pos as int)[0] == children[pos as int]);
            assert(children.skip(pos as int).skip(1) =~= children.skip(pos as int + 1));
            pos += 1;
        }
        proof {
            lemma_place_of(children, node_id);
            if pos < n {
                assert(children.skip(pos as int)[0] == node_id);
            }
        }
        if pos == n {
            return false;
        }
        // Already first? Nothing to do

        if pos == 0 {
            assert(moved_to_front(children, node_id) =~= children);
            assert(t.with_children(parent_id, children).nodes =~= t.nodes);
            return true;
        }
        // Move to front

        let id = self.nodes[parent_id].children.remove(pos);
        self.nodes[parent_id].children.insert(0, id);
        proof {
            assert(self.nodes@[parent_id as int].children@ =~= moved_to_front(children, node_id));
            assert(self@.nodes =~= t.promote_node(node_id).0.nodes);
        }
        true
    }

    /// Promote a variation to be the global main line.
    /// This promotes at every branch point from this node up to the root.
    /// Returns true on success.
    pub fn promote_to_main_line(&mut self, node_id: MoveNodeId) -> (promoted: bool)
        requires
            old(self)@.wf(),
        ensures
            (final(self)@, promoted) == old(self)@.promote_to_main_line(node_id),
            final(self)@.wf(),
            final(self)@.nodes.len() == old(self)@.nodes.len(),
    {
        if node_id == 0 || node_id >= self.nodes.len() {
            return false;
        }
        let ghost t = self@;

        // Collect path from node to root
        let mut path: Vec<MoveNodeId> = Vec::new();
        let mut current: usize = node_id;
        while current != 0
            invariant_except_break
                path@ + t.path_up(current) == t.path_up(node_id),
            invariant
                t == self@,
                t.wf(),
                t.nodes.len() == self.nodes@.len(),
                current < t.nodes.len(),
            ensures
                path@ == t.path_up(node_id),
            decreases current,
        {
            assert(t.nodes[current as int] == self.nodes@[current as int]@);
            let ghost before = path@;
            path.push(current);
            match self.nodes[current].parent_id {
                Some(parent) => {
                    assert(before + t.path_up(current) =~= before.push(current) + t.path_up(
                        parent,
                    ));
                    current = parent;
                },
                None => {
                    assert(before + t.path_up(current) =~= before.push(current));
                    break;
                },
            }
        }
        assert(path@ == t.path_up(node_id)) by {
            if current == 0 {
                assert(path@ + t.path_up(0) =~= path@);
            }
        }

        // Promote each node in the path (from root towards the node)
        let mut k: usize = path.len();
        assert(path@.take(k as int) =~= path@);
        while k > 0
            invariant
                self@.wf(),
                self@.nodes.len() == t.nodes.len(),
                k <= path@.len(),
                self@.promote_each(path@.take(k as int)) == t.promote_each(path@),
            decreases k,
        {
            k -= 1;
            proof {
                assert(path@.take(k + 1).last() == path@[k as int]);
                assert(path@.take(k + 1).drop_last() =~= path@.take(k as int));
            }
            self.promote_variation(path[k]);
        }
        true
    }

    /// Get the main line as a sequence of node IDs (from root to end).
    pub fn main_line(&self) -> (line: Vec<MoveNodeId>)
        requires
            self@.wf(),
        ensures
            line@ == self@.line_from(0),
    {
        let mut line: Vec<MoveNodeId> = Vec::new();
        let mut current: usize = 0;
        let ghost t = self@;
        loop
            invariant_except_break
                line@ + t.line_from(current) == t.line_from(0),
            invariant
                t == self@,
                t.wf(),
                current < t.nodes.len(),
                t.nodes.len() == self.nodes@.len(),
            ensures
                line@ == t.line_from(0),
            decreases t.nodes.len() - current,
        {
            assert(t.nodes[current as int] == self.nodes@[current as int]@);
            let ghost before = line@;
            line.push(current);
            match self.nodes[current].main_line_child() {
                Some(child_id) => {
                    assert(before + t.line_from(current) =~= before.push(current) + t.line_from(
                        child_id,
                    ));
                    current = child_id;
                },
                None => {
                    assert(before + t.line_from(current) =~= before.push(current));
                    break;
                },
            }
        }
        line
    }
}

impl Default for MoveTree {
    fn default() -> (tree: MoveTree)
        ensures
            tree@.wf(),
            tree@.nodes.len() == 1,
            tree@.current_id == 0,
            tree@.nodes[0].san is None,
            tree@.nodes[0].children == Seq::<MoveNodeId>::empty(),
            is_starting_position(tree@.nodes[0].position),
    {
        MoveTree::new()
    }
}

} // verus!
