//! State of the board view that is no part of the game.

use std::collections::HashSet;
use vstd::prelude::*;
use crate::domain::move_tree::MoveNodeId;

verus! {

broadcast use vstd::std_specs::hash::group_hash_axioms;

/// UI state model for move list: the variations that are shown collapsed.
pub struct MoveListState {
    pub collapsed_variations: HashSet<MoveNodeId>,
}

impl MoveListState {
    pub fn new() -> (state: MoveListState)
        ensures
            state.collapsed_variations@ == Set::<MoveNodeId>::empty(),
    {
        MoveListState { collapsed_variations: HashSet::new() }
    }

    /// Collapse the variation at `node_id` if it is expanded, expand it if
    /// it is collapsed.
    pub fn toggle_variation(&mut self, node_id: MoveNodeId)
        ensures
            final(self).collapsed_variations@ == if old(self).collapsed_variations@.contains(
                node_id,
            ) {
                old(self).collapsed_variations@.remove(node_id)
            } else {
                old(self).collapsed_variations@.insert(node_id)
            },
    {
        if self.collapsed_variations.contains(&node_id) {
            self.collapsed_variations.remove(&node_id);
        } else {
            self.collapsed_variations.insert(node_id);
        }
    }
}

} // verus!
