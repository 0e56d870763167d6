use vstd::prelude::*;

use crate::types::{Direction, InputState, InputView, PaneId, ScrollState, SplitDirection};

verus! {

/// Split ratio of a fresh split, in hundredths.
pub const DEFAULT_RATIO: u32 = 50;

/// Smallest split ratio a resize can produce, in hundredths.
pub const MIN_RATIO: u32 = 10;

/// Largest split ratio a resize can produce, in hundredths.
pub const MAX_RATIO: u32 = 90;

/// A pane leaf: an independent channel view.
#[derive(Debug, Clone)]
pub struct Pane {
    pub id: PaneId,
    pub channel_id: Option<u64>,
    pub guild_id: Option<u64>,
    pub scroll: ScrollState,
    pub input: InputState,
    /// Index of the selected message (for reply/edit/delete); `None` means no selection.
    pub selected_message: Option<usize>,
    /// Message pending delete confirmation; `None` means not confirming.
    pub confirming_delete: Option<u64>,
}

/// The model of a pane.
pub struct PaneView {
    pub id: PaneId,
    pub channel_id: Option<u64>,
    pub guild_id: Option<u64>,
    pub scroll: ScrollState,
    pub input: InputView,
    pub selected_message: Option<usize>,
    pub confirming_delete: Option<u64>,
}

impl View for Pane {
    type V = PaneView;

    open spec fn view(&self) -> PaneView {
        PaneView {
            id: self.id,
            channel_id: self.channel_id,
            guild_id: self.guild_id,
            scroll: self.scroll,
            input: self.input@,
            selected_message: self.selected_message,
            confirming_delete: self.confirming_delete,
        }
    }
}

/// The model of a pane that was just created with the given id.
pub open spec fn fresh_pane(id: PaneId) -> PaneView {
    PaneView {
        id,
        channel_id: None,
        guild_id: None,
        scroll: ScrollState::Following,
        input: InputView::empty(),
        selected_message: None,
        confirming_delete: None,
    }
}

impl Pane {
    /// A pane with no channel, following the newest messages, with an empty input box.
    pub fn new(id: PaneId) -> (p: Self)
        ensures
            p@ == fresh_pane(id),
    {
        Pane {
            id,
            channel_id: None,
            guild_id: None,
            scroll: ScrollState::Following,
            input: InputState::empty(),
            selected_message: None,
            confirming_delete: None,
        }
    }
}

/// The model of the pane layout: a binary tree whose leaves are panes.
pub enum PaneTree {
    Leaf(PaneView),
    Split { direction: SplitDirection, ratio: u32, first: Box<PaneTree>, second: Box<PaneTree> },
}

/// `value` limited to the range that a resize may produce.
pub open spec fn clamp_ratio(value: int) -> int {
    if value < MIN_RATIO {
        MIN_RATIO as int
    } else if value > MAX_RATIO {
        MAX_RATIO as int
    } else {
        value
    }
}

impl PaneTree {
    /// Pane ids of the leaves, left to right.
    pub open spec fn leaves(self) -> Seq<PaneId>
        decreases self,
    {
        match self {
            PaneTree::Leaf(p) => seq![p.id],
            PaneTree::Split { first, second, .. } => first.leaves() + second.leaves(),
        }
    }

    /// The panes at the leaves, left to right.
    pub open spec fn panes(self) -> Seq<PaneView>
        decreases self,
    {
        match self {
            PaneTree::Leaf(p) => seq![p],
            PaneTree::Split { first, second, .. } => first.panes() + second.panes(),
        }
    }

    /// Whether some leaf has the given id.
    pub open spec fn contains(self, id: PaneId) -> bool {
        self.leaves().contains(id)
    }

    /// Whether this node is a leaf with the given id.
    pub open spec fn is_leaf_with(self, id: PaneId) -> bool {
        match self {
            PaneTree::Leaf(p) => p.id == id,
            PaneTree::Split { .. } => false,
        }
    }

    /// The leftmost leaf pane with the given id.
    pub open spec fn find(self, id: PaneId) -> Option<PaneView>
        decreases self,
    {
        match self {
            PaneTree::Leaf(p) => if p.id == id {
                Some(p)
            } else {
                None
            },
            PaneTree::Split { first, second, .. } => match first.find(id) {
                Some(p) => Some(p),
                None => second.find(id),
            },
        }
    }

    /// The tree with the leftmost leaf pane of that id replaced by `pane`.
    pub open spec fn replace(self, id: PaneId, pane: PaneView) -> PaneTree
        decreases self,
    {
        match self {
            PaneTree::Leaf(p) => if p.id == id {
                PaneTree::Leaf(pane)
            } else {
                self
            },
            PaneTree::Split { direction, ratio, first, second } => if first.contains(id) {
                PaneTree::Split {
                    direction,
                    ratio,
                    first: Box::new(first.replace(id, pane)),
                    second,
                }
            } else {
                PaneTree::Split {
                    direction,
                    ratio,
                    first,
                    second: Box::new(second.replace(id, pane)),
                }
            },
        }
    }

    /// Ids of the leaves whose pane shows the given channel, left to right.
    pub open spec fn viewers(self, channel_id: u64) -> Seq<PaneId>
        decreases self,
    {
        match self {
            PaneTree::Leaf(p) => if p.channel_id == Some(channel_id) {
                seq![p.id]
            } else {
                seq![]
            },
            PaneTree::Split { first, second, .. } => first.viewers(channel_id) + second.viewers(
                channel_id,
            ),
        }
    }

    /// The tree after splitting the leftmost leaf with id `target`: that leaf becomes a split
    /// (of the given direction, at the default ratio) of itself and a fresh pane `new_id`.
    pub open spec fn split_at(self, target: PaneId, direction: SplitDirection, new_id: PaneId) -> PaneTree
        decreases self,
    {
        match self {
            PaneTree::Leaf(p) => if p.id == target {
                PaneTree::Split {
                    direction,
                    ratio: DEFAULT_RATIO,
                    first: Box::new(self),
                    second: Box::new(PaneTree::Leaf(fresh_pane(new_id))),
                }
            } else {
                self
            },
            PaneTree::Split { direction: d, ratio, first, second } => if first.contains(target) {
                PaneTree::Split {
                    direction: d,
                    ratio,
                    first: Box::new(first.split_at(target, direction, new_id)),
                    second,
                }
            } else {
                PaneTree::Split {
                    direction: d,
                    ratio,
                    first,
                    second: Box::new(second.split_at(target, direction, new_id)),
                }
            },
        }
    }

    /// The tree after removing the leaf `target` from the split that holds it: the sibling
    /// takes the split's place. A split's own direct leaves are looked at first, the first
    /// child before the second; otherwise the search goes down into the child holding `target`.
    pub open spec fn remove_leaf(self, target: PaneId) -> PaneTree
        decreases self,
    {
        match self {
            PaneTree::Leaf(_) => self,
            PaneTree::Split { direction, ratio, first, second } => if first.is_leaf_with(target) {
                *second
            } else if second.is_leaf_with(target) {
                *first
            } else if first.contains(target) {
                PaneTree::Split {
                    direction,
                    ratio,
                    first: Box::new(first.remove_leaf(target)),
                    second,
                }
            } else {
                PaneTree::Split {
                    direction,
                    ratio,
                    first,
                    second: Box::new(second.remove_leaf(target)),
                }
            },
        }
    }

    /// Whether removing `target` changes the tree: the tree is a split and holds `target`.
    pub open spec fn can_remove(self, target: PaneId) -> bool {
        self is Split && self.contains(target)
    }

    /// The ratio the root split would take after a resize by `delta` hundredths.
    pub open spec fn resized_ratio(self, delta: int) -> int {
        match self {
            PaneTree::Leaf(_) => 0,
            PaneTree::Split { ratio, .. } => clamp_ratio(ratio + delta),
        }
    }

    /// Whether a resize for `target` by `delta` changes the tree. Every split that holds
    /// `target` counts as its parent; the outermost one is the root, so only the root
    /// split's ratio is ever adjusted.
    pub open spec fn resize_changes(self, target: PaneId, delta: int) -> bool {
        match self {
            PaneTree::Leaf(_) => false,
            PaneTree::Split { ratio, .. } => self.contains(target) && self.resized_ratio(delta)
                != ratio,
        }
    }

    /// The tree after a resize for `target` by `delta` hundredths.
    pub open spec fn resize_at(self, target: PaneId, delta: int) -> PaneTree {
        match self {
            PaneTree::Leaf(_) => self,
            PaneTree::Split { direction, ratio, first, second } => if self.resize_changes(
                target,
                delta,
            ) {
                PaneTree::Split {
                    direction,
                    ratio: self.resized_ratio(delta) as u32,
                    first,
                    second,
                }
            } else {
                self
            },
        }
    }

    /// Whether every split ratio lies in the range a resize keeps.
    pub open spec fn ratios_in_range(self) -> bool
        decreases self,
    {
        match self {
            PaneTree::Leaf(_) => true,
            PaneTree::Split { ratio, first, second, .. } => MIN_RATIO <= ratio <= MAX_RATIO
                && first.ratios_in_range() && second.ratios_in_range(),
        }
    }
}

/// Binary tree for the pane layout. Each node is either a leaf pane or a split.
#[derive(Debug)]
pub enum PaneNode {
    Leaf(Pane),
    Split {
        direction: SplitDirection,
        /// Share of the area given to `first`, in hundredths.
        ratio: u32,
        first: Box<PaneNode>,
        second: Box<PaneNode>,
    },
}

impl PaneNode {
    /// The model of this node.
    pub open spec fn tree(&self) -> PaneTree
        decreases self,
    {
        match self {
            PaneNode::Leaf(p) => PaneTree::Leaf(p@),
            PaneNode::Split { direction, ratio, first, second } => PaneTree::Split {
                direction: *direction,
                ratio: *ratio,
                first: Box::new(first.tree()),
                second: Box::new(second.tree()),
            },
        }
    }
}

impl View for PaneNode {
    type V = PaneTree;

    open spec fn view(&self) -> PaneTree {
        self.tree()
    }
}


impl PaneNode {
    /// Whether this node is a leaf with the given id.
    fn is_leaf_with(&self, id: PaneId) -> (r: bool)
        ensures
            r == self@.is_leaf_with(id),
    {
        match self {
            PaneNode::Leaf(p) => p.id == id,
            PaneNode::Split { .. } => false,
        }
    }

    /// Finds a leaf by pane id (the leftmost one).
    pub fn find(&self, id: PaneId) -> (r: Option<&Pane>)
        ensures
            match r {
                Some(p) => self@.find(id) == Some(p@),
                None => self@.find(id) is None,
            },
        decreases self,
    {
        match self {
            PaneNode::Leaf(pane) => {
                if pane.id == id {
                    Some(pane)
                } else {
                    None
                }
            },
            PaneNode::Split { first, second, .. } => {
                match first.find(id) {
                    Some(p) => Some(p),
                    None => second.find(id),
                }
            },
        }
    }

    /// Collects the leaf pane ids, left to right.
    pub fn leaves_in_order(&self) -> (r: Vec<PaneId>)
        ensures
            r@ == self@.leaves(),
    {
        let mut result = Vec::new();
        self.collect_leaves(&mut result);
        result
    }

    fn collect_leaves(&self, result: &mut Vec<PaneId>)
        ensures
            final(result)@ == old(result)@ + self@.leaves(),
        decreases self,
    {
        match self {
            PaneNode::Leaf(pane) => result.push(pane.id),
            PaneNode::Split { first, second, .. } => {
                first.collect_leaves(result);
                second.collect_leaves(result);
                assert(final(result)@ =~= old(result)@ + self@.leaves());
            },
        }
    }

    /// Number of leaf panes.
    pub fn leaf_count(&self) -> (r: usize)
        requires
            self@.leaves().len() <= usize::MAX,
        ensures
            r == self@.leaves().len(),
        decreases self,
    {
        match self {
            PaneNode::Leaf(_) => 1,
            PaneNode::Split { first, second, .. } => first.leaf_count() + second.leaf_count(),
        }
    }

    /// Whether a pane with the given id is in this tree.
    pub fn contains(&self, id: PaneId) -> (r: bool)
        ensures
            r == self@.contains(id),
    {
        proof {
            self@.lemma_find_iff_contains(id);
        }
        self.find(id).is_some()
    }

    /// Ids of all leaf panes showing the given channel, left to right.
    pub fn panes_viewing_channel(&self, channel_id: u64) -> (r: Vec<PaneId>)
        ensures
            r@ == self@.viewers(channel_id),
    {
        let mut result = Vec::new();
        self.collect_viewing_channel(channel_id, &mut result);
        result
    }

    fn collect_viewing_channel(&self, channel_id: u64, result: &mut Vec<PaneId>)
        ensures
            final(result)@ == old(result)@ + self@.viewers(channel_id),
        decreases self,
    {
        match self {
            PaneNode::Leaf(pane) => {
                if pane.channel_id == Some(channel_id) {
                    result.push(pane.id);
                } else {
                    assert(final(result)@ =~= old(result)@ + self@.viewers(channel_id));
                }
            },
            PaneNode::Split { first, second, .. } => {
                first.collect_viewing_channel(channel_id, result);
                second.collect_viewing_channel(channel_id, result);
                assert(final(result)@ =~= old(result)@ + self@.viewers(channel_id));
            },
        }
    }
}

impl PaneNode {
    /// A placeholder leaf used while a node is being rebuilt.
    fn placeholder() -> (n: PaneNode)
        ensures
            n@ == PaneTree::Leaf(fresh_pane(PaneId(0))),
    {
        PaneNode::Leaf(Pane::new(PaneId(0)))
    }

    /// Splits the leftmost leaf with id `target`: it becomes a split of itself and a new
    /// pane `new_id`, at the default ratio. Returns whether the target was found.
    pub fn split(&mut self, target_id: PaneId, direction: SplitDirection, new_id: PaneId) -> (r: bool)
        ensures
            r == old(self)@.contains(target_id),
            final(self)@ == old(self)@.split_at(target_id, direction, new_id),
        decreases *old(self),
    {
        let is_target = self.is_leaf_with(target_id);
        if is_target {
            let mut original = PaneNode::placeholder();
            std::mem::swap(&mut original, self);
            proof {
                assert(original@.leaves()[0] == target_id);
            }
            let fresh = PaneNode::Leaf(Pane::new(new_id));
            assert(fresh@ == PaneTree::Leaf(fresh_pane(new_id)));
            *self = PaneNode::Split {
                direction,
                ratio: DEFAULT_RATIO,
                first: Box::new(original),
                second: Box::new(fresh),
            };
            true
        } else {
            match self {
                PaneNode::Leaf(p) => {
                    proof {
                        assert(!old(self)@.leaves().contains(target_id)) by {
                            if old(self)@.leaves().contains(target_id) {
                                assert(old(self)@.leaves()[0] == target_id);
                            }
                        }
                    }
                    false
                },
                PaneNode::Split { first, second, .. } => {
                    proof {
                        vstd::seq_lib::lemma_seq_concat_contains_all_elements(
                            old(self)@->Split_first.leaves(),
                            old(self)@->Split_second.leaves(),
                            target_id,
                        );
                    }
                    let in_first = first.split(target_id, direction, new_id);
                    if in_first {
                        true
                    } else {
                        proof {
                            old(self)@->Split_first.lemma_split_absent(target_id, direction, new_id);
                        }
                        second.split(target_id, direction, new_id)
                    }
                },
            }
        }
    }
}

impl PaneNode {
    /// Removes the leaf `target_id`; its sibling takes the place of the split that held it.
    /// Returns false, leaving the tree unchanged, when the pane is absent or is the only one.
    pub fn remove(&mut self, target_id: PaneId) -> (r: bool)
        ensures
            r == old(self)@.can_remove(target_id),
            final(self)@ == if r {
                old(self)@.remove_leaf(target_id)
            } else {
                old(self)@
            },
    {
        if let PaneNode::Leaf(_) = self {
            return false;
        }
        self.remove_inner(target_id)
    }

    fn remove_inner(&mut self, target_id: PaneId) -> (r: bool)
        ensures
            r == old(self)@.can_remove(target_id),
            final(self)@ == if r {
                old(self)@.remove_leaf(target_id)
            } else {
                old(self)@
            },
        decreases *old(self),
    {
        let hits = match &*self {
            PaneNode::Leaf(_) => None,
            PaneNode::Split { first, second, .. } => Some(
                (first.is_leaf_with(target_id), second.is_leaf_with(target_id)),
            ),
        };
        match hits {
            None => false,
            Some((first_hit, second_hit)) => {
                proof {
                    let t = old(self)@;
                    t->Split_first.lemma_leaf_contains(target_id);
                    t->Split_second.lemma_leaf_contains(target_id);
                    vstd::seq_lib::lemma_seq_concat_contains_all_elements(
                        t->Split_first.leaves(),
                        t->Split_second.leaves(),
                        target_id,
                    );
                }
                if first_hit || second_hit {
                    let mut node = PaneNode::placeholder();
                    std::mem::swap(&mut node, self);
                    match node {
                        PaneNode::Split { first, second, .. } => {
                            if first_hit {
                                *self = *second;
                            } else {
                                *self = *first;
                            }
                        },
                        PaneNode::Leaf(p) => {
                            *self = PaneNode::Leaf(p);
                        },
                    }
                    true
                } else {
                    match self {
                        PaneNode::Leaf(_) => false,
                        PaneNode::Split { first, second, .. } => {
                            if first.remove_inner(target_id) {
                                true
                            } else {
                                second.remove_inner(target_id)
                            }
                        },
                    }
                }
            },
        }
    }

    /// Adjusts the ratio of the split that holds `target_id` by `delta` hundredths, limited to
    /// the resize range. Returns whether the ratio changed.
    pub fn resize(&mut self, target_id: PaneId, delta: i32) -> (r: bool)
        ensures
            r == old(self)@.resize_changes(target_id, delta as int),
            final(self)@ == old(self)@.resize_at(target_id, delta as int),
    {
        let inside = self.contains(target_id);
        match self {
            PaneNode::Leaf(_) => false,
            PaneNode::Split { ratio, .. } => {
                if inside {
                    let wanted: i64 = *ratio as i64 + delta as i64;
                    let new_ratio: u32 = if wanted < MIN_RATIO as i64 {
                        MIN_RATIO
                    } else if wanted > MAX_RATIO as i64 {
                        MAX_RATIO
                    } else {
                        wanted as u32
                    };
                    if new_ratio != *ratio {
                        *ratio = new_ratio;
                        true
                    } else {
                        false
                    }
                } else {
                    false
                }
            },
        }
    }

    /// Finds a leaf by pane id (the leftmost one), for modification.
    pub fn find_mut(&mut self, id: PaneId) -> (r: Option<&mut Pane>)
        ensures
            old(self)@.find(id) is None ==> r is None && final(self)@ == old(self)@,
            old(self)@.find(id) matches Some(p) ==> r is Some && (*r.unwrap())@ == p
                && final(self)@ == old(self)@.replace(id, (*final(r.unwrap()))@),
        decreases *old(self),
    {
        match self {
            PaneNode::Leaf(pane) => {
                if pane.id == id {
                    Some(pane)
                } else {
                    None
                }
            },
            PaneNode::Split { first, second, .. } => {
                proof {
                    old(self)@->Split_first.lemma_find_iff_contains(id);
                }
                if first.contains(id) {
                    first.find_mut(id)
                } else {
                    second.find_mut(id)
                }
            },
        }
    }
}

impl PaneTree {
    /// A leaf holds exactly its own id.
    pub proof fn lemma_leaf_contains(self, id: PaneId)
        ensures
            self is Leaf ==> (self.contains(id) <==> self.is_leaf_with(id)),
    {
        if let PaneTree::Leaf(p) = self {
            if p.id == id {
                assert(self.leaves()[0] == id);
            }
        }
    }

    /// Splitting at an id that no leaf has leaves the tree unchanged.
    pub proof fn lemma_split_absent(self, target: PaneId, direction: SplitDirection, new_id: PaneId)
        requires
            !self.contains(target),
        ensures
            self.split_at(target, direction, new_id) == self,
        decreases self,
    {
        match self {
            PaneTree::Leaf(p) => {
                if p.id == target {
                    assert(self.leaves()[0] == target);
                }
            },
            PaneTree::Split { first, second, .. } => {
                vstd::seq_lib::lemma_seq_concat_contains_all_elements(first.leaves(), second.leaves(), target);
                first.lemma_split_absent(target, direction, new_id);
                second.lemma_split_absent(target, direction, new_id);
            },
        }
    }

    /// `find` succeeds exactly for the ids that some leaf has.
    pub proof fn lemma_find_iff_contains(self, id: PaneId)
        ensures
            self.find(id) is Some <==> self.contains(id),
            self.find(id) matches Some(p) ==> p.id == id,
        decreases self,
    {
        match self {
            PaneTree::Leaf(p) => {
                if p.id == id {
                    assert(self.leaves()[0] == id);
                }
            },
            PaneTree::Split { first, second, .. } => {
                first.lemma_find_iff_contains(id);
                second.lemma_find_iff_contains(id);
                vstd::seq_lib::lemma_seq_concat_contains_all_elements(first.leaves(), second.leaves(), id);
            },
        }
    }
}

/// Whether `i` is the first position of `x` in `s`.
pub open spec fn is_first_index(s: Seq<PaneId>, x: PaneId, i: int) -> bool {
    &&& 0 <= i < s.len()
    &&& s[i] == x
    &&& forall|j: int| 0 <= j < i ==> s[j] != x
}

/// The first position of `x` in `s`, if any.
pub open spec fn first_index(s: Seq<PaneId>, x: PaneId) -> Option<int> {
    if exists|i: int| is_first_index(s, x, i) {
        Some(choose|i: int| is_first_index(s, x, i))
    } else {
        None
    }
}

/// The first index of `x` in `v`.
fn position(v: &Vec<PaneId>, x: PaneId) -> (r: Option<usize>)
    ensures
        r == match first_index(v@, x) {
            Some(i) => Some(i as usize),
            None => None::<usize>,
        },
        r is None <==> !v@.contains(x),
{
    let mut i: usize = 0;
    while i < v.len()
        invariant
            i <= v.len(),
            forall|j: int| 0 <= j < i ==> v@[j] != x,
        decreases v.len() - i,
    {
        if v[i] == x {
            proof {
                assert(is_first_index(v@, x, i as int));
                let k = choose|k: int| is_first_index(v@, x, k);
                assert(k == i) by {
                    if k < i {
                        assert(v@[k] != x);
                    }
                    if i < k {
                        assert(v@[i as int] != x);
                    }
                }
            }
            return Some(i);
        }
        i = i + 1;
    }
    proof {
        assert(!exists|k: int| is_first_index(v@, x, k));
        assert(!v@.contains(x)) by {
            if v@.contains(x) {
                let k = choose|k: int| 0 <= k < v@.len() && v@[k] == x;
                assert(v@[k] != x);
            }
        }
    }
    None
}

/// Manages the pane tree, focus, zoom and the allocation of pane ids.
#[derive(Debug)]
pub struct PaneManager {
    pub root: PaneNode,
    pub focused_pane_id: PaneId,
    pub zoom_state: Option<PaneId>,
    /// The next pane id to hand out.
    pub next_id: u32,
}

/// Where focus goes after closing the pane at position `idx` of the old leaves: the same
/// position in the new leaves, or the last one when the closed pane was last.
pub open spec fn focus_after_close(new_leaves: Seq<PaneId>, idx: int) -> PaneId {
    if idx >= new_leaves.len() {
        new_leaves[new_leaves.len() - 1]
    } else {
        new_leaves[idx]
    }
}

/// The model of a pane assigned to a channel: scroll, input and selection reset.
pub open spec fn assigned_pane(p: PaneView, channel_id: u64, guild_id: Option<u64>) -> PaneView {
    PaneView {
        id: p.id,
        channel_id: Some(channel_id),
        guild_id,
        scroll: ScrollState::Following,
        input: InputView::empty(),
        selected_message: None,
        confirming_delete: None,
    }
}

impl Default for PaneManager {
    fn default() -> (pm: Self)
        ensures
            pm.root@ == PaneTree::Leaf(fresh_pane(PaneId(0))),
            pm.focused_pane_id == PaneId(0),
            pm.zoom_state is None,
            pm.spec_next_id() == 1,
            pm.wf(),
    {
        PaneManager::new()
    }
}

impl PaneManager {
    /// The next pane id to hand out.
    pub open spec fn spec_next_id(&self) -> u32 {
        self.next_id
    }

    /// Leaf ids are distinct and all below the next id to hand out.
    pub open spec fn wf(&self) -> bool {
        &&& self.root@.leaves().no_duplicates()
        &&& forall|i: int|
            0 <= i < self.root@.leaves().len() ==> (#[trigger] self.root@.leaves()[i]).0
                < self.spec_next_id()
    }

    /// A single fresh pane with id 0, focused, unzoomed.
    pub fn new() -> (pm: Self)
        ensures
            pm.root@ == PaneTree::Leaf(fresh_pane(PaneId(0))),
            pm.focused_pane_id == PaneId(0),
            pm.zoom_state is None,
            pm.spec_next_id() == 1,
            pm.wf(),
    {
        let first_id = PaneId(0);
        let pm = PaneManager {
            root: PaneNode::Leaf(Pane::new(first_id)),
            focused_pane_id: first_id,
            zoom_state: None,
            next_id: 1,
        };
        assert(pm.root@.leaves() =~= seq![first_id]);
        pm
    }

    fn allocate_id(&mut self) -> (id: PaneId)
        requires
            old(self).spec_next_id() < u32::MAX,
        ensures
            id == PaneId(old(self).spec_next_id()),
            final(self).spec_next_id() == old(self).spec_next_id() + 1,
            final(self).root@ == old(self).root@,
            final(self).focused_pane_id == old(self).focused_pane_id,
            final(self).zoom_state == old(self).zoom_state,
    {
        let id = PaneId(self.next_id);
        self.next_id = self.next_id + 1;
        id
    }

    /// Splits the focused pane; the new pane takes the next id and is returned.
    pub fn split(&mut self, direction: SplitDirection) -> (new_id: PaneId)
        requires
            old(self).spec_next_id() < u32::MAX,
        ensures
            new_id == PaneId(old(self).spec_next_id()),
            final(self).spec_next_id() == old(self).spec_next_id() + 1,
            final(self).root@ == old(self).root@.split_at(
                old(self).focused_pane_id,
                direction,
                new_id,
            ),
            final(self).focused_pane_id == old(self).focused_pane_id,
            final(self).zoom_state == old(self).zoom_state,
    {
        let new_id = self.allocate_id();
        let target = self.focused_pane_id;
        self.root.split(target, direction, new_id);
        new_id
    }

    /// Closes the focused pane; focus moves to the pane now at the same position (or the
    /// last one), and a zoom on the closed pane is cleared. Returns false, changing nothing,
    /// when it is the only pane or is not in the tree.
    pub fn close_focused(&mut self) -> (r: bool)
        requires
            old(self).root@.leaves().len() < usize::MAX,
        ensures
            r == (old(self).root@.leaves().len() > 1 && old(self).root@.contains(
                old(self).focused_pane_id,
            )),
            r ==> {
                &&& final(self).root@ == old(self).root@.remove_leaf(old(self).focused_pane_id)
                &&& final(self).focused_pane_id == focus_after_close(
                    final(self).root@.leaves(),
                    first_index(old(self).root@.leaves(), old(self).focused_pane_id).unwrap(),
                )
                &&& final(self).zoom_state == if old(self).zoom_state == Some(
                    old(self).focused_pane_id,
                ) {
                    None
                } else {
                    old(self).zoom_state
                }
            },
            !r ==> {
                &&& final(self).root@ == old(self).root@
                &&& final(self).focused_pane_id == old(self).focused_pane_id
                &&& final(self).zoom_state == old(self).zoom_state
            },
            final(self).spec_next_id() == old(self).spec_next_id(),
    {
        if self.root.leaf_count() <= 1 {
            return false;
        }
        let closing_id = self.focused_pane_id;
        let leaves = self.root.leaves_in_order();
        let current_idx = position(&leaves, closing_id);
        proof {
            old(self).root@.lemma_leaf_contains(closing_id);
        }
        let removed = self.root.remove(closing_id);
        if removed {
            let new_leaves = self.root.leaves_in_order();
            proof {
                self.root@.lemma_leaves_nonempty();
            }
            if let Some(idx) = current_idx {
                let next_idx = if idx >= new_leaves.len() {
                    new_leaves.len() - 1
                } else {
                    idx
                };
                self.focused_pane_id = new_leaves[next_idx];
            }
            if self.zoom_state == Some(closing_id) {
                self.zoom_state = None;
            }
        }
        removed
    }

    /// Cycles focus to the next pane in leaf order.
    pub fn focus_next(&mut self)
        ensures
            final(self).focused_pane_id == next_focus(old(self).root@.leaves(), old(self).focused_pane_id),
            final(self).root@ == old(self).root@,
            final(self).zoom_state == old(self).zoom_state,
            final(self).spec_next_id() == old(self).spec_next_id(),
    {
        let leaves = self.root.leaves_in_order();
        if leaves.len() <= 1 {
            return;
        }
        if let Some(idx) = position(&leaves, self.focused_pane_id) {
            let next_idx = (idx + 1) % leaves.len();
            self.focused_pane_id = leaves[next_idx];
        }
    }

    /// Cycles focus to the previous pane in leaf order.
    pub fn focus_prev(&mut self)
        ensures
            final(self).focused_pane_id == prev_focus(old(self).root@.leaves(), old(self).focused_pane_id),
            final(self).root@ == old(self).root@,
            final(self).zoom_state == old(self).zoom_state,
            final(self).spec_next_id() == old(self).spec_next_id(),
    {
        let leaves = self.root.leaves_in_order();
        if leaves.len() <= 1 {
            return;
        }
        if let Some(idx) = position(&leaves, self.focused_pane_id) {
            let prev_idx = if idx == 0 {
                leaves.len() - 1
            } else {
                idx - 1
            };
            self.focused_pane_id = leaves[prev_idx];
        }
    }

    /// The focused pane.
    pub fn focused_pane(&self) -> (r: Option<&Pane>)
        ensures
            match r {
                Some(p) => self.root@.find(self.focused_pane_id) == Some(p@),
                None => self.root@.find(self.focused_pane_id) is None,
            },
    {
        self.root.find(self.focused_pane_id)
    }

    /// The focused pane, for modification.
    pub fn focused_pane_mut(&mut self) -> (r: Option<&mut Pane>)
        ensures
            old(self).root@.find(old(self).focused_pane_id) is None ==> r is None && final(self).root@
                == old(self).root@,
            old(self).root@.find(old(self).focused_pane_id) matches Some(p) ==> r is Some && (
            *r.unwrap())@ == p && final(self).root@ == old(self).root@.replace(
                old(self).focused_pane_id,
                (*final(r.unwrap()))@,
            ),
            final(self).focused_pane_id == old(self).focused_pane_id,
            final(self).zoom_state == old(self).zoom_state,
            final(self).spec_next_id() == old(self).spec_next_id(),
    {
        let id = self.focused_pane_id;
        self.root.find_mut(id)
    }

    /// Zooms the focused pane, or clears the zoom if one is set.
    pub fn toggle_zoom(&mut self)
        ensures
            final(self).zoom_state == if old(self).zoom_state is Some {
                None
            } else {
                Some(old(self).focused_pane_id)
            },
            final(self).root@ == old(self).root@,
            final(self).focused_pane_id == old(self).focused_pane_id,
            final(self).spec_next_id() == old(self).spec_next_id(),
    {
        if self.zoom_state.is_some() {
            self.zoom_state = None;
        } else {
            self.zoom_state = Some(self.focused_pane_id);
        }
    }

    /// Total number of leaf panes.
    pub fn pane_count(&self) -> (r: usize)
        requires
            self.root@.leaves().len() <= usize::MAX,
        ensures
            r == self.root@.leaves().len(),
    {
        self.root.leaf_count()
    }

    /// All pane ids in leaf order.
    pub fn all_pane_ids(&self) -> (r: Vec<PaneId>)
        ensures
            r@ == self.root@.leaves(),
    {
        self.root.leaves_in_order()
    }

    /// Assigns a channel (and optional guild) to the focused pane, resetting its scroll,
    /// input and selection. Does nothing when the focused pane is not in the tree.
    pub fn assign_channel(&mut self, channel_id: u64, guild_id: Option<u64>)
        ensures
            old(self).root@.find(old(self).focused_pane_id) matches Some(p) ==> final(self).root@
                == old(self).root@.replace(
                old(self).focused_pane_id,
                assigned_pane(p, channel_id, guild_id),
            ),
            old(self).root@.find(old(self).focused_pane_id) is None ==> final(self).root@
                == old(self).root@,
            final(self).focused_pane_id == old(self).focused_pane_id,
            final(self).zoom_state == old(self).zoom_state,
            final(self).spec_next_id() == old(self).spec_next_id(),
    {
        if let Some(pane) = self.focused_pane_mut() {
            pane.channel_id = Some(channel_id);
            pane.guild_id = guild_id;
            pane.scroll = ScrollState::Following;
            pane.input = InputState::empty();
            pane.selected_message = None;
            pane.confirming_delete = None;
        }
    }
}

/// Focus after moving to the next pane: the pane after `focused` in leaf order, wrapping
/// around; unchanged with a single pane or when `focused` is not a leaf.
pub open spec fn next_focus(leaves: Seq<PaneId>, focused: PaneId) -> PaneId {
    if leaves.len() <= 1 {
        focused
    } else {
        match first_index(leaves, focused) {
            Some(i) => leaves[(i + 1) % (leaves.len() as int)],
            None => focused,
        }
    }
}

/// Focus after moving to the previous pane: the pane before `focused` in leaf order,
/// wrapping around; unchanged with a single pane or when `focused` is not a leaf.
pub open spec fn prev_focus(leaves: Seq<PaneId>, focused: PaneId) -> PaneId {
    if leaves.len() <= 1 {
        focused
    } else {
        match first_index(leaves, focused) {
            Some(i) => if i == 0 {
                leaves[leaves.len() - 1]
            } else {
                leaves[i - 1]
            },
            None => focused,
        }
    }
}

impl PaneTree {
    /// Every tree has at least one leaf.
    pub proof fn lemma_leaves_nonempty(self)
        ensures
            self.leaves().len() >= 1,
        decreases self,
    {
        if let PaneTree::Split { first, second, .. } = self {
            first.lemma_leaves_nonempty();
        }
    }
}

/// A rectangular area of the terminal.
#[derive(Debug, Clone, Copy, PartialEq, Eq, Structural, Default)]
pub struct Rect {
    pub x: u16,
    pub y: u16,
    pub width: u16,
    pub height: u16,
}

impl Rect {
    /// The rectangle at (x, y) with the given size, shrunk so that it ends on the screen.
    pub open spec fn spec_new(x: u16, y: u16, width: u16, height: u16) -> Rect {
        Rect {
            x,
            y,
            width: if width > u16::MAX - x {
                (u16::MAX - x) as u16
            } else {
                width
            },
            height: if height > u16::MAX - y {
                (u16::MAX - y) as u16
            } else {
                height
            },
        }
    }

    /// A rectangle, shrunk so that its right and bottom edges stay within the coordinate range.
    pub fn new(x: u16, y: u16, width: u16, height: u16) -> (r: Rect)
        ensures
            r == Rect::spec_new(x, y, width, height),
    {
        let max_width = u16::MAX - x;
        let max_height = u16::MAX - y;
        let width = if width > max_width {
            max_width
        } else {
            width
        };
        let height = if height > max_height {
            max_height
        } else {
            height
        };
        Rect { x, y, width, height }
    }

    /// The right and bottom edges lie within the coordinate range.
    pub open spec fn fits(self) -> bool {
        self.x + self.width <= u16::MAX && self.y + self.height <= u16::MAX
    }

    /// This rectangle lies within `outer`.
    pub open spec fn within(self, outer: Rect) -> bool {
        &&& outer.x <= self.x
        &&& outer.y <= self.y
        &&& self.x + self.width <= outer.x + outer.width
        &&& self.y + self.height <= outer.y + outer.height
    }

    /// Horizontal center.
    pub open spec fn center_x(self) -> int {
        self.x + self.width / 2
    }

    /// Vertical center.
    pub open spec fn center_y(self) -> int {
        self.y + self.height / 2
    }
}

/// The length given to the first part when `len` is split at `ratio` hundredths: the share
/// rounded to the nearest integer (halves up), at most `len`.
pub open spec fn first_share(len: int, ratio: int) -> int {
    let rounded = (len * ratio + 50) / 100;
    if rounded > len {
        len
    } else {
        rounded
    }
}

/// The two parts of `area` after a split in `direction` at `ratio` hundredths: top and bottom
/// for a horizontal split, left and right for a vertical one.
pub open spec fn split_rects(area: Rect, direction: SplitDirection, ratio: u32) -> (Rect, Rect) {
    match direction {
        SplitDirection::Horizontal => {
            let h = first_share(area.height as int, ratio as int);
            (
                Rect::spec_new(area.x, area.y, area.width, h as u16),
                Rect::spec_new(area.x, (area.y + h) as u16, area.width, (area.height - h) as u16),
            )
        },
        SplitDirection::Vertical => {
            let w = first_share(area.width as int, ratio as int);
            (
                Rect::spec_new(area.x, area.y, w as u16, area.height),
                Rect::spec_new((area.x + w) as u16, area.y, (area.width - w) as u16, area.height),
            )
        },
    }
}

fn share(len: u16, ratio: u32) -> (r: u16)
    ensures
        r == first_share(len as int, ratio as int),
        r <= len,
{
    proof {
        assert((len as int) * (ratio as int) <= 65535 * 4294967295) by (nonlinear_arith)
            requires
                len <= 65535,
                ratio <= 4294967295,
        ;
    }
    let rounded: u64 = (len as u64 * ratio as u64 + 50) / 100;
    if rounded > len as u64 {
        len
    } else {
        rounded as u16
    }
}

/// Splits `area` into two parts by direction and ratio (in hundredths).
pub fn split_area(area: Rect, direction: SplitDirection, ratio: u32) -> (r: (Rect, Rect))
    requires
        area.fits(),
    ensures
        r == split_rects(area, direction, ratio),
{
    match direction {
        SplitDirection::Horizontal => {
            let first_height = share(area.height, ratio);
            let second_height = area.height - first_height;
            (
                Rect::new(area.x, area.y, area.width, first_height),
                Rect::new(area.x, area.y + first_height, area.width, second_height),
            )
        },
        SplitDirection::Vertical => {
            let first_width = share(area.width, ratio);
            let second_width = area.width - first_width;
            (
                Rect::new(area.x, area.y, first_width, area.height),
                Rect::new(area.x + first_width, area.y, second_width, area.height),
            )
        },
    }
}

impl PaneTree {
    /// The area of each leaf, in leaf order, when the tree is laid out in `area`.
    pub open spec fn positions(self, area: Rect) -> Seq<(PaneId, Rect)>
        decreases self,
    {
        match self {
            PaneTree::Leaf(p) => seq![(p.id, area)],
            PaneTree::Split { direction, ratio, first, second } => {
                let (a, b) = split_rects(area, direction, ratio);
                first.positions(a) + second.positions(b)
            },
        }
    }
}

fn compute_positions_inner(node: &PaneNode, area: Rect, positions: &mut Vec<(PaneId, Rect)>)
    requires
        area.fits(),
    ensures
        final(positions)@ == old(positions)@ + node@.positions(area),
    decreases node,
{
    match node {
        PaneNode::Leaf(pane) => {
            positions.push((pane.id, area));
        },
        PaneNode::Split { direction, ratio, first, second } => {
            let (first_area, second_area) = split_area(area, *direction, *ratio);
            compute_positions_inner(first, first_area, positions);
            compute_positions_inner(second, second_area, positions);
            assert(final(positions)@ =~= old(positions)@ + node@.positions(area));
        },
    }
}

/// No pane id occurs twice in a list of pane areas (each pane has one area).
pub open spec fn ids_distinct(ps: Seq<(PaneId, Rect)>) -> bool {
    forall|i: int, j: int| 0 <= i < j < ps.len() ==> #[trigger] ps[i].0 != #[trigger] ps[j].0
}

/// The first entry for `id` in a list of pane areas.
pub open spec fn is_first_entry(ps: Seq<(PaneId, Rect)>, id: PaneId, i: int) -> bool {
    &&& 0 <= i < ps.len()
    &&& ps[i].0 == id
    &&& forall|j: int| 0 <= j < i ==> ps[j].0 != id
}

/// The area listed for `id` (its first entry), if any.
pub open spec fn lookup_rect(ps: Seq<(PaneId, Rect)>, id: PaneId) -> Option<Rect> {
    if exists|i: int| is_first_entry(ps, id, i) {
        Some(ps[choose|i: int| is_first_entry(ps, id, i)].1)
    } else {
        None
    }
}

fn find_rect(ps: &Vec<(PaneId, Rect)>, id: PaneId) -> (r: Option<Rect>)
    ensures
        r == lookup_rect(ps@, id),
{
    let mut i: usize = 0;
    while i < ps.len()
        invariant
            i <= ps.len(),
            forall|j: int| 0 <= j < i ==> ps@[j].0 != id,
        decreases ps.len() - i,
    {
        if ps[i].0 == id {
            proof {
                assert(is_first_entry(ps@, id, i as int));
                let k = choose|k: int| is_first_entry(ps@, id, k);
                assert(k == i) by {
                    if k < i {
                        assert(ps@[k].0 != id);
                    }
                    if i < k {
                        assert(ps@[i as int].0 != id);
                    }
                }
            }
            return Some(ps[i].1);
        }
        i = i + 1;
    }
    None
}

/// Whether `cand` lies strictly in `dir` from `cur`, judged by centers.
pub open spec fn in_direction(dir: Direction, cur: Rect, cand: Rect) -> bool {
    match dir {
        Direction::Up => cand.center_y() < cur.center_y(),
        Direction::Down => cand.center_y() > cur.center_y(),
        Direction::Left => cand.center_x() < cur.center_x(),
        Direction::Right => cand.center_x() > cur.center_x(),
    }
}

/// Absolute value.
pub open spec fn abs(v: int) -> int {
    if v < 0 {
        -v
    } else {
        v
    }
}

/// Distance from `cur` to `cand` for a move in `dir`: the distance of the centers along the
/// axis of movement plus half (rounded down) the distance along the other axis.
pub open spec fn move_distance(dir: Direction, cur: Rect, cand: Rect) -> int {
    let dx = abs(cand.center_x() - cur.center_x());
    let dy = abs(cand.center_y() - cur.center_y());
    match dir {
        Direction::Up | Direction::Down => dy + dx / 2,
        Direction::Left | Direction::Right => dx + dy / 2,
    }
}

/// Entry `i` is a pane other than `focused` that lies in `dir` from `cur`.
pub open spec fn is_candidate(
    ps: Seq<(PaneId, Rect)>,
    focused: PaneId,
    cur: Rect,
    dir: Direction,
    i: int,
) -> bool {
    0 <= i < ps.len() && ps[i].0 != focused && in_direction(dir, cur, ps[i].1)
}

/// Entry `i` is the candidate a directional move picks: no candidate is nearer, and every
/// earlier candidate is strictly farther.
pub open spec fn is_best_candidate(
    ps: Seq<(PaneId, Rect)>,
    focused: PaneId,
    cur: Rect,
    dir: Direction,
    i: int,
) -> bool {
    &&& is_candidate(ps, focused, cur, dir, i)
    &&& forall|j: int|
        is_candidate(ps, focused, cur, dir, j) ==> move_distance(dir, cur, ps[i].1)
            <= move_distance(dir, cur, ps[j].1)
    &&& forall|j: int|
        0 <= j < i && is_candidate(ps, focused, cur, dir, j) ==> move_distance(dir, cur, ps[j].1)
            > move_distance(dir, cur, ps[i].1)
}

/// The pane a directional move from `focused` lands on, if any.
pub open spec fn direction_target(ps: Seq<(PaneId, Rect)>, focused: PaneId, dir: Direction) -> Option<
    PaneId,
> {
    match lookup_rect(ps, focused) {
        None => None,
        Some(cur) => if exists|i: int| is_best_candidate(ps, focused, cur, dir, i) {
            Some(ps[choose|i: int| is_best_candidate(ps, focused, cur, dir, i)].0)
        } else {
            None
        },
    }
}

/// Minimum usable pane width, in columns.
pub const MIN_PANE_WIDTH: u16 = 10;

/// Minimum usable pane height, in rows.
pub const MIN_PANE_HEIGHT: u16 = 4;

/// Whether both halves of `r`, split in `direction`, meet the minimum pane size.
pub open spec fn splittable(r: Rect, direction: SplitDirection) -> bool {
    match direction {
        SplitDirection::Horizontal => r.height / 2 >= MIN_PANE_HEIGHT && r.width >= MIN_PANE_WIDTH,
        SplitDirection::Vertical => r.width / 2 >= MIN_PANE_WIDTH && r.height >= MIN_PANE_HEIGHT,
    }
}

/// Ratio change, in hundredths, of a resize of the focused pane in `dir` by `delta` steps of
/// five hundredths: left and up shrink the first part, right and down grow it.
pub open spec fn resize_adjustment(dir: Direction, delta: i16) -> int {
    match dir {
        Direction::Left | Direction::Up => -(delta * 5),
        Direction::Right | Direction::Down => delta * 5,
    }
}

fn center(pos: u16, len: u16) -> (c: i32)
    ensures
        c == pos + len / 2,
{
    pos as i32 + len as i32 / 2
}

fn abs_i32(v: i32) -> (r: i32)
    requires
        v > i32::MIN,
    ensures
        r == abs(v as int),
{
    if v < 0 {
        -v
    } else {
        v
    }
}

impl PaneManager {
    /// Moves focus to the nearest pane in `dir`, judged by the centers of the given areas.
    /// Among equally near panes the earliest listed wins. Returns whether focus changed.
    pub fn focus_direction(&mut self, dir: Direction, positions: &Vec<(PaneId, Rect)>) -> (r: bool)
        requires
            ids_distinct(positions@),
        ensures
            r == direction_target(positions@, old(self).focused_pane_id, dir) is Some,
            final(self).focused_pane_id == match direction_target(
                positions@,
                old(self).focused_pane_id,
                dir,
            ) {
                Some(t) => t,
                None => old(self).focused_pane_id,
            },
            final(self).root@ == old(self).root@,
            final(self).zoom_state == old(self).zoom_state,
            final(self).spec_next_id() == old(self).spec_next_id(),
    {
        let current_rect = match find_rect(positions, self.focused_pane_id) {
            Some(r) => r,
            None => return false,
        };
        let focused = self.focused_pane_id;
        let center_x = center(current_rect.x, current_rect.width);
        let center_y = center(current_rect.y, current_rect.height);
        let ghost ps = positions@;
        let mut best: Option<(usize, i32)> = None;
        let mut i: usize = 0;
        while i < positions.len()
            invariant
                i <= positions.len(),
                ps == positions@,
                center_x == current_rect.center_x(),
                center_y == current_rect.center_y(),
                match best {
                    None => forall|j: int|
                        0 <= j < i ==> !is_candidate(ps, focused, current_rect, dir, j),
                    Some((b, d)) => {
                        &&& b < i
                        &&& d == move_distance(dir, current_rect, ps[b as int].1)
                        &&& is_candidate(ps, focused, current_rect, dir, b as int)
                        &&& forall|j: int|
                            0 <= j < i && is_candidate(ps, focused, current_rect, dir, j)
                                ==> d <= move_distance(dir, current_rect, ps[j].1)
                        &&& forall|j: int|
                            0 <= j < b && is_candidate(ps, focused, current_rect, dir, j)
                                ==> move_distance(dir, current_rect, ps[j].1) > d
                    },
                },
            decreases positions.len() - i,
        {
            let (pane_id, rect) = positions[i];
            if pane_id != focused {
                let px = center(rect.x, rect.width);
                let py = center(rect.y, rect.height);
                let in_dir = match dir {
                    Direction::Up => py < center_y,
                    Direction::Down => py > center_y,
                    Direction::Left => px < center_x,
                    Direction::Right => px > center_x,
                };
                if in_dir {
                    let distance = match dir {
                        Direction::Up | Direction::Down => abs_i32(py - center_y) + abs_i32(
                            px - center_x,
                        ) / 2,
                        Direction::Left | Direction::Right => abs_i32(px - center_x) + abs_i32(
                            py - center_y,
                        ) / 2,
                    };
                    let better = match best {
                        None => true,
                        Some((_, d)) => distance < d,
                    };
                    if better {
                        best = Some((i, distance));
                    }
                }
            }
            i = i + 1;
        }
        match best {
            Some((b, _)) => {
                proof {
                    assert(is_best_candidate(ps, focused, current_rect, dir, b as int));
                    let k = choose|k: int| is_best_candidate(ps, focused, current_rect, dir, k);
                    assert(k == b as int) by {
                        if k < b {
                            assert(is_candidate(ps, focused, current_rect, dir, k));
                        }
                        if b < k {
                            assert(is_candidate(ps, focused, current_rect, dir, b as int));
                        }
                    }
                }
                self.focused_pane_id = positions[b].0;
                true
            },
            None => {
                proof {
                    assert(!exists|k: int| is_best_candidate(ps, focused, current_rect, dir, k));
                }
                false
            },
        }
    }

    /// Whether splitting the focused pane in `direction` leaves both halves at least the
    /// minimum size (10 columns, 4 rows); false when the focused pane has no listed area.
    pub fn can_split(&self, direction: SplitDirection, positions: &Vec<(PaneId, Rect)>) -> (r: bool)
        ensures
            r == match lookup_rect(positions@, self.focused_pane_id) {
                Some(cur) => splittable(cur, direction),
                None => false,
            },
    {
        let current_rect = match find_rect(positions, self.focused_pane_id) {
            Some(r) => r,
            None => return false,
        };
        match direction {
            SplitDirection::Horizontal => {
                let half_height = current_rect.height / 2;
                half_height >= MIN_PANE_HEIGHT && current_rect.width >= MIN_PANE_WIDTH
            },
            SplitDirection::Vertical => {
                let half_width = current_rect.width / 2;
                half_width >= MIN_PANE_WIDTH && current_rect.height >= MIN_PANE_HEIGHT
            },
        }
    }

    /// Splits the focused pane only when both halves would be large enough.
    pub fn try_split(&mut self, direction: SplitDirection, positions: &Vec<(PaneId, Rect)>) -> (r:
        Option<PaneId>)
        requires
            old(self).spec_next_id() < u32::MAX,
        ensures
            match lookup_rect(positions@, old(self).focused_pane_id) {
                Some(cur) => splittable(cur, direction),
                None => false,
            } ==> {
                &&& r == Some(PaneId(old(self).spec_next_id()))
                &&& final(self).spec_next_id() == old(self).spec_next_id() + 1
                &&& final(self).root@ == old(self).root@.split_at(
                    old(self).focused_pane_id,
                    direction,
                    PaneId(old(self).spec_next_id()),
                )
            },
            !match lookup_rect(positions@, old(self).focused_pane_id) {
                Some(cur) => splittable(cur, direction),
                None => false,
            } ==> {
                &&& r is None
                &&& final(self).spec_next_id() == old(self).spec_next_id()
                &&& final(self).root@ == old(self).root@
            },
            final(self).focused_pane_id == old(self).focused_pane_id,
            final(self).zoom_state == old(self).zoom_state,
    {
        if self.can_split(direction, positions) {
            Some(self.split(direction))
        } else {
            None
        }
    }

    /// Resizes the split holding the focused pane: each step of `delta` is five hundredths;
    /// right and down grow the first part, left and up shrink it. Returns whether it changed.
    pub fn resize_focused(&mut self, dir: Direction, delta: i16) -> (r: bool)
        ensures
            r == old(self).root@.resize_changes(
                old(self).focused_pane_id,
                resize_adjustment(dir, delta),
            ),
            final(self).root@ == old(self).root@.resize_at(
                old(self).focused_pane_id,
                resize_adjustment(dir, delta),
            ),
            final(self).focused_pane_id == old(self).focused_pane_id,
            final(self).zoom_state == old(self).zoom_state,
            final(self).spec_next_id() == old(self).spec_next_id(),
    {
        let resize_delta: i32 = delta as i32 * 5;
        let adjustment: i32 = match dir {
            Direction::Left | Direction::Up => -resize_delta,
            Direction::Right | Direction::Down => resize_delta,
        };
        let target = self.focused_pane_id;
        self.root.resize(target, adjustment)
    }

    /// The area of each leaf pane, in leaf order, when the layout fills `area`.
    pub fn compute_positions(&self, area: Rect) -> (r: Vec<(PaneId, Rect)>)
        requires
            area.fits(),
        ensures
            r@ == self.root@.positions(area),
            r@.len() == self.root@.leaves().len(),
            forall|i: int| 0 <= i < r@.len() ==> (#[trigger] r@[i]).0 == self.root@.leaves()[i],
            self.wf() ==> ids_distinct(r@),
    {
        let mut positions = Vec::new();
        compute_positions_inner(&self.root, area, &mut positions);
        assert(positions@ =~= self.root@.positions(area));
        proof {
            crate::pane_laws::law_positions_cover_leaves(self.root@, area);
            if self.wf() {
                let l = self.root@.leaves();
                assert forall|i: int, j: int| 0 <= i < j < positions@.len() implies #[trigger] positions@[i].0
                    != #[trigger] positions@[j].0 by {
                    assert(positions@[i].0 == l[i]);
                    assert(positions@[j].0 == l[j]);
                }
            }
        }
        positions
    }
}

/// Pane state kept across sessions.
#[derive(Debug, Clone, Copy, PartialEq, Eq, Structural)]
pub struct SessionPane {
    pub id: PaneId,
    pub channel_id: Option<u64>,
    pub guild_id: Option<u64>,
}

/// Pane tree node as kept across sessions.
#[derive(Debug)]
pub enum SessionNode {
    Leaf(SessionPane),
    Split {
        direction: SplitDirection,
        /// Share of the area given to `first`, in hundredths.
        ratio: u32,
        first: Box<SessionNode>,
        second: Box<SessionNode>,
    },
}

/// Pane layout as kept across sessions.
#[derive(Debug)]
pub struct SessionLayout {
    pub root: SessionNode,
    pub focused_pane_id: PaneId,
    pub next_id: u32,
}

impl PaneTree {
    /// The layout as it is kept across sessions: structure, ratios, and each pane's id and
    /// channel assignment.
    pub open spec fn to_session(self) -> SessionNode
        decreases self,
    {
        match self {
            PaneTree::Leaf(p) => SessionNode::Leaf(
                SessionPane { id: p.id, channel_id: p.channel_id, guild_id: p.guild_id },
            ),
            PaneTree::Split { direction, ratio, first, second } => SessionNode::Split {
                direction,
                ratio,
                first: Box::new(first.to_session()),
                second: Box::new(second.to_session()),
            },
        }
    }

    /// The tree with every pane reset to a fresh pane that keeps only its id and channel
    /// assignment.
    pub open spec fn persisted(self) -> PaneTree
        decreases self,
    {
        match self {
            PaneTree::Leaf(p) => PaneTree::Leaf(
                PaneView { channel_id: p.channel_id, guild_id: p.guild_id, ..fresh_pane(p.id) },
            ),
            PaneTree::Split { direction, ratio, first, second } => PaneTree::Split {
                direction,
                ratio,
                first: Box::new(first.persisted()),
                second: Box::new(second.persisted()),
            },
        }
    }
}

impl SessionNode {
    /// Every channel and guild id saved in the layout is nonzero (Discord ids never are 0).
    pub open spec fn ids_nonzero(&self) -> bool
        decreases self,
    {
        match self {
            SessionNode::Leaf(sp) => !(sp.channel_id == Some(0u64)) && !(sp.guild_id == Some(0u64)),
            SessionNode::Split { first, second, .. } => first.ids_nonzero() && second.ids_nonzero(),
        }
    }

    /// Checks that every saved channel and guild id is nonzero.
    pub fn has_valid_ids(&self) -> (r: bool)
        ensures
            r == self.ids_nonzero(),
        decreases self,
    {
        match self {
            SessionNode::Leaf(sp) => {
                let channel_ok = match sp.channel_id {
                    Some(c) => c != 0,
                    None => true,
                };
                let guild_ok = match sp.guild_id {
                    Some(g) => g != 0,
                    None => true,
                };
                channel_ok && guild_ok
            },
            SessionNode::Split { first, second, .. } => first.has_valid_ids() && second.has_valid_ids(),
        }
    }

    /// The pane tree restored from a saved layout: fresh panes with the saved ids and channels.
    pub open spec fn restore(&self) -> PaneTree
        decreases self,
    {
        match self {
            SessionNode::Leaf(sp) => PaneTree::Leaf(
                PaneView { channel_id: sp.channel_id, guild_id: sp.guild_id, ..fresh_pane(sp.id) },
            ),
            SessionNode::Split { direction, ratio, first, second } => PaneTree::Split {
                direction: *direction,
                ratio: *ratio,
                first: Box::new(first.restore()),
                second: Box::new(second.restore()),
            },
        }
    }
}

fn pane_node_to_session(node: &PaneNode) -> (r: SessionNode)
    ensures
        r == node@.to_session(),
    decreases node,
{
    match node {
        PaneNode::Leaf(pane) => SessionNode::Leaf(
            SessionPane { id: pane.id, channel_id: pane.channel_id, guild_id: pane.guild_id },
        ),
        PaneNode::Split { direction, ratio, first, second } => SessionNode::Split {
            direction: *direction,
            ratio: *ratio,
            first: Box::new(pane_node_to_session(first)),
            second: Box::new(pane_node_to_session(second)),
        },
    }
}

fn session_to_pane_node(node: &SessionNode) -> (r: PaneNode)
    ensures
        r@ == node.restore(),
    decreases node,
{
    match node {
        SessionNode::Leaf(sp) => {
            let mut pane = Pane::new(sp.id);
            pane.channel_id = sp.channel_id;
            pane.guild_id = sp.guild_id;
            PaneNode::Leaf(pane)
        },
        SessionNode::Split { direction, ratio, first, second } => PaneNode::Split {
            direction: *direction,
            ratio: *ratio,
            first: Box::new(session_to_pane_node(first)),
            second: Box::new(session_to_pane_node(second)),
        },
    }
}

impl PaneManager {
    /// The layout to keep across sessions: tree, focus and next id (zoom is not kept).
    pub fn to_session(&self) -> (r: SessionLayout)
        ensures
            r.root == self.root@.to_session(),
            r.focused_pane_id == self.focused_pane_id,
            r.next_id == self.spec_next_id(),
    {
        SessionLayout {
            root: pane_node_to_session(&self.root),
            focused_pane_id: self.focused_pane_id,
            next_id: self.next_id,
        }
    }

    /// Restores a saved layout. Focus falls back to the first pane when the saved focused pane
    /// is not in the tree; zoom starts cleared. A saved id of 0 is not a Discord id.
    pub fn from_session(layout: &SessionLayout) -> (pm: Self)
        requires
            layout.root.ids_nonzero(),
        ensures
            pm.root@ == layout.root.restore(),
            pm.focused_pane_id == if layout.root.restore().contains(layout.focused_pane_id) {
                layout.focused_pane_id
            } else {
                layout.root.restore().leaves()[0]
            },
            pm.zoom_state is None,
            pm.spec_next_id() == layout.next_id,
    {
        let root = session_to_pane_node(&layout.root);
        let focused = if root.contains(layout.focused_pane_id) {
            layout.focused_pane_id
        } else {
            let leaves = root.leaves_in_order();
            proof {
                root@.lemma_leaves_nonempty();
            }
            if leaves.len() > 0 {
                leaves[0]
            } else {
                PaneId(0)
            }
        };
        PaneManager { root, focused_pane_id: focused, zoom_state: None, next_id: layout.next_id }
    }
}
} // verus!
