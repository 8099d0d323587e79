//! The node arena: a per-tick snapshot of the scene graph's oscillator
//! forest, keyed by index, with every parent stored before its children.

use crate::cycle::Cycle;
use crate::cycle::PosBits;
use crate::wave::Wave;
use vstd::prelude::*;

verus! {

/// One oscillator node: its synthesis parameters, its wave table, whether it
/// plays, its parent in the forest, and its passed-through position.
pub struct CycleNode {
    pub cycle: Cycle,
    pub wave: Wave,
    pub playing: bool,
    /// Index of the synthesis parent; `None` for a root.
    pub parent: Option<u32>,
    pub position: PosBits,
}

impl CycleNode {
    pub open spec fn wf(&self) -> bool {
        &&& self.cycle.wf()
        &&& self.wave.wf()
    }
}

/// A well-formed arena: indexable by `u32`, every node well formed, and
/// every parent stored strictly before its children, so parent chains cannot
/// cycle and a single forward pass visits parents first.
pub open spec fn graph_wf(g: Seq<CycleNode>) -> bool {
    &&& g.len() <= 0xFFFF_FFFF
    &&& forall|i: int| 0 <= i < g.len() ==> (#[trigger] g[i]).wf()
    &&& forall|i: int|
        0 <= i < g.len() ==> ((#[trigger] g[i]).parent is Some ==> g[i].parent->Some_0 < i)
}

/// Node `j` lies in the subtree rooted at `root`: it is the root itself or
/// its parent chain reaches the root. (The chain only follows parents stored
/// earlier; a well-formed arena has no others.)
pub open spec fn in_subtree(g: Seq<CycleNode>, j: int, root: int) -> bool
    decreases (if j < 0 {
        0int
    } else {
        j
    }),
{
    if j == root {
        true
    } else if 0 <= j < g.len() && g[j].parent is Some && (g[j].parent->Some_0 as int) < j {
        in_subtree(g, g[j].parent->Some_0 as int, root)
    } else {
        false
    }
}

/// The oscillator forest handed to the mixer and the snapshot codec.
pub struct NodeGraph {
    nodes: Vec<CycleNode>,
}

impl View for NodeGraph {
    type V = Seq<CycleNode>;

    closed spec fn view(&self) -> Seq<CycleNode> {
        self.nodes@
    }
}

impl NodeGraph {
    pub open spec fn wf(&self) -> bool {
        graph_wf(self@)
    }

    /// An empty forest.
    pub fn new() -> (r: NodeGraph)
        ensures
            r.wf(),
            r@.len() == 0,
    {
        NodeGraph { nodes: Vec::new() }
    }

    /// Number of nodes.
    pub fn len(&self) -> (r: usize)
        ensures
            r == self@.len(),
    {
        self.nodes.len()
    }

    /// The node at index `i`.
    pub fn node(&self, i: usize) -> (r: &CycleNode)
        requires
            i < self@.len(),
        ensures
            r == self@[i as int],
    {
        &self.nodes[i]
    }

    /// Whether `parent` is `child` itself or one of its ancestors; used to
    /// refuse links that would close a cycle.
    pub fn has_parent(&self, child: usize, parent: usize) -> (r: bool)
        requires
            self.wf(),
            child < self@.len(),
            parent < self@.len(),
        ensures
            r == in_subtree(self@, child as int, parent as int),
    {
        let mut cur: usize = child;
        loop
            invariant
                self.wf(),
                cur < self@.len(),
                in_subtree(self@, child as int, parent as int) == in_subtree(
                    self@,
                    cur as int,
                    parent as int,
                ),
            decreases cur,
        {
            if cur == parent {
                return true;
            }
            match self.nodes[cur].parent {
                Some(p) => {
                    cur = p as usize;
                },
                None => {
                    return false;
                },
            }
        }
    }

    /// Appends a node; its parent, if any, must already be present, which
    /// keeps the arena topologically ordered. Returns the new node's index.
    pub fn push_node(&mut self, node: CycleNode) -> (r: usize)
        requires
            old(self).wf(),
            node.wf(),
            old(self)@.len() < 0xFFFF_FFFF,
            node.parent is Some ==> node.parent->Some_0 < old(self)@.len(),
        ensures
            final(self).wf(),
            final(self)@ == old(self)@.push(node),
            r == old(self)@.len(),
    {
        let r = self.nodes.len();
        self.nodes.push(node);
        r
    }
}

} // verus!
