//! An adjacency-list graph: a bounded list of vertices, each heading a chain
//! of arcs.

use vstd::prelude::*;

verus! {

/// The most vertices a graph holds.
pub const MAX_VERTEX_NUM: usize = 100;

/// One arc of a vertex's chain: the index of the vertex it leads to, and the
/// next arc of the chain, if there is one.
pub struct ArcNode {
    pub adjvex: i32,
    pub nextarc: Option<Box<ArcNode>>,
}

/// What a vertex carries.
pub enum VertexData {
    INT(i32),
    STR(String),
}

/// A vertex: its data and the first arc of its chain, if it has any.
pub struct VNode {
    pub data: VertexData,
    pub firstarc: Option<Box<ArcNode>>,
}

/// A graph: its vertices, and the counts of vertices and arcs.
pub struct ALGraph {
    pub vertices: AdjList,
    pub vexnum: usize,
    pub arcnum: usize,
}

/// The list of vertices.
pub struct AdjList {
    pub vexs: Vec<VNode>,
}

impl ALGraph {
    /// Appends `node` to the vertex list unless the list is full, in which
    /// case the graph is left as it was. The counts are not touched.
    pub fn add_node(&mut self, node: VNode)
        ensures
            final(self).vexnum == old(self).vexnum,
            final(self).arcnum == old(self).arcnum,
            old(self).vertices.vexs@.len() < MAX_VERTEX_NUM ==> final(self).vertices.vexs@
                == old(self).vertices.vexs@.push(node),
            old(self).vertices.vexs@.len() >= MAX_VERTEX_NUM ==> final(self).vertices.vexs@
                == old(self).vertices.vexs@,
    {
        if self.vertices.vexs.len() < MAX_VERTEX_NUM {
            self.vertices.vexs.push(node);
        }
    }

    /// Leaves the graph as it is.
    pub fn make_edge_between_node(&mut self)
        ensures
            *final(self) == *old(self),
    {
    }
}

} // verus!
