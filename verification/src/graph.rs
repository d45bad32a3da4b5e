//! Adjacency view of a graph: per node, its outgoing neighbor node ids.

use vstd::prelude::*;

verus! {

/// Out-neighbor lists, indexed by node id.
pub struct Graph {
    /// `adjacency[n]` holds the outgoing neighbors of node `n`.
    pub adjacency: Vec<Vec<usize>>,
}

impl Graph {
    /// Well-formed: every listed neighbor is a node of the graph.
    pub open spec fn wf(self) -> bool {
        forall|n: int, k: int|
            0 <= n < self.adjacency@.len() && 0 <= k < self.adjacency@[n]@.len()
                ==> self.adjacency@[n]@[k] < self.adjacency@.len()
    }

    /// Number of nodes.
    pub open spec fn spec_len(self) -> nat {
        self.adjacency@.len()
    }

    /// Build a graph from adjacency lists, refusing any list that points
    /// outside the node range.
    pub fn from_adjacency(adjacency: Vec<Vec<usize>>) -> (r: Option<Graph>)
        ensures
            match r {
                Some(g) => g.wf() && g.adjacency == adjacency,
                None => !(forall|n: int, k: int|
                    0 <= n < adjacency@.len() && 0 <= k < adjacency@[n]@.len()
                        ==> adjacency@[n]@[k] < adjacency@.len()),
            },
    {
        let n_nodes = adjacency.len();
        let mut n: usize = 0;
        while n < n_nodes
            invariant
                n <= n_nodes,
                n_nodes == adjacency@.len(),
                forall|m: int, k: int|
                    0 <= m < n && 0 <= k < adjacency@[m]@.len() ==> adjacency@[m]@[k] < n_nodes,
            decreases n_nodes - n,
        {
            let row = &adjacency[n];
            let mut k: usize = 0;
            while k < row.len()
                invariant
                    k <= row@.len(),
                    row == &adjacency@[n as int],
                    n < n_nodes,
                    n_nodes == adjacency@.len(),
                    forall|j: int| 0 <= j < k ==> row@[j] < n_nodes,
                decreases row@.len() - k,
            {
                if row[k] >= n_nodes {
                    return None;
                }
                k += 1;
            }
            n += 1;
        }
        Some(Graph { adjacency })
    }

    /// Number of nodes.
    pub fn len(&self) -> (r: usize)
        ensures
            r == self.spec_len(),
    {
        self.adjacency.len()
    }

    /// The outgoing neighbors of a node.
    pub fn get_edges(&self, node: usize) -> (r: &Vec<usize>)
        requires
            node < self.spec_len(),
        ensures
            r@ == self.adjacency@[node as int]@,
    {
        &self.adjacency[node]
    }
}

} // verus!
