use vstd::prelude::*;

use crate::analysis::keyed::{as_map, insert_value, keys_sorted};
use crate::error::EngineError;
use crate::ir::graph::{
    graph_add_edge, graph_add_node, graph_edges, graph_neighbors, graph_new, graph_nodes, in_sources,
    out_targets,
};
use crate::ir::instruction::{result_of, Instruction, Terminator};
use crate::ir::value::{BlockLabel, RegisterSlot};

verus! {

/// A representation of CFG edges
#[derive(Debug)]
pub enum Edge {
    Goto,
    Branch(bool),
    Switch(Vec<Option<u64>>),
    Indirect,
    Invoke(bool),
}

/// An adapted representation of an LLVM basic block
#[derive(Debug)]
pub struct Block {
    /// sequence of instructions
    pub sequence: Vec<Instruction>,
    /// terminator of the block
    pub terminator: Terminator,
}

/// The registers that a sequence of instructions defines.
pub open spec fn defined_registers(insts: Seq<Instruction>) -> Set<RegisterSlot> {
    Set::new(|r: RegisterSlot| exists|i: int| 0 <= i < insts.len() && result_of(&insts[i]) == Some(r))
}

/// The set of keys of a sorted list of registers.
pub open spec fn key_set(v: Seq<(RegisterSlot, ())>) -> Set<RegisterSlot> {
    as_map(v).dom()
}

/// The keys of a sorted list, in order.
pub open spec fn keys_of(v: Seq<(RegisterSlot, ())>) -> Seq<RegisterSlot> {
    v.map_values(|e: (RegisterSlot, ())| e.0)
}

proof fn lemma_keys_of(v: Seq<(RegisterSlot, ())>)
    ensures
        keys_of(v).to_set() == key_set(v),
{
    assert forall|r: RegisterSlot| keys_of(v).to_set().contains(r) == key_set(v).contains(r) by {
        if keys_of(v).to_set().contains(r) {
            let i = choose|i: int| 0 <= i < keys_of(v).len() && keys_of(v)[i] == r;
            assert(v[i].0 == r);
        }
        if key_set(v).contains(r) {
            let i = choose|i: int| 0 <= i < v.len() && v[i].0 == r;
            assert(keys_of(v)[i] == r);
        }
    }
    assert(keys_of(v).to_set() =~= key_set(v));
}

/// Adds the registers that `insts` defines to a sorted list.
fn add_defined(insts: &Vec<Instruction>, acc: &mut Vec<(RegisterSlot, ())>)
    requires
        keys_sorted(old(acc)@),
    ensures
        keys_sorted(final(acc)@),
        key_set(final(acc)@) == key_set(old(acc)@).union(defined_registers(insts@)),
{
    let ghost start = key_set(acc@);
    let mut i: usize = 0;
    while i < insts.len()
        invariant
            i <= insts@.len(),
            keys_sorted(acc@),
            key_set(acc@) == start.union(defined_registers(insts@.take(i as int))),
        decreases insts@.len() - i,
    {
        let ghost before = key_set(acc@);
        match insts[i].result_register() {
            Some(r) => {
                insert_value(acc, r, ());
            },
            None => {},
        }
        proof {
            let t1 = insts@.take(i + 1);
            let t0 = insts@.take(i as int);
            assert forall|r: RegisterSlot| defined_registers(t1).contains(r) == (defined_registers(
                t0,
            ).contains(r) || result_of(&insts@[i as int]) == Some(r)) by {
                if defined_registers(t1).contains(r) {
                    let j = choose|j: int| 0 <= j < t1.len() && result_of(&t1[j]) == Some(r);
                    if j < i {
                        assert(t0[j] == t1[j]);
                    }
                }
                if defined_registers(t0).contains(r) {
                    let j = choose|j: int| 0 <= j < t0.len() && result_of(&t0[j]) == Some(r);
                    assert(t1[j] == t0[j]);
                }
                if result_of(&insts@[i as int]) == Some(r) {
                    assert(t1[i as int] == insts@[i as int]);
                }
            }
            assert(key_set(acc@) =~= start.union(defined_registers(t1)));
        }
        i = i + 1;
    }
    assert(insts@.take(insts@.len() as int) =~= insts@);
}

impl Block {
    pub fn get_instructions(&self) -> (r: &Vec<Instruction>)
        ensures
            r@ == self.sequence@,
    {
        &self.sequence
    }

    /// The registers that the block defines, in increasing order.
    pub fn collect_variables(&self) -> (r: Vec<RegisterSlot>)
        ensures
            r@.to_set() == defined_registers(self.sequence@),
            forall|i: int, j: int| 0 <= i < j < r@.len() ==> r@[i].0 < r@[j].0,
    {
        let mut acc: Vec<(RegisterSlot, ())> = Vec::new();
        proof {
            assert(key_set(acc@) =~= Set::<RegisterSlot>::empty());
        }
        add_defined(&self.sequence, &mut acc);
        proof {
            assert(key_set(acc@) =~= defined_registers(self.sequence@));
        }
        keys_in_order(&acc)
    }
}

/// The keys of a sorted list, in order.
fn keys_in_order(acc: &Vec<(RegisterSlot, ())>) -> (r: Vec<RegisterSlot>)
    requires
        keys_sorted(acc@),
    ensures
        r@ == keys_of(acc@),
        r@.to_set() == key_set(acc@),
        forall|i: int, j: int| 0 <= i < j < r@.len() ==> r@[i].0 < r@[j].0,
{
    let mut out: Vec<RegisterSlot> = Vec::new();
    let mut i: usize = 0;
    while i < acc.len()
        invariant
            i <= acc@.len(),
            out@ == keys_of(acc@).take(i as int),
        decreases acc@.len() - i,
    {
        out.push(acc[i].0);
        proof {
            assert(keys_of(acc@).take(i + 1) =~= keys_of(acc@).take(i as int).push(acc@[i as int].0));
        }
        i = i + 1;
    }
    proof {
        assert(keys_of(acc@).take(acc@.len() as int) =~= keys_of(acc@));
        lemma_keys_of(acc@);
        assert forall|a: int, b: int| 0 <= a < b < out@.len() implies out@[a].0 < out@[b].0 by {
            assert(acc@[a].0.0 < acc@[b].0.0);
        }
    }
    out
}

/// An adapted representation of an LLVM control-flow graph: its blocks, each
/// under its label, its edges, each from a block to a block, and the graph of
/// `petgraph` that holds its shape (node `i` stands for the block at position `i`).
#[derive(Debug)]
pub struct ControlFlowGraph {
    pub blocks: Vec<(BlockLabel, Block)>,
    pub edges: Vec<(BlockLabel, BlockLabel, Edge)>,
    pub graph: petgraph::graph::Graph<usize, (), petgraph::Directed, u32>,
}

/// The labels of a list of blocks, in order.
pub open spec fn block_labels(bs: Seq<(BlockLabel, Block)>) -> Seq<BlockLabel> {
    bs.map_values(|b: (BlockLabel, Block)| b.0)
}

/// The targets of the edges that leave `b`, in the order of the edges.
pub open spec fn edge_targets(es: Seq<(BlockLabel, BlockLabel, Edge)>, b: BlockLabel) -> Seq<BlockLabel>
    decreases es.len(),
{
    if es.len() == 0 {
        Seq::empty()
    } else {
        let init = edge_targets(es.drop_last(), b);
        if es.last().0 == b {
            init.push(es.last().1)
        } else {
            init
        }
    }
}

/// The sources of the edges that enter `b`, in the order of the edges.
pub open spec fn edge_sources(es: Seq<(BlockLabel, BlockLabel, Edge)>, b: BlockLabel) -> Seq<BlockLabel>
    decreases es.len(),
{
    if es.len() == 0 {
        Seq::empty()
    } else {
        let init = edge_sources(es.drop_last(), b);
        if es.last().1 == b {
            init.push(es.last().0)
        } else {
            init
        }
    }
}

/// The label numbers of a list of blocks, in order.
pub open spec fn label_numbers(bs: Seq<(BlockLabel, Block)>) -> Seq<usize> {
    bs.map_values(|b: (BlockLabel, Block)| b.0.0)
}

/// The graph holds the shape of the blocks and edges: a node for each block in
/// order, weighted by its label, and an edge between the nodes of the blocks
/// that each edge joins, in order.
pub open spec fn holds_shape(
    bs: Seq<(BlockLabel, Block)>,
    es: Seq<(BlockLabel, BlockLabel, Edge)>,
    nodes: Seq<usize>,
    gs: Seq<(usize, usize)>,
) -> bool {
    &&& nodes == label_numbers(bs)
    &&& gs.len() == es.len()
    &&& forall|k: int|
        0 <= k < es.len() ==> (#[trigger] gs[k]).0 < bs.len() && gs[k].1 < bs.len() && bs[gs[k].0 as int].0
            == es[k].0 && bs[gs[k].1 as int].0 == es[k].1
}

/// No two blocks carry the same label.
pub open spec fn distinct_labels(bs: Seq<(BlockLabel, Block)>) -> bool {
    forall|i: int, j: int| 0 <= i < j < bs.len() ==> bs[i].0 != bs[j].0
}

/// Every edge joins two blocks of the list.
pub open spec fn edges_known(bs: Seq<(BlockLabel, Block)>, es: Seq<(BlockLabel, BlockLabel, Edge)>) -> bool {
    forall|i: int|
        0 <= i < es.len() ==> block_labels(bs).contains((#[trigger] es[i]).0) && block_labels(bs).contains(
            es[i].1,
        )
}

/// No two edges join the same blocks in the same direction.
pub open spec fn distinct_pairs(es: Seq<(BlockLabel, BlockLabel, Edge)>) -> bool {
    forall|i: int, j: int| 0 <= i < j < es.len() ==> !(es[i].0 == es[j].0 && es[i].1 == es[j].1)
}

/// The position of the block labelled `l` in a list of blocks, if any.
fn find_label(bs: &Vec<(BlockLabel, Block)>, l: &BlockLabel) -> (r: Option<usize>)
    ensures
        match r {
            Some(i) => i < bs@.len() && bs@[i as int].0 == *l,
            None => !block_labels(bs@).contains(*l),
        },
{
    let mut i: usize = 0;
    while i < bs.len()
        invariant
            i <= bs@.len(),
            forall|j: int| 0 <= j < i ==> bs@[j].0 != *l,
        decreases bs@.len() - i,
    {
        if bs[i].0.0 == l.0 {
            return Some(i);
        }
        i = i + 1;
    }
    proof {
        if block_labels(bs@).contains(*l) {
            let k = choose|k: int| 0 <= k < block_labels(bs@).len() && block_labels(bs@)[k] == *l;
            assert(bs@[k].0 == *l);
        }
    }
    None
}

/// Whether no two blocks carry the same label.
fn check_distinct_labels(bs: &Vec<(BlockLabel, Block)>) -> (r: bool)
    ensures
        r == distinct_labels(bs@),
{
    let mut i: usize = 0;
    while i < bs.len()
        invariant
            i <= bs@.len(),
            forall|x: int, y: int| 0 <= x < y < bs@.len() && x < i ==> bs@[x].0 != bs@[y].0,
        decreases bs@.len() - i,
    {
        let mut j: usize = i + 1;
        while j < bs.len()
            invariant
                i < bs@.len(),
                i + 1 <= j <= bs@.len(),
                forall|x: int, y: int| 0 <= x < y < bs@.len() && x < i ==> bs@[x].0 != bs@[y].0,
                forall|y: int| i < y < j ==> bs@[i as int].0 != bs@[y].0,
            decreases bs@.len() - j,
        {
            if bs[i].0.0 == bs[j].0.0 {
                return false;
            }
            j = j + 1;
        }
        i = i + 1;
    }
    true
}

/// Whether every edge joins two blocks of the list.
fn check_edges_known(bs: &Vec<(BlockLabel, Block)>, es: &Vec<(BlockLabel, BlockLabel, Edge)>) -> (r: bool)
    ensures
        r == edges_known(bs@, es@),
{
    let mut k: usize = 0;
    while k < es.len()
        invariant
            k <= es@.len(),
            forall|i: int| 0 <= i < k ==> block_labels(bs@).contains((#[trigger] es@[i]).0)
                && block_labels(bs@).contains(es@[i].1),
        decreases es@.len() - k,
    {
        let a = find_label(bs, &es[k].0);
        let b = find_label(bs, &es[k].1);
        match (a, b) {
            (Some(x), Some(y)) => {
                assert(block_labels(bs@)[x as int] == es@[k as int].0);
                assert(block_labels(bs@)[y as int] == es@[k as int].1);
            },
            _ => {
                return false;
            },
        }
        k = k + 1;
    }
    true
}

/// Whether no two edges join the same blocks in the same direction.
fn check_distinct_pairs(es: &Vec<(BlockLabel, BlockLabel, Edge)>) -> (r: bool)
    ensures
        r == distinct_pairs(es@),
{
    let mut i: usize = 0;
    while i < es.len()
        invariant
            i <= es@.len(),
            forall|x: int, y: int|
                0 <= x < y < es@.len() && x < i ==> !(es@[x].0 == es@[y].0 && es@[x].1 == es@[y].1),
        decreases es@.len() - i,
    {
        let mut j: usize = i + 1;
        while j < es.len()
            invariant
                i < es@.len(),
                i + 1 <= j <= es@.len(),
                forall|x: int, y: int|
                    0 <= x < y < es@.len() && x < i ==> !(es@[x].0 == es@[y].0 && es@[x].1 == es@[y].1),
                forall|y: int| i < y < j ==> !(es@[i as int].0 == es@[y].0 && es@[i as int].1 == es@[y].1),
            decreases es@.len() - j,
        {
            if es[i].0.0 == es[j].0.0 && es[i].1.0 == es[j].1.0 {
                return false;
            }
            j = j + 1;
        }
        i = i + 1;
    }
    true
}

impl ControlFlowGraph {
    /// The graph of the given blocks and edges, with the graph of `petgraph` that
    /// holds its shape: a node for each block in order, then an edge for each
    /// edge in order. Refused where two blocks carry the same label, where an
    /// edge joins an unknown block, or where two edges join the same blocks.
    pub fn new(blocks: Vec<(BlockLabel, Block)>, edges: Vec<(BlockLabel, BlockLabel, Edge)>) -> (r: Result<
        Self,
        EngineError,
    >)
        requires
            blocks@.len() < u32::MAX,
            edges@.len() < u32::MAX,
        ensures
            !distinct_labels(blocks@) ==> (r matches Err(EngineError::InvariantViolation(m)) && m@
                == "duplicated block labels"@),
            distinct_labels(blocks@) && !edges_known(blocks@, edges@) ==> (r matches Err(
                EngineError::InvariantViolation(m),
            ) && m@ == "edge to an unknown block in CFG"@),
            distinct_labels(blocks@) && edges_known(blocks@, edges@) && !distinct_pairs(edges@) ==> (r matches Err(
                EngineError::InvariantViolation(m),
            ) && m@ == "duplicated edge in CFG"@),
            distinct_labels(blocks@) && edges_known(blocks@, edges@) && distinct_pairs(edges@) ==> (r matches Ok(
                g,
            ) && g.wf() && g.blocks@ == blocks@ && g.edges@ == edges@),
    {
        if !check_distinct_labels(&blocks) {
            return Err(EngineError::InvariantViolation("duplicated block labels".to_owned()));
        }
        if !check_edges_known(&blocks, &edges) {
            return Err(EngineError::InvariantViolation("edge to an unknown block in CFG".to_owned()));
        }
        if !check_distinct_pairs(&edges) {
            return Err(EngineError::InvariantViolation("duplicated edge in CFG".to_owned()));
        }
        let mut graph = graph_new();
        let mut i: usize = 0;
        while i < blocks.len()
            invariant
                i <= blocks@.len(),
                blocks@.len() < u32::MAX,
                graph_nodes(graph) == label_numbers(blocks@.take(i as int)),
                graph_edges(graph) == Seq::<(usize, usize)>::empty(),
            decreases blocks@.len() - i,
        {
            graph_add_node(&mut graph, blocks[i].0.0);
            assert(label_numbers(blocks@.take(i + 1)) =~= label_numbers(blocks@.take(i as int)).push(
                blocks@[i as int].0.0,
            ));
            i = i + 1;
        }
        assert(blocks@.take(blocks@.len() as int) =~= blocks@);
        let mut k: usize = 0;
        while k < edges.len()
            invariant
                k <= edges@.len(),
                edges@.len() < u32::MAX,
                edges_known(blocks@, edges@),
                graph_nodes(graph) == label_numbers(blocks@),
                edges_match(blocks@, edges@.take(k as int), graph_edges(graph)),
            decreases edges@.len() - k,
        {
            let a = match find_label(&blocks, &edges[k].0) {
                Some(a) => a,
                None => {
                    return Err(EngineError::InvariantViolation("edge to an unknown block in CFG".to_owned()));
                },
            };
            let b = match find_label(&blocks, &edges[k].1) {
                Some(b) => b,
                None => {
                    return Err(EngineError::InvariantViolation("edge to an unknown block in CFG".to_owned()));
                },
            };
            let ghost before = graph_edges(graph);
            graph_add_edge(&mut graph, a, b);
            proof {
                let es = edges@.take(k + 1);
                let gs = graph_edges(graph);
                assert(gs == before.push((a, b)));
                assert forall|x: int| 0 <= x < es.len() implies (#[trigger] gs[x]).0 < blocks@.len()
                    && gs[x].1 < blocks@.len() && blocks@[gs[x].0 as int].0 == es[x].0 && blocks@[gs[
                    x].1 as int].0 == es[x].1 by {
                    if x < k {
                        assert(gs[x] == before[x]);
                        assert(es[x] == edges@.take(k as int)[x]);
                    }
                }
            }
            k = k + 1;
        }
        assert(edges@.take(edges@.len() as int) =~= edges@);
        let g = ControlFlowGraph { blocks, edges, graph };
        proof {
            reveal(ControlFlowGraph::wf);
        }
        Ok(g)
    }
}

impl ControlFlowGraph {
    /// Every label names one block, every edge joins two blocks, and the graph
    /// holds the shape of the blocks and edges.
    #[verifier::opaque]
    pub open spec fn wf(&self) -> bool {
        &&& forall|i: int, j: int|
            0 <= i < j < self.blocks@.len() ==> self.blocks@[i].0 != self.blocks@[j].0
        &&& forall|i: int|
            0 <= i < self.edges@.len() ==> block_labels(self.blocks@).contains(
                (#[trigger] self.edges@[i]).0,
            ) && block_labels(self.blocks@).contains(self.edges@[i].1)
        &&& holds_shape(self.blocks@, self.edges@, graph_nodes(self.graph), graph_edges(self.graph))
    }

    /// The labels of the blocks.
    pub open spec fn labels(&self) -> Seq<BlockLabel> {
        block_labels(self.blocks@)
    }

    /// The blocks that edges from `b` lead to, the most recently added edge first.
    pub open spec fn successors(&self, b: BlockLabel) -> Seq<BlockLabel> {
        edge_targets(self.edges@, b).reverse()
    }

    /// The blocks that edges into `b` come from, the most recently added edge first.
    pub open spec fn predecessors(&self, b: BlockLabel) -> Seq<BlockLabel> {
        edge_sources(self.edges@, b).reverse()
    }

    /// The instructions of block `b`.
    pub open spec fn instructions(&self, b: BlockLabel) -> Seq<Instruction> {
        self.blocks@[choose|i: int| 0 <= i < self.blocks@.len() && self.blocks@[i].0 == b].1.sequence@
    }

    /// The registers that the blocks define.
    pub open spec fn variables(&self) -> Set<RegisterSlot> {
        Set::new(
            |r: RegisterSlot|
                exists|i: int|
                    0 <= i < self.blocks@.len() && #[trigger] defined_registers(
                        self.blocks@[i].1.sequence@,
                    ).contains(r),
        )
    }

    /// The block with the given label, if any.
    pub fn get_block_by_label(&self, label: &BlockLabel) -> (r: Option<&Block>)
        requires
            self.wf(),
        ensures
            match r {
                Some(b) => self.labels().contains(*label) && b.sequence@ == self.instructions(*label),
                None => !self.labels().contains(*label),
            },
    {
        proof {
            reveal(ControlFlowGraph::wf);
        }
        let mut i: usize = 0;
        while i < self.blocks.len()
            invariant
                self.wf(),
                i <= self.blocks@.len(),
                forall|j: int| 0 <= j < i ==> self.blocks@[j].0 != *label,
            decreases self.blocks@.len() - i,
        {
            if self.blocks[i].0.0 == label.0 {
                proof {
                    reveal(ControlFlowGraph::wf);
                    assert(self.labels()[i as int] == *label);
                    let k = choose|k: int| 0 <= k < self.blocks@.len() && self.blocks@[k].0 == *label;
                    assert(k == i);
                }
                return Some(&self.blocks[i].1);
            }
            i = i + 1;
        }
        proof {
            if self.labels().contains(*label) {
                let k = choose|k: int| 0 <= k < self.labels().len() && self.labels()[k] == *label;
                assert(self.blocks@[k].0 == *label);
            }
        }
        None
    }

    /// The label of the block that node `node` of the graph stands for, if any.
    pub fn get_block_label_by_index(&self, node: usize) -> (r: Option<BlockLabel>)
        ensures
            r == (if node < self.blocks@.len() {
                Some(self.blocks@[node as int].0)
            } else {
                None::<BlockLabel>
            }),
    {
        if node < self.blocks.len() {
            Some(self.blocks[node].0)
        } else {
            None
        }
    }

    /// The labels of the blocks, in order.
    pub fn get_blocks(&self) -> (r: Vec<BlockLabel>)
        ensures
            r@ == self.labels(),
    {
        let mut out: Vec<BlockLabel> = Vec::new();
        let mut i: usize = 0;
        while i < self.blocks.len()
            invariant
                i <= self.blocks@.len(),
                out@ == self.labels().take(i as int),
            decreases self.blocks@.len() - i,
        {
            out.push(self.blocks[i].0);
            proof {
                assert(self.labels().take(i + 1) =~= self.labels().take(i as int).push(
                    self.blocks@[i as int].0,
                ));
            }
            i = i + 1;
        }
        assert(self.labels().take(self.blocks@.len() as int) =~= self.labels());
        out
    }

    /// The position of the block labelled `l`, if any.
    pub(crate) fn position_of_label(&self, l: &BlockLabel) -> (r: Option<usize>)
        ensures
            match r {
                Some(i) => i < self.blocks@.len() && self.blocks@[i as int].0 == *l,
                None => !self.labels().contains(*l),
            },
    {
        let mut i: usize = 0;
        while i < self.blocks.len()
            invariant
                i <= self.blocks@.len(),
                forall|j: int| 0 <= j < i ==> self.blocks@[j].0 != *l,
            decreases self.blocks@.len() - i,
        {
            if self.blocks[i].0.0 == l.0 {
                return Some(i);
            }
            i = i + 1;
        }
        proof {
            if self.labels().contains(*l) {
                let k = choose|k: int| 0 <= k < self.labels().len() && self.labels()[k] == *l;
                assert(self.blocks@[k].0 == *l);
            }
        }
        None
    }

    /// The labels of the nodes of the graph, in order.
    fn labels_of_nodes(&self, ns: &Vec<usize>, expected: Ghost<Seq<BlockLabel>>) -> (r: Vec<BlockLabel>)
        requires
            ns@.len() == expected@.len(),
            forall|j: int| 0 <= j < ns@.len() ==> (#[trigger] ns@[j]) < self.blocks@.len()
                && self.blocks@[ns@[j] as int].0 == expected@[j],
        ensures
            r@ == expected@,
    {
        let mut out: Vec<BlockLabel> = Vec::new();
        let mut k: usize = 0;
        while k < ns.len()
            invariant
                k <= ns@.len(),
                ns@.len() == expected@.len(),
                forall|j: int| 0 <= j < ns@.len() ==> (#[trigger] ns@[j]) < self.blocks@.len()
                    && self.blocks@[ns@[j] as int].0 == expected@[j],
                out@ == expected@.take(k as int),
            decreases ns@.len() - k,
        {
            let n = ns[k];
            assert(n < self.blocks@.len());
            out.push(self.blocks[n].0);
            assert(out@ =~= expected@.take(k + 1));
            k = k + 1;
        }
        assert(expected@.take(ns@.len() as int) =~= expected@);
        out
    }

    /// The blocks that edges from `block` lead to, the most recently added edge
    /// first; `block` must be a block of the graph.
    pub fn get_successors(&self, block: &BlockLabel) -> (r: Vec<BlockLabel>)
        requires
            self.wf(),
            self.labels().contains(*block),
        ensures
            r@ == self.successors(*block),
    {
        proof {
            reveal(ControlFlowGraph::wf);
        }
        let i = match self.position_of_label(block) {
            Some(i) => i,
            None => {
                return Vec::new();
            },
        };
        let ns = graph_neighbors(&self.graph, i, true);
        proof {
            let gs = graph_edges(self.graph);
            lemma_shape_edges(self.blocks@, self.edges@, gs);
            lemma_out_targets(self.blocks@, self.edges@, gs, i as int, *block);
            let ts = out_targets(gs, i);
            let es = edge_targets(self.edges@, *block);
            assert forall|j: int| 0 <= j < ns@.len() implies (#[trigger] ns@[j]) < self.blocks@.len()
                && self.blocks@[ns@[j] as int].0 == es.reverse()[j] by {
                assert(ns@[j] == ts[ts.len() - 1 - j]);
            }
        }
        self.labels_of_nodes(&ns, Ghost(self.successors(*block)))
    }

    /// The blocks that edges into `block` come from, the most recently added edge
    /// first; `block` must be a block of the graph.
    pub fn get_predecessors(&self, block: &BlockLabel) -> (r: Vec<BlockLabel>)
        requires
            self.wf(),
            self.labels().contains(*block),
        ensures
            r@ == self.predecessors(*block),
    {
        proof {
            reveal(ControlFlowGraph::wf);
        }
        let i = match self.position_of_label(block) {
            Some(i) => i,
            None => {
                return Vec::new();
            },
        };
        let ns = graph_neighbors(&self.graph, i, false);
        proof {
            let gs = graph_edges(self.graph);
            lemma_shape_edges(self.blocks@, self.edges@, gs);
            lemma_in_sources(self.blocks@, self.edges@, gs, i as int, *block);
            let ts = in_sources(gs, i);
            let es = edge_sources(self.edges@, *block);
            assert forall|j: int| 0 <= j < ns@.len() implies (#[trigger] ns@[j]) < self.blocks@.len()
                && self.blocks@[ns@[j] as int].0 == es.reverse()[j] by {
                assert(ns@[j] == ts[ts.len() - 1 - j]);
            }
        }
        self.labels_of_nodes(&ns, Ghost(self.predecessors(*block)))
    }

    /// The registers that the blocks define, in increasing order.
    pub fn collect_variables(&self) -> (r: Vec<RegisterSlot>)
        ensures
            r@.to_set() == self.variables(),
            forall|i: int, j: int| 0 <= i < j < r@.len() ==> r@[i].0 < r@[j].0,
    {
        let mut acc: Vec<(RegisterSlot, ())> = Vec::new();
        let mut i: usize = 0;
        proof {
            assert(key_set(acc@) =~= Set::<RegisterSlot>::empty());
        }
        while i < self.blocks.len()
            invariant
                i <= self.blocks@.len(),
                keys_sorted(acc@),
                forall|r: RegisterSlot| #[trigger] key_set(acc@).contains(r) == exists|j: int|
                    0 <= j < i && #[trigger] defined_registers(self.blocks@[j].1.sequence@).contains(r),
            decreases self.blocks@.len() - i,
        {
            add_defined(&self.blocks[i].1.sequence, &mut acc);
            proof {
                assert forall|r: RegisterSlot| #[trigger] key_set(acc@).contains(r) == exists|j: int|
                    0 <= j < i + 1 && #[trigger] defined_registers(self.blocks@[j].1.sequence@).contains(
                        r,
                    ) by {
                    if defined_registers(self.blocks@[i as int].1.sequence@).contains(r) {
                        assert(0 <= i < i + 1);
                    }
                }
            }
            i = i + 1;
        }
        proof {
            assert(key_set(acc@) =~= self.variables());
        }
        keys_in_order(&acc)
    }
}


/// The edge part of [`holds_shape`], edge by edge.
pub open spec fn edges_match(
    bs: Seq<(BlockLabel, Block)>,
    es: Seq<(BlockLabel, BlockLabel, Edge)>,
    gs: Seq<(usize, usize)>,
) -> bool {
    &&& gs.len() == es.len()
    &&& forall|k: int|
        0 <= k < es.len() ==> (#[trigger] gs[k]).0 < bs.len() && gs[k].1 < bs.len() && bs[gs[k].0 as int].0
            == es[k].0 && bs[gs[k].1 as int].0 == es[k].1
}

proof fn lemma_shape_edges(
    bs: Seq<(BlockLabel, Block)>,
    es: Seq<(BlockLabel, BlockLabel, Edge)>,
    gs: Seq<(usize, usize)>,
)
    requires
        holds_shape(bs, es, label_numbers(bs), gs),
    ensures
        edges_match(bs, es, gs),
{
}

proof fn lemma_edges_match_prefix(
    bs: Seq<(BlockLabel, Block)>,
    es: Seq<(BlockLabel, BlockLabel, Edge)>,
    gs: Seq<(usize, usize)>,
)
    requires
        edges_match(bs, es, gs),
        es.len() > 0,
    ensures
        edges_match(bs, es.drop_last(), gs.drop_last()),
{
    assert forall|k: int| 0 <= k < es.len() - 1 implies (#[trigger] gs.drop_last()[k]).0 < bs.len()
        && gs.drop_last()[k].1 < bs.len() && bs[gs.drop_last()[k].0 as int].0 == es.drop_last()[k].0
        && bs[gs.drop_last()[k].1 as int].0 == es.drop_last()[k].1 by {
        assert(gs.drop_last()[k] == gs[k]);
        assert(es.drop_last()[k] == es[k]);
    }
}

/// Read through the labels of the blocks, the targets of the graph's edges from
/// the node of a block are the targets of the edges from the block.
proof fn lemma_out_targets(
    bs: Seq<(BlockLabel, Block)>,
    es: Seq<(BlockLabel, BlockLabel, Edge)>,
    gs: Seq<(usize, usize)>,
    i: int,
    b: BlockLabel,
)
    requires
        forall|x: int, y: int| 0 <= x < y < bs.len() ==> bs[x].0 != bs[y].0,
        edges_match(bs, es, gs),
        0 <= i < bs.len(),
        i <= usize::MAX,
        bs[i].0 == b,
    ensures
        out_targets(gs, i as usize).len() == edge_targets(es, b).len(),
        forall|j: int|
            0 <= j < edge_targets(es, b).len() ==> (#[trigger] out_targets(gs, i as usize)[j]) < bs.len()
                && bs[out_targets(gs, i as usize)[j] as int].0 == edge_targets(es, b)[j],
    decreases es.len(),
{
    if es.len() > 0 {
        lemma_edges_match_prefix(bs, es, gs);
        lemma_out_targets(bs, es.drop_last(), gs.drop_last(), i, b);
        let k = es.len() - 1;
        assert(gs[k] == gs.last());
        if gs.last().0 == i as usize {
            assert(es.last().0 == b);
        } else {
            assert(bs[gs.last().0 as int].0 == es.last().0);
            if es.last().0 == b {
                assert(bs[gs.last().0 as int].0 == bs[i].0);
            }
        }
    }
}

/// Read through the labels of the blocks, the sources of the graph's edges into
/// the node of a block are the sources of the edges into the block.
proof fn lemma_in_sources(
    bs: Seq<(BlockLabel, Block)>,
    es: Seq<(BlockLabel, BlockLabel, Edge)>,
    gs: Seq<(usize, usize)>,
    i: int,
    b: BlockLabel,
)
    requires
        forall|x: int, y: int| 0 <= x < y < bs.len() ==> bs[x].0 != bs[y].0,
        edges_match(bs, es, gs),
        0 <= i < bs.len(),
        i <= usize::MAX,
        bs[i].0 == b,
    ensures
        in_sources(gs, i as usize).len() == edge_sources(es, b).len(),
        forall|j: int|
            0 <= j < edge_sources(es, b).len() ==> (#[trigger] in_sources(gs, i as usize)[j]) < bs.len()
                && bs[in_sources(gs, i as usize)[j] as int].0 == edge_sources(es, b)[j],
    decreases es.len(),
{
    if es.len() > 0 {
        lemma_edges_match_prefix(bs, es, gs);
        lemma_in_sources(bs, es.drop_last(), gs.drop_last(), i, b);
        let k = es.len() - 1;
        assert(gs[k] == gs.last());
        if gs.last().1 == i as usize {
            assert(es.last().1 == b);
        } else {
            assert(bs[gs.last().1 as int].0 == es.last().1);
            if es.last().1 == b {
                assert(bs[gs.last().1 as int].0 == bs[i].0);
            }
        }
    }
}

/// The neighbors of a block in a well-formed graph are blocks of the graph.
pub proof fn lemma_neighbors_are_blocks(g: ControlFlowGraph, b: BlockLabel)
    requires
        g.wf(),
    ensures
        forall|i: int| 0 <= i < g.successors(b).len() ==> g.labels().contains(#[trigger] g.successors(b)[i]),
        forall|i: int|
            0 <= i < g.predecessors(b).len() ==> g.labels().contains(#[trigger] g.predecessors(b)[i]),
{
    reveal(ControlFlowGraph::wf);
    lemma_targets_are_blocks(g, g.edges@, b);
    lemma_sources_are_blocks(g, g.edges@, b);
    assert forall|i: int| 0 <= i < g.successors(b).len() implies g.labels().contains(
        #[trigger] g.successors(b)[i],
    ) by {
        let ts = edge_targets(g.edges@, b);
        assert(g.successors(b)[i] == ts[ts.len() - 1 - i]);
    }
    assert forall|i: int| 0 <= i < g.predecessors(b).len() implies g.labels().contains(
        #[trigger] g.predecessors(b)[i],
    ) by {
        let ss = edge_sources(g.edges@, b);
        assert(g.predecessors(b)[i] == ss[ss.len() - 1 - i]);
    }
}

proof fn lemma_sources_are_blocks(g: ControlFlowGraph, es: Seq<(BlockLabel, BlockLabel, Edge)>, b: BlockLabel)
    requires
        forall|i: int| 0 <= i < es.len() ==> g.labels().contains((#[trigger] es[i]).0),
    ensures
        forall|i: int|
            0 <= i < edge_sources(es, b).len() ==> g.labels().contains(#[trigger] edge_sources(es, b)[i]),
    decreases es.len(),
{
    if es.len() > 0 {
        let init = es.drop_last();
        assert forall|i: int| 0 <= i < init.len() implies g.labels().contains((#[trigger] init[i]).0) by {
            assert(init[i] == es[i]);
        }
        lemma_sources_are_blocks(g, init, b);
        assert(g.labels().contains(es[es.len() - 1].0));
        let whole = edge_sources(es, b);
        let part = edge_sources(init, b);
        assert forall|i: int| 0 <= i < whole.len() implies g.labels().contains(#[trigger] whole[i]) by {
            if i < part.len() {
                assert(whole[i] == part[i]);
            }
        }
    }
}

proof fn lemma_targets_are_blocks(g: ControlFlowGraph, es: Seq<(BlockLabel, BlockLabel, Edge)>, b: BlockLabel)
    requires
        forall|i: int| 0 <= i < es.len() ==> g.labels().contains((#[trigger] es[i]).1),
    ensures
        forall|i: int|
            0 <= i < edge_targets(es, b).len() ==> g.labels().contains(#[trigger] edge_targets(es, b)[i]),
    decreases es.len(),
{
    if es.len() > 0 {
        let init = es.drop_last();
        assert forall|i: int| 0 <= i < init.len() implies g.labels().contains((#[trigger] init[i]).1) by {
            assert(init[i] == es[i]);
        }
        lemma_targets_are_blocks(g, init, b);
        assert(g.labels().contains(es[es.len() - 1].1));
        let whole = edge_targets(es, b);
        let part = edge_targets(init, b);
        assert forall|i: int| 0 <= i < whole.len() implies g.labels().contains(#[trigger] whole[i]) by {
            if i < part.len() {
                assert(whole[i] == part[i]);
            }
        }
    }
}

} // verus!

verus! {

/// Following edges from `a`, `b` is met exactly when some edge runs from `a` to `b`;
/// and the same holds of the sources of the edges into `b`.
proof fn lemma_edge_ends(es: Seq<(BlockLabel, BlockLabel, Edge)>, a: BlockLabel, b: BlockLabel)
    ensures
        edge_targets(es, a).contains(b) <==> exists|i: int| 0 <= i < es.len() && es[i].0 == a && es[i].1 == b,
        edge_sources(es, b).contains(a) <==> exists|i: int| 0 <= i < es.len() && es[i].0 == a && es[i].1 == b,
    decreases es.len(),
{
    if es.len() > 0 {
        let init = es.drop_last();
        lemma_edge_ends(init, a, b);
        if exists|i: int| 0 <= i < init.len() && init[i].0 == a && init[i].1 == b {
            let i = choose|i: int| 0 <= i < init.len() && init[i].0 == a && init[i].1 == b;
            assert(es[i] == init[i]);
        }
        if exists|i: int| 0 <= i < es.len() && es[i].0 == a && es[i].1 == b {
            let i = choose|i: int| 0 <= i < es.len() && es[i].0 == a && es[i].1 == b;
            if i < es.len() - 1 {
                assert(init[i] == es[i]);
            }
        }
        if edge_targets(es, a).contains(b) && !edge_targets(init, a).contains(b) {
            let k = choose|k: int| 0 <= k < edge_targets(es, a).len() && edge_targets(es, a)[k] == b;
            assert(es[es.len() - 1].0 == a && es[es.len() - 1].1 == b);
        }
        if edge_sources(es, b).contains(a) && !edge_sources(init, b).contains(a) {
            let k = choose|k: int| 0 <= k < edge_sources(es, b).len() && edge_sources(es, b)[k] == a;
            assert(es[es.len() - 1].0 == a && es[es.len() - 1].1 == b);
        }
        if edge_targets(init, a).contains(b) {
            let k = choose|k: int| 0 <= k < edge_targets(init, a).len() && edge_targets(init, a)[k] == b;
            assert(edge_targets(es, a)[k] == b);
        }
        if edge_sources(init, b).contains(a) {
            let k = choose|k: int| 0 <= k < edge_sources(init, b).len() && edge_sources(init, b)[k] == a;
            assert(edge_sources(es, b)[k] == a);
        }
        if es.last().0 == a && es.last().1 == b {
            assert(edge_targets(es, a).last() == b);
            assert(edge_sources(es, b).last() == a);
        }
    }
}

/// A sequence read backward holds the same items.
proof fn lemma_reverse_contains(s: Seq<BlockLabel>, x: BlockLabel)
    ensures
        s.reverse().contains(x) <==> s.contains(x),
{
    if s.contains(x) {
        let i = choose|i: int| 0 <= i < s.len() && s[i] == x;
        assert(s.reverse()[s.len() - 1 - i] == x);
    }
    if s.reverse().contains(x) {
        let i = choose|i: int| 0 <= i < s.reverse().len() && s.reverse()[i] == x;
        assert(s[s.len() - 1 - i] == x);
    }
}

/// Successors and predecessors agree: `b` follows `a` exactly when `a` precedes `b`.
pub proof fn law_neighbors_symmetric(g: ControlFlowGraph, a: BlockLabel, b: BlockLabel)
    ensures
        g.successors(a).contains(b) <==> g.predecessors(b).contains(a),
{
    lemma_edge_ends(g.edges@, a, b);
    lemma_reverse_contains(edge_targets(g.edges@, a), b);
    lemma_reverse_contains(edge_sources(g.edges@, b), a);
}

} // verus!
