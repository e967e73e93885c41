use vstd::prelude::*;

use crate::analysis::domain::AbstractDomain;
use crate::analysis::keyed::{
    as_map, find_key, has_key, insert_value, keys_sorted, lemma_value_at,
};
use crate::analysis::store::{combine_stores, VariableStore};
use crate::ir::cfg::ControlFlowGraph;
use crate::ir::function::Function;
use crate::ir::instruction::Instruction;
use crate::ir::value::{BlockLabel, RegisterSlot};

verus! {

/// The effect of an instruction on a store of abstract values, as an analysis
/// defines it.
pub trait Transfer<D: AbstractDomain> {
    /// Whether the instruction can be interpreted on a store with this model.
    spec fn applies(inst: &Instruction, m: Map<RegisterSlot, D::Model>) -> bool;

    /// The model of the store after interpreting the instruction.
    spec fn effect(inst: &Instruction, m: Map<RegisterSlot, D::Model>) -> Map<RegisterSlot, D::Model>;

    /// Whether the instruction can be interpreted on the store.
    fn can_apply(&self, inst: &Instruction, store: &VariableStore<D>) -> (r: bool)
        requires
            store.wf(),
        ensures
            r == Self::applies(inst, store.model()),
    ;

    /// Interprets the instruction on the store.
    fn apply(&self, inst: &Instruction, store: &mut VariableStore<D>)
        requires
            old(store).wf(),
            Self::applies(inst, old(store).model()),
        ensures
            final(store).wf(),
            final(store).model() == Self::effect(inst, old(store).model()),
    ;
}

/// The states of a block: (incoming, outgoing).
#[derive(Debug)]
pub struct BlockState<D>(pub VariableStore<D>, pub VariableStore<D>);

/// The states of every block of a control-flow graph, ordered by label.
#[derive(Debug)]
pub struct CfgState<D>(pub Vec<(BlockLabel, BlockState<D>)>);

/// The direction we traverse the Control Flow Graph
#[derive(Debug, Clone, Copy, PartialEq, Eq, Structural)]
pub enum CfgDirection {
    Forward,
    Backward,
}

impl<D: AbstractDomain> BlockState<D> {
    pub open spec fn wf(&self) -> bool {
        self.0.wf() && self.1.wf()
    }

    /// The models of the incoming and the outgoing store.
    pub open spec fn model(&self) -> (Map<RegisterSlot, D::Model>, Map<RegisterSlot, D::Model>) {
        (self.0.model(), self.1.model())
    }

    /// A copy of the states.
    pub fn duplicate(&self) -> (r: Self)
        requires
            self.wf(),
        ensures
            r.wf(),
            r.model() == self.model(),
    {
        BlockState(self.0.duplicate(), self.1.duplicate())
    }
}

impl<D: AbstractDomain> CfgState<D> {
    pub open spec fn wf(&self) -> bool {
        &&& keys_sorted(self.0@)
        &&& forall|i: int| 0 <= i < self.0@.len() ==> (#[trigger] self.0@[i]).1.wf()
    }

    /// The states of every block, by label.
    pub open spec fn model(&self) -> Map<
        BlockLabel,
        (Map<RegisterSlot, D::Model>, Map<RegisterSlot, D::Model>),
    > {
        as_map(self.0@).map_values(|bs: BlockState<D>| bs.model())
    }

    /// No block has a state yet.
    pub fn empty() -> (r: Self)
        ensures
            r.wf(),
            r.model() == Map::<
                BlockLabel,
                (Map<RegisterSlot, D::Model>, Map<RegisterSlot, D::Model>),
            >::empty(),
    {
        let r = CfgState(Vec::new());
        assert(r.model() =~= Map::empty());
        r
    }

    /// Every given block starts with a copy of `initial`.
    pub fn from(blocks: &Vec<BlockLabel>, initial: &BlockState<D>) -> (r: Self)
        requires
            initial.wf(),
        ensures
            r.wf(),
            r.model() == Map::new(|b: BlockLabel| blocks@.contains(b), |b: BlockLabel| initial.model()),
    {
        let mut r = CfgState(Vec::new());
        let mut i: usize = 0;
        assert(r.model() =~= Map::new(
            |b: BlockLabel| blocks@.take(0).contains(b),
            |b: BlockLabel| initial.model(),
        ));
        while i < blocks.len()
            invariant
                initial.wf(),
                i <= blocks@.len(),
                r.wf(),
                r.model() == Map::new(
                    |b: BlockLabel| blocks@.take(i as int).contains(b),
                    |b: BlockLabel| initial.model(),
                ),
            decreases blocks@.len() - i,
        {
            let st = initial.duplicate();
            r.set_state(blocks[i], st);
            proof {
                let t1 = blocks@.take(i + 1);
                let t0 = blocks@.take(i as int);
                assert forall|b: BlockLabel| t1.contains(b) == (t0.contains(b) || b == blocks@[i as int]) by {
                    if t1.contains(b) {
                        let j = choose|j: int| 0 <= j < t1.len() && t1[j] == b;
                        if j < i {
                            assert(t0[j] == b);
                        }
                    }
                    if t0.contains(b) {
                        let j = choose|j: int| 0 <= j < t0.len() && t0[j] == b;
                        assert(t1[j] == b);
                    }
                    if b == blocks@[i as int] {
                        assert(t1[i as int] == b);
                    }
                }
                assert(r.model() =~= Map::new(
                    |b: BlockLabel| t1.contains(b),
                    |b: BlockLabel| initial.model(),
                ));
            }
            i = i + 1;
        }
        assert(blocks@.take(blocks@.len() as int) =~= blocks@);
        r
    }

    /// Sets the states of a block.
    pub fn set_state(&mut self, label: BlockLabel, st: BlockState<D>)
        requires
            old(self).wf(),
            st.wf(),
        ensures
            final(self).wf(),
            final(self).model() == old(self).model().insert(label, st.model()),
    {
        let ghost s0 = self.0@;
        let ghost m = st.model();
        proof {
            assert forall|i: int| 0 <= i < s0.len() implies (#[trigger] s0[i]).1.wf() by {}
        }
        insert_value(&mut self.0, label, st);
        proof {
            let s1 = self.0@;
            assert forall|i: int| 0 <= i < s1.len() implies (#[trigger] s1[i]).1.wf() by {
                lemma_value_at(s1, i);
                if s1[i].0 != label {
                    let k = s1[i].0;
                    assert(as_map(s0).contains_key(k));
                    let j = choose|j: int| 0 <= j < s0.len() && s0[j].0 == k;
                    lemma_value_at(s0, j);
                }
            }
            assert(self.model() =~= old(self).model().insert(label, m));
        }
    }
}

/// The store that a partner block offers to a join: the store on its far side
/// (outgoing going forward, incoming going backward).
pub open spec fn partner_store<D: AbstractDomain>(
    s: Map<BlockLabel, (Map<RegisterSlot, D::Model>, Map<RegisterSlot, D::Model>)>,
    p: BlockLabel,
    forward: bool,
) -> Map<RegisterSlot, D::Model> {
    if forward {
        s[p].1
    } else {
        s[p].0
    }
}

/// The store on the side where interpretation of a block starts: incoming going
/// forward, outgoing going backward.
pub open spec fn entry_store<D: AbstractDomain>(
    st: (Map<RegisterSlot, D::Model>, Map<RegisterSlot, D::Model>),
    forward: bool,
) -> Map<RegisterSlot, D::Model> {
    if forward {
        st.0
    } else {
        st.1
    }
}

/// The store on the side where interpretation of a block ends: outgoing going
/// forward, incoming going backward.
pub open spec fn result_store<D: AbstractDomain>(
    st: (Map<RegisterSlot, D::Model>, Map<RegisterSlot, D::Model>),
    forward: bool,
) -> Map<RegisterSlot, D::Model> {
    if forward {
        st.1
    } else {
        st.0
    }
}

/// The instructions of a block in the order of interpretation.
pub open spec fn block_order(g: ControlFlowGraph, b: BlockLabel, forward: bool) -> Seq<Instruction> {
    if forward {
        g.instructions(b)
    } else {
        g.instructions(b).reverse()
    }
}

/// Joins a store with the stores of the partner blocks, in order; nothing where a
/// partner lacks a register of the store.
pub open spec fn join_partners<D: AbstractDomain>(
    acc: Map<RegisterSlot, D::Model>,
    partners: Seq<BlockLabel>,
    s: Map<BlockLabel, (Map<RegisterSlot, D::Model>, Map<RegisterSlot, D::Model>)>,
    forward: bool,
) -> Option<Map<RegisterSlot, D::Model>>
    decreases partners.len(),
{
    if partners.len() == 0 {
        Some(acc)
    } else {
        match join_partners::<D>(acc, partners.drop_last(), s, forward) {
            None => None,
            Some(x) => {
                let o = partner_store::<D>(s, partners.last(), forward);
                if x.dom().subset_of(o.dom()) {
                    Some(combine_stores::<D>(x, o, false))
                } else {
                    None
                }
            },
        }
    }
}

/// Interprets instructions in order on a store; nothing where one cannot be applied.
pub open spec fn run_instructions<D: AbstractDomain, T: Transfer<D>>(
    insts: Seq<Instruction>,
    m: Map<RegisterSlot, D::Model>,
) -> Option<Map<RegisterSlot, D::Model>>
    decreases insts.len(),
{
    if insts.len() == 0 {
        Some(m)
    } else {
        match run_instructions::<D, T>(insts.drop_last(), m) {
            None => None,
            Some(x) => if T::applies(&insts.last(), x) {
                Some(T::effect(&insts.last(), x))
            } else {
                None
            },
        }
    }
}

/// One visit of block `b`: its entry store (incoming going forward, outgoing
/// going backward) is joined with the partner blocks (predecessors forward,
/// successors backward), widened against that entry store, and interpreted through
/// the block's instructions (in reverse going backward). The entry store becomes
/// the widened store and the result store the interpreted one; where the latter
/// differs from the previous result store, the blocks that depend on `b`
/// (successors forward, predecessors backward) are to be visited. Nothing where a
/// step cannot be made.
#[verifier::opaque]
pub open spec fn visit<D: AbstractDomain, T: Transfer<D>>(
    g: ControlFlowGraph,
    forward: bool,
    s: Map<BlockLabel, (Map<RegisterSlot, D::Model>, Map<RegisterSlot, D::Model>)>,
    b: BlockLabel,
) -> Option<(Map<BlockLabel, (Map<RegisterSlot, D::Model>, Map<RegisterSlot, D::Model>)>, Seq<BlockLabel>)> {
    let entry = entry_store::<D>(s[b], forward);
    let partners = if forward {
        g.predecessors(b)
    } else {
        g.successors(b)
    };
    match join_partners::<D>(entry, partners, s, forward) {
        None => None,
        Some(joined) => if !joined.dom().subset_of(entry.dom()) {
            None
        } else {
            let widened = combine_stores::<D>(joined, entry, true);
            finish_visit::<D>(
                g,
                forward,
                s,
                b,
                widened,
                run_instructions::<D, T>(block_order(g, b, forward), widened),
            )
        },
    }
}

/// The end of a visit of block `b`, given the widened entry store and the outcome
/// of its instructions.
pub open spec fn finish_visit<D: AbstractDomain>(
    g: ControlFlowGraph,
    forward: bool,
    s: Map<BlockLabel, (Map<RegisterSlot, D::Model>, Map<RegisterSlot, D::Model>)>,
    b: BlockLabel,
    widened: Map<RegisterSlot, D::Model>,
    outcome: Option<Map<RegisterSlot, D::Model>>,
) -> Option<(Map<BlockLabel, (Map<RegisterSlot, D::Model>, Map<RegisterSlot, D::Model>)>, Seq<BlockLabel>)> {
    match outcome {
        None => None,
        Some(x) => Some(
            (
                s.insert(
                    b,
                    if forward {
                        (widened, x)
                    } else {
                        (x, widened)
                    },
                ),
                if x == result_store::<D>(s[b], forward) {
                    Seq::empty()
                } else if forward {
                    g.successors(b)
                } else {
                    g.predecessors(b)
                },
            ),
        ),
    }
}

/// The block of least label in a non-empty worklist.
pub open spec fn least_label(w: Set<BlockLabel>) -> BlockLabel {
    choose|l: BlockLabel| w.contains(l) && forall|m: BlockLabel| w.contains(m) ==> l.0 <= m.0
}

/// The worklist iteration: while the worklist is not empty, the block of least
/// label leaves it and is visited, and the blocks that the visit names join it.
/// The states when the worklist is empty; nothing where a visit cannot be made or
/// `fuel` visits do not empty the worklist.
#[verifier::opaque]
pub open spec fn run<D: AbstractDomain, T: Transfer<D>>(
    g: ControlFlowGraph,
    forward: bool,
    s: Map<BlockLabel, (Map<RegisterSlot, D::Model>, Map<RegisterSlot, D::Model>)>,
    w: Set<BlockLabel>,
    fuel: nat,
) -> Option<Map<BlockLabel, (Map<RegisterSlot, D::Model>, Map<RegisterSlot, D::Model>)>>
    decreases fuel,
{
    if w == Set::<BlockLabel>::empty() {
        Some(s)
    } else if fuel == 0 {
        None
    } else {
        let b = least_label(w);
        match visit::<D, T>(g, forward, s, b) {
            None => None,
            Some((s2, added)) => run::<D, T>(
                g,
                forward,
                s2,
                w.remove(b).union(added.to_set()),
                (fuel - 1) as nat,
            ),
        }
    }
}

/// The store every block starts with: each register of the graph at bottom.
pub open spec fn initial_store<D: AbstractDomain>(g: ControlFlowGraph) -> Map<RegisterSlot, D::Model> {
    Map::new(|r: RegisterSlot| g.variables().contains(r), |r: RegisterSlot| D::bottom_value())
}

/// The states every block starts with.
pub open spec fn initial_states<D: AbstractDomain>(g: ControlFlowGraph) -> Map<
    BlockLabel,
    (Map<RegisterSlot, D::Model>, Map<RegisterSlot, D::Model>),
> {
    Map::new(
        |b: BlockLabel| g.labels().contains(b),
        |b: BlockLabel| (initial_store::<D>(g), initial_store::<D>(g)),
    )
}

/// The outcome of an analysis of a function: no states without a body; otherwise
/// the worklist iteration from the initial states, with every block in the worklist.
pub open spec fn analysis_outcome<D: AbstractDomain, T: Transfer<D>>(
    body: Option<ControlFlowGraph>,
    forward: bool,
    fuel: nat,
) -> Option<Map<BlockLabel, (Map<RegisterSlot, D::Model>, Map<RegisterSlot, D::Model>)>> {
    match body {
        None => Some(Map::empty()),
        Some(g) => run::<D, T>(g, forward, initial_states::<D>(g), g.labels().to_set(), fuel),
    }
}


pub proof fn lemma_join_prefix<D: AbstractDomain>(
    acc: Map<RegisterSlot, D::Model>,
    partners: Seq<BlockLabel>,
    s: Map<BlockLabel, (Map<RegisterSlot, D::Model>, Map<RegisterSlot, D::Model>)>,
    forward: bool,
    i: int,
)
    requires
        0 <= i <= partners.len(),
        join_partners::<D>(acc, partners.take(i), s, forward) is None,
    ensures
        join_partners::<D>(acc, partners, s, forward) is None,
    decreases partners.len() - i,
{
    if i < partners.len() {
        assert(partners.take(i + 1).drop_last() =~= partners.take(i));
        lemma_join_prefix::<D>(acc, partners, s, forward, i + 1);
    } else {
        assert(partners.take(i) =~= partners);
    }
}

pub proof fn lemma_run_prefix<D: AbstractDomain, T: Transfer<D>>(
    insts: Seq<Instruction>,
    m: Map<RegisterSlot, D::Model>,
    i: int,
)
    requires
        0 <= i <= insts.len(),
        run_instructions::<D, T>(insts.take(i), m) is None,
    ensures
        run_instructions::<D, T>(insts, m) is None,
    decreases insts.len() - i,
{
    if i < insts.len() {
        assert(insts.take(i + 1).drop_last() =~= insts.take(i));
        lemma_run_prefix::<D, T>(insts, m, i + 1);
    } else {
        assert(insts.take(i) =~= insts);
    }
}

impl<D: AbstractDomain> CfgState<D> {
    /// The states of a block that the state holds.
    pub fn get_state(&self, label: &BlockLabel) -> (r: &BlockState<D>)
        requires
            self.wf(),
            self.model().contains_key(*label),
        ensures
            r.wf(),
            r.model() == self.model()[*label],
    {
        let i = find_key(&self.0, label).unwrap();
        proof {
            lemma_value_at(self.0@, i as int);
        }
        &self.0[i].1
    }
}

/// Visits block `b` (see [`visit`]), updating its states; the blocks to visit next.
fn visit_block<D: AbstractDomain, T: Transfer<D>>(
    g: &ControlFlowGraph,
    transfer: &T,
    forward: bool,
    states: &mut CfgState<D>,
    b: BlockLabel,
) -> (r: Option<Vec<BlockLabel>>)
    requires
        g.wf(),
        old(states).wf(),
        old(states).model().dom() == g.labels().to_set(),
        g.labels().contains(b),
        forall|x: D::Model, y: D::Model| D::can_combine(x, y),
    ensures
        match visit::<D, T>(*g, forward, old(states).model(), b) {
            None => r is None,
            Some((s2, added)) => r matches Some(v) && v@ == added && final(states).wf()
                && final(states).model() == s2,
        },
{
    let ghost s = states.model();
    reveal(visit);
    assert(s.contains_key(b));
    let (entry, prev) = {
        let st = states.get_state(&b);
        if forward {
            (st.0.duplicate(), st.1.duplicate())
        } else {
            (st.1.duplicate(), st.0.duplicate())
        }
    };
    let ghost em = entry_store::<D>(s[b], forward);
    let partners = if forward {
        g.get_predecessors(&b)
    } else {
        g.get_successors(&b)
    };
    let ghost ps = partners@;
    // join the partner blocks
    let mut acc = entry.duplicate();
    let mut i: usize = 0;
    assert(ps.take(0) =~= Seq::<BlockLabel>::empty());
    while i < partners.len()
        invariant
            g.wf(),
            states.wf(),
            states.model() == s,
            s == old(states).model(),
            s.dom() == g.labels().to_set(),
            ps == partners@,
            ps == (if forward {
                g.predecessors(b)
            } else {
                g.successors(b)
            }),
            forall|x: D::Model, y: D::Model| D::can_combine(x, y),
            i <= ps.len(),
            acc.wf(),
            entry.wf(),
            entry.model() == em,
            em == entry_store::<D>(s[b], forward),
            g.labels().contains(b),
            join_partners::<D>(em, ps.take(i as int), s, forward) == Some(acc.model()),
        decreases ps.len() - i,
    {
        let p = partners[i];
        proof {
            assert(ps.take(i + 1).drop_last() =~= ps.take(i as int));
            assert(ps.take(i + 1).last() == p);
            lemma_partner_is_block(*g, b, forward, i as int);
        }
        let st = states.get_state(&p);
        let o = if forward {
            &st.1
        } else {
            &st.0
        };
        assert(o.model() == partner_store::<D>(s, p, forward));
        if !o.covers(&acc) {
            proof {
                reveal(visit);
                assert(join_partners::<D>(em, ps.take(i + 1), s, forward) is None);
                lemma_join_prefix::<D>(em, ps, s, forward, i + 1);
            }
            return None;
        }
        acc = acc.combine_with(o, false);
        i = i + 1;
    }
    assert(ps.take(ps.len() as int) =~= ps);
    // widen against the entry store
    if !entry.covers(&acc) {
        return None;
    }
    let mut x = acc.combine_with(&entry, true);
    let pre = x.duplicate();
    // interpret the instructions
    let block = g.get_block_by_label(&b).unwrap();
    let insts = block.get_instructions();
    let ghost seq = insts@;
    let ghost ordered = block_order(*g, b, forward);
    let ghost widened = x.model();
    assert(seq == g.instructions(b));
    assert(visit::<D, T>(*g, forward, s, b) == finish_visit::<D>(
        *g,
        forward,
        s,
        b,
        widened,
        run_instructions::<D, T>(ordered, widened),
    ));
    let n = insts.len();
    let mut k: usize = 0;
    assert(ordered.take(0) =~= Seq::<Instruction>::empty());
    while k < n
        invariant
            visit::<D, T>(*g, forward, s, b) == finish_visit::<D>(
                *g,
                forward,
                s,
                b,
                widened,
                run_instructions::<D, T>(ordered, widened),
            ),
            n == seq.len(),
            states.model() == s,
            s == old(states).model(),
            seq == insts@,
            seq == g.instructions(b),
            ordered == block_order(*g, b, forward),
            k <= n,
            x.wf(),
            pre.wf(),
            pre.model() == widened,
            prev.wf(),
            prev.model() == result_store::<D>(s[b], forward),
            run_instructions::<D, T>(ordered.take(k as int), widened) == Some(x.model()),
        decreases n - k,
    {
        let idx = if forward {
            k
        } else {
            n - 1 - k
        };
        let inst = &insts[idx];
        proof {
            assert(ordered.take(k + 1).drop_last() =~= ordered.take(k as int));
            assert(ordered.take(k + 1).last() == ordered[k as int]);
            assert(ordered[k as int] == seq[idx as int]);
        }
        if !transfer.can_apply(inst, &x) {
            proof {
                lemma_run_prefix::<D, T>(ordered, widened, k + 1);
            }
            return None;
        }
        transfer.apply(inst, &mut x);
        k = k + 1;
    }
    assert(ordered.take(n as int) =~= ordered);
    let changed = !x.same_as(&prev);
    let next = if !changed {
        Vec::new()
    } else if forward {
        g.get_successors(&b)
    } else {
        g.get_predecessors(&b)
    };
    if forward {
        states.set_state(b, BlockState(pre, x));
    } else {
        states.set_state(b, BlockState(x, pre));
    }
    Some(next)
}

/// A partner of a block in the graph is a block of the graph.
proof fn lemma_partner_is_block(g: ControlFlowGraph, b: BlockLabel, forward: bool, i: int)
    requires
        g.wf(),
        0 <= i < (if forward {
            g.predecessors(b)
        } else {
            g.successors(b)
        }).len(),
    ensures
        g.labels().contains(
            (if forward {
                g.predecessors(b)
            } else {
                g.successors(b)
            })[i],
        ),
{
    crate::ir::cfg::lemma_neighbors_are_blocks(g, b);
}

/// The labels held by a sorted worklist.
#[verifier::opaque]
pub open spec fn pending(w: Seq<(BlockLabel, ())>) -> Set<BlockLabel> {
    as_map(w).dom()
}

proof fn lemma_least_label(w: Seq<(BlockLabel, ())>)
    requires
        keys_sorted(w),
        w.len() > 0,
    ensures
        least_label(pending(w)) == w[0].0,
        pending(w).contains(w[0].0),
        pending(w) != Set::<BlockLabel>::empty(),
{
    reveal(pending);
    lemma_value_at(w, 0);
    assert(pending(w).contains(w[0].0));
    assert forall|m: BlockLabel| pending(w).contains(m) implies w[0].0.0 <= m.0 by {
        let j = choose|j: int| 0 <= j < w.len() && w[j].0 == m;
        if j > 0 {
            assert(w[0].0.0 < w[j].0.0);
        }
    }
    let l = least_label(pending(w));
    assert(l.0 <= w[0].0.0);
    assert(l == w[0].0);
}

/// Removes the first entry of a sorted worklist.
fn pop_first(w: &mut Vec<(BlockLabel, ())>) -> (r: BlockLabel)
    requires
        keys_sorted(old(w)@),
        old(w)@.len() > 0,
    ensures
        keys_sorted(final(w)@),
        r == old(w)@[0].0,
        pending(final(w)@) == pending(old(w)@).remove(r),
{
    let ghost w0 = w@;
    let (b, _) = w.remove(0);
    proof {
        reveal(pending);
        let w1 = w@;
        assert(w1 =~= w0.drop_first());
        assert forall|l: BlockLabel| pending(w1).contains(l) == pending(w0).remove(b).contains(l) by {
            if has_key(w1, l) {
                let j = choose|j: int| 0 <= j < w1.len() && w1[j].0 == l;
                assert(w0[j + 1].0 == l);
                assert(w0[0].0.0 < w0[j + 1].0.0);
            }
            if has_key(w0, l) && l != b {
                let j = choose|j: int| 0 <= j < w0.len() && w0[j].0 == l;
                assert(j != 0);
                assert(w1[j - 1].0 == l);
            }
        }
        assert(pending(w1) =~= pending(w0).remove(b));
    }
    b
}

/// Adds labels to a sorted worklist.
fn push_all(w: &mut Vec<(BlockLabel, ())>, labels: &Vec<BlockLabel>)
    requires
        keys_sorted(old(w)@),
    ensures
        keys_sorted(final(w)@),
        pending(final(w)@) == pending(old(w)@).union(labels@.to_set()),
{
    let ghost start = pending(w@);
    let mut i: usize = 0;
    while i < labels.len()
        invariant
            i <= labels@.len(),
            keys_sorted(w@),
            pending(w@) == start.union(labels@.take(i as int).to_set()),
        decreases labels@.len() - i,
    {
        insert_value(w, labels[i], ());
        proof {
            reveal(pending);
            assert(labels@.take(i + 1) =~= labels@.take(i as int).push(labels@[i as int]));
            labels@.take(i as int).lemma_push_to_set_commute(labels@[i as int]);
            assert(pending(w@) =~= start.union(labels@.take(i + 1).to_set()));
        }
        i = i + 1;
    }
    assert(labels@.take(labels@.len() as int) =~= labels@);
}

/// Takes the block of least label off the worklist and visits it, adding the
/// blocks the visit names; `false` where the visit cannot be made.
fn advance<D: AbstractDomain, T: Transfer<D>>(
    body: &ControlFlowGraph,
    transfer: &T,
    forward: bool,
    states: &mut CfgState<D>,
    worklist: &mut Vec<(BlockLabel, ())>,
    fuel_left: usize,
) -> (r: bool)
    requires
        body.wf(),
        forall|x: D::Model, y: D::Model| D::can_combine(x, y),
        old(states).wf(),
        old(states).model().dom() == body.labels().to_set(),
        keys_sorted(old(worklist)@),
        old(worklist)@.len() > 0,
        pending(old(worklist)@).subset_of(body.labels().to_set()),
        fuel_left > 0,
    ensures
        r ==> final(states).wf() && final(states).model().dom() == body.labels().to_set() && keys_sorted(
            final(worklist)@,
        ) && pending(final(worklist)@).subset_of(body.labels().to_set()) && run::<D, T>(
            *body,
            forward,
            final(states).model(),
            pending(final(worklist)@),
            (fuel_left - 1) as nat,
        ) == run::<D, T>(*body, forward, old(states).model(), pending(old(worklist)@), fuel_left as nat),
        !r ==> run::<D, T>(*body, forward, old(states).model(), pending(old(worklist)@), fuel_left as nat)
            is None,
{
    let ghost s = states.model();
    let ghost w = pending(worklist@);
    proof {
        lemma_least_label(worklist@);
    }
    let b = pop_first(worklist);
    proof {
        assert(w.contains(b));
        assert(body.labels().to_set().contains(b));
        lemma_run_step::<D, T>(*body, forward, s, w, fuel_left as nat);
        lemma_visit_shape::<D, T>(*body, forward, s, b);
    }
    match visit_block(body, transfer, forward, states, b) {
        None => {
            assert(visit::<D, T>(*body, forward, s, b) is None);
            assert(b == least_label(w));
            assert(run::<D, T>(*body, forward, s, w, fuel_left as nat) is None);
            false
        },
        Some(next) => {
            proof {
                lemma_next_are_blocks(*body, b, forward, next@);
            }
            push_all(worklist, &next);
            true
        },
    }
}

/// Runs the worklist iteration over a function body (see [`run`]).
fn interpret_function<D: AbstractDomain, T: Transfer<D>>(
    body: &ControlFlowGraph,
    transfer: &T,
    forward: bool,
    fuel: usize,
) -> (r: Option<CfgState<D>>)
    requires
        body.wf(),
        forall|x: D::Model, y: D::Model| D::can_combine(x, y),
    ensures
        match run::<D, T>(*body, forward, initial_states::<D>(*body), body.labels().to_set(), fuel as nat) {
            None => r is None,
            Some(m) => r matches Some(st) && st.wf() && st.model() == m,
        },
{
    let ghost outcome = run::<D, T>(
        *body,
        forward,
        initial_states::<D>(*body),
        body.labels().to_set(),
        fuel as nat,
    );
    let variables = body.collect_variables();
    let initial: BlockState<D> = BlockState(
        VariableStore::from(&variables),
        VariableStore::from(&variables),
    );
    proof {
        assert(initial.0.model() =~= initial_store::<D>(*body));
        assert(initial.1.model() =~= initial_store::<D>(*body));
    }
    let blocks = body.get_blocks();
    let mut states = CfgState::from(&blocks, &initial);
    proof {
        assert(states.model() =~= initial_states::<D>(*body));
    }
    let mut worklist: Vec<(BlockLabel, ())> = Vec::new();
    proof {
        reveal(pending);
        assert(pending(worklist@) =~= Set::<BlockLabel>::empty());
    }
    push_all(&mut worklist, &blocks);
    proof {
        assert(pending(worklist@) =~= body.labels().to_set());
    }
    let mut fuel_left = fuel;
    loop
        invariant
            body.wf(),
            forall|x: D::Model, y: D::Model| D::can_combine(x, y),
            states.wf(),
            states.model().dom() == body.labels().to_set(),
            keys_sorted(worklist@),
            pending(worklist@).subset_of(body.labels().to_set()),
            run::<D, T>(*body, forward, states.model(), pending(worklist@), fuel_left as nat) == outcome,
            outcome == run::<D, T>(
                *body,
                forward,
                initial_states::<D>(*body),
                body.labels().to_set(),
                fuel as nat,
            ),
        decreases fuel_left,
    {
        if worklist.len() == 0 {
            proof {
                reveal(pending);
                assert(pending(worklist@) =~= Set::<BlockLabel>::empty());
                lemma_run_ends::<D, T>(*body, forward, states.model(), pending(worklist@), fuel_left as nat);
            }
            return Some(states);
        }
        proof {
            lemma_least_label(worklist@);
        }
        if fuel_left == 0 {
            proof {
                lemma_run_ends::<D, T>(*body, forward, states.model(), pending(worklist@), fuel_left as nat);
            }
            return None;
        }
        if !advance(body, transfer, forward, &mut states, &mut worklist, fuel_left) {
            return None;
        }
        fuel_left = fuel_left - 1;
    }
}

/// The worklist iteration ends with the states where the worklist is empty, and
/// with nothing where the fuel is out first.
proof fn lemma_run_ends<D: AbstractDomain, T: Transfer<D>>(
    g: ControlFlowGraph,
    forward: bool,
    s: Map<BlockLabel, (Map<RegisterSlot, D::Model>, Map<RegisterSlot, D::Model>)>,
    w: Set<BlockLabel>,
    fuel: nat,
)
    ensures
        w == Set::<BlockLabel>::empty() ==> run::<D, T>(g, forward, s, w, fuel) == Some(s),
        w != Set::<BlockLabel>::empty() && fuel == 0 ==> run::<D, T>(g, forward, s, w, fuel) is None,
{
    reveal(run);
}

/// One step of the worklist iteration.
proof fn lemma_run_step<D: AbstractDomain, T: Transfer<D>>(
    g: ControlFlowGraph,
    forward: bool,
    s: Map<BlockLabel, (Map<RegisterSlot, D::Model>, Map<RegisterSlot, D::Model>)>,
    w: Set<BlockLabel>,
    fuel: nat,
)
    requires
        w != Set::<BlockLabel>::empty(),
        fuel > 0,
    ensures
        run::<D, T>(g, forward, s, w, fuel) == match visit::<D, T>(g, forward, s, least_label(w)) {
            None => None,
            Some((s2, added)) => run::<D, T>(
                g,
                forward,
                s2,
                w.remove(least_label(w)).union(added.to_set()),
                (fuel - 1) as nat,
            ),
        },
{
    reveal(run);
}

/// A visit keeps the blocks that have states, and names no blocks, the successors
/// or the predecessors of the visited block.
proof fn lemma_visit_shape<D: AbstractDomain, T: Transfer<D>>(
    g: ControlFlowGraph,
    forward: bool,
    s: Map<BlockLabel, (Map<RegisterSlot, D::Model>, Map<RegisterSlot, D::Model>)>,
    b: BlockLabel,
)
    requires
        s.contains_key(b),
    ensures
        visit::<D, T>(g, forward, s, b) matches Some((s2, added)) ==> s2.dom() == s.dom() && (added
            == Seq::<BlockLabel>::empty() || added == g.successors(b) || added == g.predecessors(b)),
{
    reveal(visit);
    if let Some((s2, added)) = visit::<D, T>(g, forward, s, b) {
        assert(s2.dom() =~= s.dom());
    }
}

/// The blocks that a visit names are blocks of the graph.
proof fn lemma_next_are_blocks(g: ControlFlowGraph, b: BlockLabel, forward: bool, next: Seq<BlockLabel>)
    requires
        g.wf(),
        next == Seq::<BlockLabel>::empty() || next == g.successors(b) || next == g.predecessors(b),
    ensures
        next.to_set().subset_of(g.labels().to_set()),
{
    crate::ir::cfg::lemma_neighbors_are_blocks(g, b);
    assert forall|l: BlockLabel| next.to_set().contains(l) implies g.labels().to_set().contains(l) by {
        let i = choose|i: int| 0 <= i < next.len() && next[i] == l;
        if next == g.successors(b) {
            assert(g.labels().contains(g.successors(b)[i]));
        } else if next == g.predecessors(b) {
            assert(g.labels().contains(g.predecessors(b)[i]));
        }
    }
}

/// Analyzes a function with an abstract domain and a transfer function, in the
/// given direction (see [`analysis_outcome`]): the states of every block when the
/// worklist is empty, or `None` where a visit cannot be made or `fuel` visits do
/// not empty the worklist.
pub fn execute<D: AbstractDomain, T: Transfer<D>>(
    function: &Function,
    transfer: &T,
    direction: CfgDirection,
    fuel: usize,
) -> (r: Option<CfgState<D>>)
    requires
        function.body matches Some(g) ==> g.wf(),
        forall|x: D::Model, y: D::Model| D::can_combine(x, y),
    ensures
        match analysis_outcome::<D, T>(function.body, direction == CfgDirection::Forward, fuel as nat) {
            None => r is None,
            Some(m) => r matches Some(st) && st.wf() && st.model() == m,
        },
{
    match &function.body {
        None => Some(CfgState::empty()),
        Some(body) => {
            let forward = match direction {
                CfgDirection::Forward => true,
                CfgDirection::Backward => false,
            };
            interpret_function(body, transfer, forward, fuel)
        },
    }
}

/// Every block outside the worklist is settled: interpreting its instructions on
/// its entry store gives its result store.
pub open spec fn blocks_settled<D: AbstractDomain, T: Transfer<D>>(
    g: ControlFlowGraph,
    forward: bool,
    s: Map<BlockLabel, (Map<RegisterSlot, D::Model>, Map<RegisterSlot, D::Model>)>,
    w: Set<BlockLabel>,
) -> bool {
    forall|b: BlockLabel| #[trigger] s.contains_key(b) && !w.contains(b) ==> run_instructions::<D, T>(
        block_order(g, b, forward),
        entry_store::<D>(s[b], forward),
    ) == Some(result_store::<D>(s[b], forward))
}

proof fn lemma_visit_settles<D: AbstractDomain, T: Transfer<D>>(
    g: ControlFlowGraph,
    forward: bool,
    s: Map<BlockLabel, (Map<RegisterSlot, D::Model>, Map<RegisterSlot, D::Model>)>,
    w: Set<BlockLabel>,
    b: BlockLabel,
)
    requires
        blocks_settled::<D, T>(g, forward, s, w),
        w.contains(b),
    ensures
        visit::<D, T>(g, forward, s, b) matches Some((s2, added)) ==> blocks_settled::<D, T>(
            g,
            forward,
            s2,
            w.remove(b).union(added.to_set()),
        ),
{
    reveal(visit);
    if let Some((s2, added)) = visit::<D, T>(g, forward, s, b) {
        let w2 = w.remove(b).union(added.to_set());
        assert forall|c: BlockLabel| #[trigger] s2.contains_key(c) && !w2.contains(c) implies run_instructions::<D, T>(
            block_order(g, c, forward),
            entry_store::<D>(s2[c], forward),
        ) == Some(result_store::<D>(s2[c], forward)) by {
            if c != b {
                assert(s.contains_key(c) && !w.contains(c));
            }
        }
    }
}

proof fn lemma_run_keeps<D: AbstractDomain, T: Transfer<D>>(
    g: ControlFlowGraph,
    forward: bool,
    s: Map<BlockLabel, (Map<RegisterSlot, D::Model>, Map<RegisterSlot, D::Model>)>,
    w: Set<BlockLabel>,
    fuel: nat,
)
    requires
        g.wf(),
        s.dom() == g.labels().to_set(),
        w.subset_of(s.dom()),
        blocks_settled::<D, T>(g, forward, s, w),
    ensures
        run::<D, T>(g, forward, s, w, fuel) matches Some(m) ==> m.dom() == s.dom() && blocks_settled::<D, T>(
            g,
            forward,
            m,
            Set::empty(),
        ),
    decreases fuel,
{
    lemma_run_ends::<D, T>(g, forward, s, w, fuel);
    if w != Set::<BlockLabel>::empty() && fuel > 0 {
        lemma_run_step::<D, T>(g, forward, s, w, fuel);
        let b = least_label(w);
        assert(w.contains(b)) by {
            if forall|x: BlockLabel| !w.contains(x) {
                assert(w =~= Set::<BlockLabel>::empty());
            }
            let x = choose|x: BlockLabel| w.contains(x);
            lemma_least_exists(w, x);
        }
        lemma_visit_shape::<D, T>(g, forward, s, b);
        lemma_visit_settles::<D, T>(g, forward, s, w, b);
        if let Some((s2, added)) = visit::<D, T>(g, forward, s, b) {
            lemma_next_are_blocks(g, b, forward, added);
            lemma_run_keeps::<D, T>(g, forward, s2, w.remove(b).union(added.to_set()), (fuel - 1) as nat);
        }
    }
}

/// A set of labels with an element has a least one.
proof fn lemma_least_exists(w: Set<BlockLabel>, x: BlockLabel)
    requires
        w.contains(x),
    ensures
        exists|l: BlockLabel| w.contains(l) && forall|m: BlockLabel| w.contains(m) ==> l.0 <= m.0,
    decreases x.0,
{
    if !(forall|m: BlockLabel| w.contains(m) ==> x.0 <= m.0) {
        let y = choose|m: BlockLabel| w.contains(m) && !(x.0 <= m.0);
        lemma_least_exists(w, y);
    }
}

/// Every block of an analyzed function has states, and each block's result store
/// (outgoing going forward, incoming going backward) is what its instructions,
/// interpreted in order (in reverse going backward), make of its entry store.
pub proof fn law_analysis_states<D: AbstractDomain, T: Transfer<D>>(
    body: Option<ControlFlowGraph>,
    forward: bool,
    fuel: nat,
)
    requires
        body matches Some(g) ==> g.wf(),
    ensures
        body matches Some(g) ==> (analysis_outcome::<D, T>(body, forward, fuel) matches Some(m) ==> m.dom()
            == g.labels().to_set() && forall|b: BlockLabel| #[trigger]
            m.contains_key(b) ==> run_instructions::<D, T>(
                block_order(g, b, forward),
                entry_store::<D>(m[b], forward),
            ) == Some(result_store::<D>(m[b], forward))),
        body is None ==> analysis_outcome::<D, T>(body, forward, fuel) == Some(
            Map::<BlockLabel, (Map<RegisterSlot, D::Model>, Map<RegisterSlot, D::Model>)>::empty(),
        ),
{
    if let Some(g) = body {
        let s = initial_states::<D>(g);
        assert(s.dom() =~= g.labels().to_set());
        lemma_run_keeps::<D, T>(g, forward, s, g.labels().to_set(), fuel);
        if let Some(m) = analysis_outcome::<D, T>(body, forward, fuel) {
            assert forall|b: BlockLabel| #[trigger] m.contains_key(b) implies run_instructions::<D, T>(
                block_order(g, b, forward),
                entry_store::<D>(m[b], forward),
            ) == Some(result_store::<D>(m[b], forward)) by {
                assert(!Set::<BlockLabel>::empty().contains(b));
            }
        }
    }
}
} // verus!
