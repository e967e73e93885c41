use vstd::prelude::*;

use crate::error::Failure;
use crate::ir::adapter::cfg::Block as ABlock;
use crate::ir::adapter::instruction::{Inst, Instruction as AInstruction};
use std::collections::{BTreeMap, BTreeSet};

use crate::ir::cfg::{block_labels, distinct_pairs, edges_known, Block, ControlFlowGraph, Edge};
use crate::error::{EngineError, EngineResult};
use crate::ir::context::{scope_of, Context, SymbolRegistry};
use crate::ir::function::opt_type_model;
use crate::ir::instruction::Instruction;
use crate::ir::typing::TypeRegistry;
use crate::ir::shared::Identifier;
use crate::ir::function::Parameter;
use crate::ir::typing::Type;
use crate::ir::instruction::Terminator;
use crate::ir::conversion::{conv_inst, conv_term, Env, Regs, Scope};
use crate::ir::model::{InstModel, TermModel};
use crate::ir::typing::TypeModel;
use crate::ir::value::BlockLabel;

verus! {

broadcast use vstd::std_specs::btree::group_btree_axioms, vstd::laws_cmp::group_laws_cmp;

/// The mathematical model of a [`Block`].
pub struct BlockModel {
    pub sequence: Seq<InstModel>,
    pub terminator: TermModel,
}

/// The mathematical model of an [`Edge`].
pub enum EdgeModel {
    Goto,
    Branch(bool),
    Switch(Seq<Option<u64>>),
    Indirect,
    Invoke(bool),
}

impl Block {
    pub open spec fn model(&self) -> BlockModel {
        BlockModel {
            sequence: self.sequence@.map_values(|i: crate::ir::instruction::Instruction| i.model()),
            terminator: self.terminator.model(),
        }
    }
}

impl Edge {
    pub open spec fn model(&self) -> EdgeModel {
        match self {
            Edge::Goto => EdgeModel::Goto,
            Edge::Branch(b) => EdgeModel::Branch(*b),
            Edge::Switch(s) => EdgeModel::Switch(s@),
            Edge::Indirect => EdgeModel::Indirect,
            Edge::Invoke(b) => EdgeModel::Invoke(*b),
        }
    }
}

/// The models of a list of labelled blocks.
pub open spec fn block_models(bs: Seq<(BlockLabel, Block)>) -> Seq<(BlockLabel, BlockModel)> {
    bs.map_values(|b: (BlockLabel, Block)| (b.0, b.1.model()))
}

/// The models of a list of edges.
pub open spec fn edge_models(es: Seq<(BlockLabel, BlockLabel, Edge)>) -> Seq<(BlockLabel, BlockLabel, EdgeModel)> {
    es.map_values(|e: (BlockLabel, BlockLabel, Edge)| (e.0, e.1, e.2.model()))
}

/// Reads the first `n` instructions of a block body.
pub open spec fn conv_body(env: Env, regs: Regs, insts: Seq<AInstruction>, n: nat) -> (Result<Seq<InstModel>, Failure>, Regs)
    decreases n,
{
    if n == 0 || n > insts.len() {
        (Ok(Seq::empty()), regs)
    } else {
        match conv_body(env, regs, insts, (n - 1) as nat) {
            (Err(f), r) => (Err(f), r),
            (Ok(p), r) => match conv_inst(env, r, insts[n - 1].ty@, insts[n - 1].index, insts[n - 1].repr) {
                (Err(f), r2) => (Err(f), r2),
                (Ok(x), r2) => (Ok(p.push(x)), r2),
            },
        }
    }
}

/// Reads a block: its body, then its terminator.
#[verifier::opaque]
pub open spec fn conv_block(env: Env, regs: Regs, b: ABlock) -> (Result<BlockModel, Failure>, Regs) {
    match conv_body(env, regs, b.body@, b.body@.len()) {
        (Err(f), r) => (Err(f), r),
        (Ok(seq), r) => match conv_term(env, r, b.terminator.ty@, b.terminator.repr) {
            (Err(f), r2) => (Err(f), r2),
            (Ok(t), r2) => (Ok(BlockModel { sequence: seq, terminator: t }), r2),
        },
    }
}

/// Reads the first `n` blocks of a function body, in order.
pub open spec fn conv_blocks(env: Env, regs: Regs, bs: Seq<ABlock>, n: nat) -> (Result<Seq<(BlockLabel, BlockModel)>, Failure>, Regs)
    decreases n,
{
    if n == 0 || n > bs.len() {
        (Ok(Seq::empty()), regs)
    } else {
        match conv_blocks(env, regs, bs, (n - 1) as nat) {
            (Err(f), r) => (Err(f), r),
            (Ok(p), r) => match conv_block(env, r, bs[n - 1]) {
                (Err(f), r2) => (Err(f), r2),
                (Ok(x), r2) => (Ok(p.push((BlockLabel(bs[n - 1].label), x))), r2),
            },
        }
    }
}

/// The order of switch case values in an edge: the default first, then by value.
pub open spec fn case_before(a: Option<u64>, b: Option<u64>) -> bool {
    match (a, b) {
        (None, Some(_)) => true,
        (Some(x), Some(y)) => x < y,
        _ => false,
    }
}

/// A sorted list of case values with one more, placed before the first larger one.
pub open spec fn case_value_insert(s: Seq<Option<u64>>, x: Option<u64>) -> Seq<Option<u64>>
    decreases s.len(),
{
    if s.len() == 0 {
        seq![x]
    } else if case_before(x, s[0]) {
        seq![x] + s
    } else {
        seq![s[0]] + case_value_insert(s.drop_first(), x)
    }
}

/// Index of the first edge into a block among the edges of a switch, if any.
pub open spec fn first_target_index(es: Seq<(BlockLabel, BlockLabel, EdgeModel)>, b: BlockLabel) -> Option<int>
    decreases es.len(),
{
    if es.len() == 0 {
        None
    } else if es[0].1 == b {
        Some(0)
    } else {
        match first_target_index(es.drop_first(), b) {
            Some(i) => Some(i + 1),
            None => None,
        }
    }
}

/// The edges of a switch with one more case value leading to a block: added to
/// the edge into that block where there is one, else on a new edge.
pub open spec fn add_switch_target(
    es: Seq<(BlockLabel, BlockLabel, EdgeModel)>,
    src: BlockLabel,
    b: BlockLabel,
    v: Option<u64>,
) -> Seq<(BlockLabel, BlockLabel, EdgeModel)> {
    match first_target_index(es, b) {
        Some(i) => match es[i].2 {
            EdgeModel::Switch(s) => es.update(i, (src, b, EdgeModel::Switch(case_value_insert(s, v)))),
            _ => es,
        },
        None => es.push((src, b, EdgeModel::Switch(seq![v]))),
    }
}

/// The edges of a switch for its first `n` cases.
pub open spec fn switch_case_edges(src: BlockLabel, cases: Seq<(u64, BlockLabel)>, n: nat) -> Seq<(BlockLabel, BlockLabel, EdgeModel)>
    decreases n,
{
    if n == 0 || n > cases.len() {
        Seq::empty()
    } else {
        add_switch_target(switch_case_edges(src, cases, (n - 1) as nat), src, cases[n - 1].1, Some(cases[n - 1].0))
    }
}

/// The edges that leave a block through its terminator.
pub open spec fn term_edges(src: BlockLabel, t: TermModel) -> Seq<(BlockLabel, BlockLabel, EdgeModel)> {
    match t {
        TermModel::Goto { target } => seq![(src, target, EdgeModel::Goto)],
        TermModel::Branch { then_case, else_case, .. } => if then_case == else_case {
            seq![(src, then_case, EdgeModel::Goto)]
        } else {
            seq![(src, then_case, EdgeModel::Branch(true)), (src, else_case, EdgeModel::Branch(false))]
        },
        TermModel::Switch { cases, default, .. } => {
            let es = switch_case_edges(src, cases, cases.len());
            match default {
                Some(d) => add_switch_target(es, src, d, None),
                None => es,
            }
        },
        _ => Seq::empty(),
    }
}

/// The order of edges: by source block, then by target block.
pub open spec fn edge_before(a: (BlockLabel, BlockLabel, EdgeModel), b: (BlockLabel, BlockLabel, EdgeModel)) -> bool {
    a.0.0 < b.0.0 || (a.0.0 == b.0.0 && a.1.0 < b.1.0)
}

/// A sorted list of edges with one more, placed before the first later one.
pub open spec fn edge_insert(es: Seq<(BlockLabel, BlockLabel, EdgeModel)>, e: (BlockLabel, BlockLabel, EdgeModel)) -> Seq<(BlockLabel, BlockLabel, EdgeModel)>
    decreases es.len(),
{
    if es.len() == 0 {
        seq![e]
    } else if edge_before(e, es[0]) {
        seq![e] + es
    } else {
        seq![es[0]] + edge_insert(es.drop_first(), e)
    }
}

/// A sorted list of edges with the first `n` of some more.
pub open spec fn edges_insert_all(es: Seq<(BlockLabel, BlockLabel, EdgeModel)>, more: Seq<(BlockLabel, BlockLabel, EdgeModel)>, n: nat) -> Seq<(BlockLabel, BlockLabel, EdgeModel)>
    decreases n,
{
    if n == 0 || n > more.len() {
        es
    } else {
        edge_insert(edges_insert_all(es, more, (n - 1) as nat), more[n - 1])
    }
}

/// The edges of the first `n` blocks of a graph, sorted by source and target.
pub open spec fn cfg_edges(bs: Seq<(BlockLabel, BlockModel)>, n: nat) -> Seq<(BlockLabel, BlockLabel, EdgeModel)>
    decreases n,
{
    if n == 0 || n > bs.len() {
        Seq::empty()
    } else {
        let more = term_edges(bs[n - 1].0, bs[n - 1].1.terminator);
        edges_insert_all(cfg_edges(bs, (n - 1) as nat), more, more.len())
    }
}

/// The instruction indices of a list of blocks: each body in order, then its terminator.
pub open spec fn block_indices(bs: Seq<ABlock>, n: nat) -> Seq<usize>
    decreases n,
{
    if n == 0 || n > bs.len() {
        Seq::empty()
    } else {
        block_indices(bs, (n - 1) as nat) + bs[n - 1].body@.map_values(|i: AInstruction| i.index).push(
            bs[n - 1].terminator.index,
        )
    }
}

/// No two blocks of a list carry the same label.
pub open spec fn distinct_block_labels(bs: Seq<ABlock>) -> bool {
    forall|i: int, j: int| 0 <= i < j < bs.len() ==> bs[i].label != bs[j].label
}

/// No index occurs twice in a list.
pub open spec fn distinct_indices(s: Seq<usize>) -> bool {
    forall|i: int, j: int| 0 <= i < j < s.len() ==> s[i] != s[j]
}

/// The number of successors a terminator names.
pub open spec fn named_targets(t: Inst) -> nat {
    match t {
        Inst::Branch { targets, .. } => targets@.len(),
        Inst::Switch { cases, default, .. } => cases@.len() + if default is Some {
            1nat
        } else {
            0nat
        },
        _ => 0,
    }
}

/// The number of successors the terminators of the first `n` blocks name.
pub open spec fn target_count(bs: Seq<ABlock>, n: nat) -> nat
    decreases n,
{
    if n == 0 || n > bs.len() {
        0
    } else {
        target_count(bs, (n - 1) as nat) + named_targets(bs[n - 1].terminator.repr)
    }
}

/// Every edge joins two blocks of the list.
pub open spec fn edges_join_blocks(bs: Seq<(BlockLabel, BlockModel)>, es: Seq<(BlockLabel, BlockLabel, EdgeModel)>) -> bool {
    forall|i: int| 0 <= i < es.len() ==> has_label(bs, (#[trigger] es[i]).0) && has_label(bs, es[i].1)
}

/// Some block of the list carries the label.
pub open spec fn has_label(bs: Seq<(BlockLabel, BlockModel)>, l: BlockLabel) -> bool {
    exists|a: int| 0 <= a < bs.len() && bs[a].0 == l
}

/// No two edges join the same blocks in the same direction.
pub open spec fn edge_pairs_distinct(es: Seq<(BlockLabel, BlockLabel, EdgeModel)>) -> bool {
    forall|i: int, j: int| 0 <= i < j < es.len() ==> !(es[i].0 == es[j].0 && es[i].1 == es[j].1)
}

/// What reading the body of a function sees: the labels of its blocks, its
/// parameters by position and its return type.
pub open spec fn body_env(sc: Scope, params: Seq<TypeModel>, ret: Option<TypeModel>, bs: Seq<ABlock>) -> Env {
    Env {
        scope: sc,
        blocks: Set::new(|l: usize| exists|i: int| 0 <= i < bs.len() && bs[i].label == l),
        args: Map::new(|k: usize| k < params.len(), |k: usize| params[k as int]),
        ret,
    }
}

/// The registers of a function body before reading it: every instruction is
/// known, and none has a type yet.
pub open spec fn body_regs(bs: Seq<ABlock>) -> Regs {
    Map::new(|k: usize| block_indices(bs, bs.len()).contains(k), |k: usize| None)
}

/// How a function body becomes a graph: its blocks read in order, then its edges
/// sorted; refused where two blocks share a label or two instructions an index,
/// and where the edges fail the graph's own checks (an edge to a block that is
/// not there, two edges between the same blocks).
pub open spec fn cfg_build(sc: Scope, params: Seq<TypeModel>, ret: Option<TypeModel>, bs: Seq<ABlock>) -> Result<
    (Seq<(BlockLabel, BlockModel)>, Seq<(BlockLabel, BlockLabel, EdgeModel)>),
    Failure,
> {
    if !distinct_block_labels(bs) {
        Err(Failure::Invariant("duplicated block labels"@))
    } else if !distinct_indices(block_indices(bs, bs.len())) {
        Err(Failure::Invariant("duplicated instruction index"@))
    } else {
        match conv_blocks(body_env(sc, params, ret, bs), body_regs(bs), bs, bs.len()).0 {
            Err(f) => Err(f),
            Ok(blocks) => {
                let edges = cfg_edges(blocks, blocks.len());
                if !edges_join_blocks(blocks, edges) {
                    Err(Failure::Invariant("edge to an unknown block in CFG"@))
                } else if !edge_pairs_distinct(edges) {
                    Err(Failure::Invariant("duplicated edge in CFG"@))
                } else {
                    Ok((blocks, edges))
                }
            },
        }
    }
}

} // verus!

verus! {

/// Inserting an edge adds one.
pub proof fn lemma_edge_insert_len(es: Seq<(BlockLabel, BlockLabel, EdgeModel)>, e: (BlockLabel, BlockLabel, EdgeModel))
    ensures
        edge_insert(es, e).len() == es.len() + 1,
    decreases es.len(),
{
    if es.len() > 0 && !edge_before(e, es[0]) {
        lemma_edge_insert_len(es.drop_first(), e);
    }
}

/// Inserting `n` edges adds `n`.
pub proof fn lemma_insert_all_len(es: Seq<(BlockLabel, BlockLabel, EdgeModel)>, more: Seq<(BlockLabel, BlockLabel, EdgeModel)>, n: nat)
    requires
        n <= more.len(),
    ensures
        edges_insert_all(es, more, n).len() == es.len() + n,
    decreases n,
{
    if n > 0 {
        lemma_insert_all_len(es, more, (n - 1) as nat);
        lemma_edge_insert_len(edges_insert_all(es, more, (n - 1) as nat), more[n - 1]);
    }
}

pub proof fn lemma_first_target_index(es: Seq<(BlockLabel, BlockLabel, EdgeModel)>, b: BlockLabel)
    ensures
        match first_target_index(es, b) {
            Some(i) => 0 <= i < es.len() && es[i].1 == b && forall|j: int| 0 <= j < i ==> es[j].1 != b,
            None => forall|j: int| 0 <= j < es.len() ==> es[j].1 != b,
        },
    decreases es.len(),
{
    if es.len() > 0 && es[0].1 != b {
        lemma_first_target_index(es.drop_first(), b);
        assert forall|j: int| 0 < j < es.len() implies es[j] == es.drop_first()[j - 1] by {}
    }
}

/// A switch target adds at most one edge.
pub proof fn lemma_add_switch_target_len(es: Seq<(BlockLabel, BlockLabel, EdgeModel)>, src: BlockLabel, b: BlockLabel, v: Option<u64>)
    ensures
        add_switch_target(es, src, b, v).len() <= es.len() + 1,
{
    lemma_first_target_index(es, b);
}

/// A switch case adds at most one edge.
pub proof fn lemma_switch_edges_len(src: BlockLabel, cases: Seq<(u64, BlockLabel)>, n: nat)
    requires
        n <= cases.len(),
    ensures
        switch_case_edges(src, cases, n).len() <= n,
    decreases n,
{
    if n > 0 {
        lemma_switch_edges_len(src, cases, (n - 1) as nat);
        lemma_add_switch_target_len(switch_case_edges(src, cases, (n - 1) as nat), src, cases[n - 1].1, Some(cases[n - 1].0));
    }
}

/// The cases a switch keeps are at most those it names.
pub proof fn lemma_switch_cases_len(env: Env, cs: Seq<crate::ir::adapter::instruction::SwitchCase>, t: TypeModel, n: nat)
    requires
        n <= cs.len(),
    ensures
        crate::ir::conversion::switch_cases(env, cs, t, n) matches Ok(m) ==> m.len() <= n,
    decreases n,
{
    if n > 0 {
        lemma_switch_cases_len(env, cs, t, (n - 1) as nat);
        if let Ok(p) = crate::ir::conversion::switch_cases(env, cs, t, (n - 1) as nat) {
            crate::ir::conversion::lemma_first_case_index(p, 0);
            assert forall|v: u64, b: BlockLabel| #[trigger] crate::ir::conversion::case_insert(p, v, b).len() <= p.len() + 1 by {
                crate::ir::conversion::lemma_first_case_index(p, v);
            }
        }
    }
}

/// The edges that leave a block are at most the successors its terminator names.
pub proof fn lemma_term_edges_len(env: Env, regs: Regs, b: ABlock, src: BlockLabel)
    ensures
        conv_term(env, regs, b.terminator.ty@, b.terminator.repr).0 matches Ok(t) ==> term_edges(src, t).len()
            <= named_targets(b.terminator.repr),
{
    if let Ok(t) = conv_term(env, regs, b.terminator.ty@, b.terminator.repr).0 {
        match b.terminator.repr {
            Inst::Switch { cases, cond_ty, default, .. } => {
                if let Ok(ct) = crate::ir::conversion::conv_ty(env.scope, cond_ty@) {
                    lemma_switch_cases_len(env, cases@, ct, cases@.len());
                }
                if let TermModel::Switch { cases: m, default: d, .. } = t {
                    lemma_switch_edges_len(src, m, m.len());
                    if let Some(x) = d {
                        lemma_add_switch_target_len(switch_case_edges(src, m, m.len()), src, x, None);
                    }
                }
            },
            _ => {},
        }
    }
}

} // verus!

verus! {

/// Once reading a block body fails, reading more of it fails the same way.
pub proof fn lemma_body_prefix(env: Env, regs: Regs, insts: Seq<AInstruction>, i: nat, n: nat)
    requires
        i <= n <= insts.len(),
        conv_body(env, regs, insts, i).0 is Err,
    ensures
        conv_body(env, regs, insts, n) == conv_body(env, regs, insts, i),
    decreases n,
{
    if n > i {
        lemma_body_prefix(env, regs, insts, i, (n - 1) as nat);
    }
}

/// Once reading the blocks fails, reading more of them fails the same way.
pub proof fn lemma_blocks_prefix(env: Env, regs: Regs, bs: Seq<ABlock>, i: nat, n: nat)
    requires
        i <= n <= bs.len(),
        conv_blocks(env, regs, bs, i).0 is Err,
    ensures
        conv_blocks(env, regs, bs, n) == conv_blocks(env, regs, bs, i),
    decreases n,
{
    if n > i {
        lemma_blocks_prefix(env, regs, bs, i, (n - 1) as nat);
    }
}

/// The blocks read keep their labels and order, and each terminator is read
/// from the block's terminator.
pub proof fn lemma_blocks_shape(env: Env, regs: Regs, bs: Seq<ABlock>, n: nat)
    requires
        n <= bs.len(),
    ensures
        conv_blocks(env, regs, bs, n).0 matches Ok(p) ==> p.len() == n && (forall|i: int|
            0 <= i < n ==> (#[trigger] p[i]).0 == BlockLabel(bs[i].label)) && (forall|i: int|
            0 <= i < n ==> term_edges(p[i].0, #[trigger] p[i].1.terminator).len() <= named_targets(
                bs[i].terminator.repr,
            )),
    decreases n,
{
    reveal(conv_block);
    if n > 0 {
        lemma_blocks_shape(env, regs, bs, (n - 1) as nat);
        if let (Ok(p0), r) = conv_blocks(env, regs, bs, (n - 1) as nat) {
            lemma_term_edges_len(env, conv_body(env, r, bs[n - 1].body@, bs[n - 1].body@.len()).1, bs[n - 1], BlockLabel(bs[n - 1].label));
            if let (Ok(p), _) = conv_blocks(env, regs, bs, n) {
                assert forall|i: int| 0 <= i < n implies term_edges(p[i].0, #[trigger] p[i].1.terminator).len()
                    <= named_targets(bs[i].terminator.repr) by {
                    if i < n - 1 {
                        assert(p[i] == p0[i]);
                    }
                }
            }
        }
    }
}

/// The edges of the blocks are at most the successors their terminators name.
pub proof fn lemma_cfg_edges_len(bs: Seq<(BlockLabel, BlockModel)>, abs: Seq<ABlock>, n: nat)
    requires
        n <= bs.len(),
        bs.len() <= abs.len(),
        forall|i: int| 0 <= i < bs.len() ==> term_edges((#[trigger] bs[i]).0, bs[i].1.terminator).len() <= named_targets(
            abs[i].terminator.repr,
        ),
    ensures
        cfg_edges(bs, n).len() <= target_count(abs, n),
    decreases n,
{
    if n > 0 {
        lemma_cfg_edges_len(bs, abs, (n - 1) as nat);
        let more = term_edges(bs[n - 1].0, bs[n - 1].1.terminator);
        lemma_insert_all_len(cfg_edges(bs, (n - 1) as nat), more, more.len());
        assert(term_edges(bs[n - 1].0, bs[n - 1].1.terminator).len() <= named_targets(abs[n - 1].terminator.repr));
    }
}

} // verus!

verus! {

proof fn lemma_case_value_insert(s: Seq<Option<u64>>, x: Option<u64>, p: int)
    requires
        0 <= p <= s.len(),
        forall|k: int| 0 <= k < p ==> !case_before(x, #[trigger] s[k]),
        p < s.len() ==> case_before(x, s[p]),
    ensures
        case_value_insert(s, x) == s.insert(p, x),
    decreases s.len(),
{
    if s.len() == 0 {
        assert(seq![x] =~= s.insert(0, x));
    } else if p == 0 {
        assert(seq![x] + s =~= s.insert(0, x));
    } else {
        assert(!case_before(x, s[0]));
        assert forall|k: int| 0 <= k < p - 1 implies !case_before(x, #[trigger] s.drop_first()[k]) by {
            assert(s.drop_first()[k] == s[k + 1]);
        }
        lemma_case_value_insert(s.drop_first(), x, p - 1);
        assert(seq![s[0]] + s.drop_first().insert(p - 1, x) =~= s.insert(p, x));
    }
}

proof fn lemma_edge_insert(es: Seq<(BlockLabel, BlockLabel, EdgeModel)>, e: (BlockLabel, BlockLabel, EdgeModel), p: int)
    requires
        0 <= p <= es.len(),
        forall|k: int| 0 <= k < p ==> !edge_before(e, #[trigger] es[k]),
        p < es.len() ==> edge_before(e, es[p]),
    ensures
        edge_insert(es, e) == es.insert(p, e),
    decreases es.len(),
{
    if es.len() == 0 {
        assert(seq![e] =~= es.insert(0, e));
    } else if p == 0 {
        assert(seq![e] + es =~= es.insert(0, e));
    } else {
        assert(!edge_before(e, es[0]));
        assert forall|k: int| 0 <= k < p - 1 implies !edge_before(e, #[trigger] es.drop_first()[k]) by {
            assert(es.drop_first()[k] == es[k + 1]);
        }
        lemma_edge_insert(es.drop_first(), e, p - 1);
        assert(seq![es[0]] + es.drop_first().insert(p - 1, e) =~= es.insert(p, e));
    }
}

/// Whether a case value comes before another in an edge (see [`case_before`]).
fn case_value_before(a: Option<u64>, b: Option<u64>) -> (r: bool)
    ensures
        r == case_before(a, b),
{
    match (a, b) {
        (None, Some(_)) => true,
        (Some(x), Some(y)) => x < y,
        _ => false,
    }
}

/// A sorted list of case values with one more (see [`case_value_insert`]).
fn insert_case_value(s: &mut Vec<Option<u64>>, x: Option<u64>)
    ensures
        final(s)@ == case_value_insert(old(s)@, x),
{
    let mut p: usize = 0;
    while p < s.len() && !case_value_before(x, s[p])
        invariant
            p <= s@.len(),
            forall|k: int| 0 <= k < p ==> !case_before(x, #[trigger] s@[k]),
        decreases s@.len() - p,
    {
        p = p + 1;
    }
    proof {
        lemma_case_value_insert(s@, x, p as int);
    }
    s.insert(p, x);
}

/// Whether an edge comes before another (see [`edge_before`]).
fn edge_comes_before(a: &(BlockLabel, BlockLabel, Edge), b: &(BlockLabel, BlockLabel, Edge)) -> (r: bool)
    ensures
        r == edge_before((a.0, a.1, a.2.model()), (b.0, b.1, b.2.model())),
{
    a.0.0 < b.0.0 || (a.0.0 == b.0.0 && a.1.0 < b.1.0)
}

/// A sorted list of edges with one more (see [`edge_insert`]).
fn insert_edge(es: &mut Vec<(BlockLabel, BlockLabel, Edge)>, e: (BlockLabel, BlockLabel, Edge))
    ensures
        edge_models(final(es)@) == edge_insert(edge_models(old(es)@), (e.0, e.1, e.2.model())),
{
    let ghost em = (e.0, e.1, e.2.model());
    let ghost ms = edge_models(es@);
    let mut p: usize = 0;
    while p < es.len() && !edge_comes_before(&e, &es[p])
        invariant
            p <= es@.len(),
            ms == edge_models(es@),
            em == (e.0, e.1, e.2.model()),
            forall|k: int| 0 <= k < p ==> !edge_before(em, #[trigger] ms[k]),
        decreases es@.len() - p,
    {
        assert(ms[p as int] == (es@[p as int].0, es@[p as int].1, es@[p as int].2.model()));
        p = p + 1;
    }
    proof {
        if p < es@.len() {
            assert(ms[p as int] == (es@[p as int].0, es@[p as int].1, es@[p as int].2.model()));
        }
    }
    proof {
        lemma_edge_insert(ms, em, p as int);
    }
    es.insert(p, e);
    assert(edge_models(es@) =~= ms.insert(p as int, em));
}

/// A copy of a list of case values.
fn copy_cases(s: &Vec<Option<u64>>) -> (r: Vec<Option<u64>>)
    ensures
        r@ == s@,
{
    let mut out: Vec<Option<u64>> = Vec::new();
    let mut i: usize = 0;
    while i < s.len()
        invariant
            i <= s@.len(),
            out@ == s@.take(i as int),
        decreases s@.len() - i,
    {
        out.push(s[i]);
        i = i + 1;
        assert(out@ =~= s@.take(i as int));
    }
    assert(s@.take(s@.len() as int) =~= s@);
    out
}

/// Index of the first edge into a block (see [`first_target_index`]).
fn find_target(es: &Vec<(BlockLabel, BlockLabel, Edge)>, b: BlockLabel) -> (r: Option<usize>)
    ensures
        match first_target_index(edge_models(es@), b) {
            Some(i) => r matches Some(k) && k as int == i,
            None => r is None,
        },
{
    let ghost ms = edge_models(es@);
    let mut i: usize = 0;
    while i < es.len()
        invariant
            i <= es@.len(),
            ms == edge_models(es@),
            forall|j: int| 0 <= j < i ==> ms[j].1 != b,
        decreases es@.len() - i,
    {
        assert(ms[i as int] == (es@[i as int].0, es@[i as int].1, es@[i as int].2.model()));
        if es[i].1 == b {
            proof {
                lemma_first_target_index(ms, b);
                match first_target_index(ms, b) {
                    Some(k) => {
                        assert(!(k < i));
                        assert(!(k > i));
                    },
                    None => {},
                }
            }
            return Some(i);
        }
        i = i + 1;
    }
    proof {
        lemma_first_target_index(ms, b);
    }
    None
}

/// The edges of a switch with one more case value (see [`add_switch_target`]).
fn add_target(es: &mut Vec<(BlockLabel, BlockLabel, Edge)>, src: BlockLabel, b: BlockLabel, v: Option<u64>)
    ensures
        edge_models(final(es)@) == add_switch_target(edge_models(old(es)@), src, b, v),
{
    let ghost ms = edge_models(es@);
    proof {
        lemma_first_target_index(ms, b);
    }
    match find_target(es, b) {
        Some(i) => {
            let is_switch = match &es[i].2 {
                Edge::Switch(_) => true,
                _ => false,
            };
            assert(ms[i as int] == (es@[i as int].0, es@[i as int].1, es@[i as int].2.model()));
            if is_switch {
                let mut set = match &es[i].2 {
                    Edge::Switch(s) => copy_cases(s),
                    _ => Vec::new(),
                };
                assert(ms[i as int].2 == EdgeModel::Switch(set@));
                insert_case_value(&mut set, v);
                let ghost after = set@;
                es.set(i, (src, b, Edge::Switch(set)));
                assert(edge_models(es@) =~= ms.update(i as int, (src, b, EdgeModel::Switch(after))));
                assert(first_target_index(ms, b) == Some(i as int));
                assert(edge_models(es@) == add_switch_target(ms, src, b, v));
            } else {
                assert(!(ms[i as int].2 is Switch));
                assert(edge_models(es@) == add_switch_target(ms, src, b, v));
            }
        },
        None => {
            let mut set: Vec<Option<u64>> = Vec::new();
            set.push(v);
            es.push((src, b, Edge::Switch(set)));
            assert(set@ =~= seq![v]);
            assert(edge_models(es@) =~= ms.push((src, b, EdgeModel::Switch(seq![v]))));
            assert(edge_models(es@) == add_switch_target(ms, src, b, v));
        },
    }
}

/// The edges that leave a block through its terminator (see [`term_edges`]).
fn edges_of_terminator(src: BlockLabel, t: &Terminator) -> (r: Vec<(BlockLabel, BlockLabel, Edge)>)
    ensures
        edge_models(r@) == term_edges(src, t.model()),
{
    let mut out: Vec<(BlockLabel, BlockLabel, Edge)> = Vec::new();
    match t {
        Terminator::Goto { target } => {
            out.push((src, *target, Edge::Goto));
            assert(edge_models(out@) =~= seq![(src, *target, EdgeModel::Goto)]);
        },
        Terminator::Branch { then_case, else_case, .. } => {
            if then_case == else_case {
                out.push((src, *then_case, Edge::Goto));
                assert(edge_models(out@) =~= seq![(src, *then_case, EdgeModel::Goto)]);
            } else {
                out.push((src, *then_case, Edge::Branch(true)));
                out.push((src, *else_case, Edge::Branch(false)));
                assert(edge_models(out@) =~= seq![
                    (src, *then_case, EdgeModel::Branch(true)),
                    (src, *else_case, EdgeModel::Branch(false)),
                ]);
            }
        },
        Terminator::Switch { cases, default, .. } => {
            let mut i: usize = 0;
            assert(edge_models(out@) =~= Seq::<(BlockLabel, BlockLabel, EdgeModel)>::empty());
            while i < cases.len()
                invariant
                    i <= cases@.len(),
                    edge_models(out@) == switch_case_edges(src, cases@, i as nat),
                decreases cases@.len() - i,
            {
                add_target(&mut out, src, cases[i].1, Some(cases[i].0));
                i = i + 1;
            }
            match default {
                Some(d) => add_target(&mut out, src, *d, None),
                None => {},
            }
        },
        _ => {
            assert(edge_models(out@) =~= Seq::<(BlockLabel, BlockLabel, EdgeModel)>::empty());
        },
    }
    out
}

/// All the edges of a list of blocks, sorted by source and target (see [`cfg_edges`]).
fn edges_of_blocks(bs: &Vec<(BlockLabel, Block)>) -> (r: Vec<(BlockLabel, BlockLabel, Edge)>)
    ensures
        edge_models(r@) == cfg_edges(block_models(bs@), bs@.len()),
{
    let ghost bm = block_models(bs@);
    let mut out: Vec<(BlockLabel, BlockLabel, Edge)> = Vec::new();
    let mut i: usize = 0;
    assert(edge_models(out@) =~= Seq::<(BlockLabel, BlockLabel, EdgeModel)>::empty());
    while i < bs.len()
        invariant
            i <= bs@.len(),
            bm == block_models(bs@),
            edge_models(out@) == cfg_edges(bm, i as nat),
        decreases bs@.len() - i,
    {
        let more = edges_of_terminator(bs[i].0, &bs[i].1.terminator);
        let ghost base = edge_models(out@);
        let ghost mm = edge_models(more@);
        assert(bm[i as int] == (bs@[i as int].0, bs@[i as int].1.model()));
        let mut rest = more;
        let mut k: usize = 0;
        let count = rest.len();
        let ghost all = rest@;
        while rest.len() > 0
            invariant
                k + rest@.len() == all.len(),
                all.len() == count,
                mm == edge_models(all),
                rest@ == all.subrange(k as int, all.len() as int),
                edge_models(out@) == edges_insert_all(base, mm, k as nat),
            decreases rest@.len(),
        {
            let e = rest.remove(0);
            assert(e == all[k as int]);
            insert_edge(&mut out, e);
            k = k + 1;
            assert(rest@ =~= all.subrange(k as int, all.len() as int));
        }
        i = i + 1;
    }
    out
}

} // verus!

verus! {

/// The types of a list of parameters.
pub open spec fn param_types(ps: Seq<Parameter>) -> Seq<TypeModel> {
    ps.map_values(|p: Parameter| p.ty.model())
}

/// The graph's checks on blocks and edges agree with those on their models.
proof fn lemma_graph_checks(bs: Seq<(BlockLabel, Block)>, es: Seq<(BlockLabel, BlockLabel, Edge)>)
    ensures
        edges_known(bs, es) == edges_join_blocks(block_models(bs), edge_models(es)),
        distinct_pairs(es) == edge_pairs_distinct(edge_models(es)),
{
    lemma_edges_known(bs, es);
    lemma_distinct_pairs(es);
}

/// The check that every edge joins known blocks agrees with that on the models.
#[verifier::spinoff_prover]
proof fn lemma_edges_known(bs: Seq<(BlockLabel, Block)>, es: Seq<(BlockLabel, BlockLabel, Edge)>)
    ensures
        edges_known(bs, es) == edges_join_blocks(block_models(bs), edge_models(es)),
{
    let bm = block_models(bs);
    let em = edge_models(es);
    assert forall|x: BlockLabel| #[trigger] block_labels(bs).contains(x) == has_label(bm, x) by {
        if block_labels(bs).contains(x) {
            let a = choose|a: int| 0 <= a < block_labels(bs).len() && block_labels(bs)[a] == x;
            assert(bm[a].0 == x);
        }
        if has_label(bm, x) {
            let a = choose|a: int| 0 <= a < bm.len() && bm[a].0 == x;
            assert(block_labels(bs)[a] == x);
        }
    }
    assert forall|i: int| 0 <= i < es.len() implies (#[trigger] em[i]).0 == es[i].0 && em[i].1 == es[i].1 by {}
    if edges_known(bs, es) {
        assert forall|i: int| 0 <= i < em.len() implies has_label(bm, (#[trigger] em[i]).0) && has_label(bm, em[i].1) by {
            assert(block_labels(bs).contains(es[i].0));
            assert(block_labels(bs).contains(es[i].1));
        }
    }
    if edges_join_blocks(bm, em) {
        assert forall|i: int| 0 <= i < es.len() implies block_labels(bs).contains((#[trigger] es[i]).0)
            && block_labels(bs).contains(es[i].1) by {
            assert(has_label(bm, em[i].0));
            assert(has_label(bm, em[i].1));
        }
    }
}

/// The check that no two edges join the same blocks agrees with that on the models.
#[verifier::spinoff_prover]
proof fn lemma_distinct_pairs(es: Seq<(BlockLabel, BlockLabel, Edge)>)
    ensures
        distinct_pairs(es) == edge_pairs_distinct(edge_models(es)),
{
    let em = edge_models(es);
    assert forall|i: int| 0 <= i < es.len() implies (#[trigger] em[i]).0 == es[i].0 && em[i].1 == es[i].1 by {}
    if distinct_pairs(es) {
        assert forall|i: int, j: int| 0 <= i < j < em.len() implies !(em[i].0 == em[j].0 && em[i].1 == em[j].1) by {
            assert(em[i].0 == es[i].0 && em[i].1 == es[i].1);
            assert(em[j].0 == es[j].0 && em[j].1 == es[j].1);
        }
    }
    if edge_pairs_distinct(em) {
        assert forall|i: int, j: int| 0 <= i < j < es.len() implies !(es[i].0 == es[j].0 && es[i].1 == es[j].1) by {
            assert(em[i].0 == es[i].0 && em[i].1 == es[i].1);
            assert(em[j].0 == es[j].0 && em[j].1 == es[j].1);
        }
    }
}

/// The labels of the blocks, checked to be distinct.
fn label_set(blocks: &Vec<ABlock>) -> (r: Option<BTreeSet<usize>>)
    ensures
        match r {
            Some(s) => distinct_block_labels(blocks@) && s@ == Set::new(
                |l: usize| exists|i: int| 0 <= i < blocks@.len() && blocks@[i].label == l,
            ),
            None => !distinct_block_labels(blocks@),
        },
{
    let mut set: BTreeSet<usize> = BTreeSet::new();
    let mut i: usize = 0;
    while i < blocks.len()
        invariant
            i <= blocks@.len(),
            forall|a: int, b: int| 0 <= a < b < i ==> blocks@[a].label != blocks@[b].label,
            set@ == Set::new(|l: usize| exists|j: int| 0 <= j < i && blocks@[j].label == l),
        decreases blocks@.len() - i,
    {
        let l = blocks[i].label;
        if !set.insert(l) {
            proof {
                let j = choose|j: int| 0 <= j < i && blocks@[j].label == l;
                assert(blocks@[j].label == blocks@[i as int].label);
            }
            return None;
        }
        i = i + 1;
        assert(set@ =~= Set::new(|m: usize| exists|j: int| 0 <= j < i && blocks@[j].label == m)) by {
            assert forall|m: usize| set@.contains(m) implies exists|j: int| 0 <= j < i && blocks@[j].label == m by {
                if m == l {
                    assert(blocks@[i - 1].label == m);
                }
            }
        }
    }
    Some(set)
}

/// The instruction indices of the blocks (see [`block_indices`]).
fn indices_of(blocks: &Vec<ABlock>) -> (r: Vec<usize>)
    ensures
        r@ == block_indices(blocks@, blocks@.len()),
{
    let mut out: Vec<usize> = Vec::new();
    let mut i: usize = 0;
    while i < blocks.len()
        invariant
            i <= blocks@.len(),
            out@ == block_indices(blocks@, i as nat),
        decreases blocks@.len() - i,
    {
        let body = &blocks[i].body;
        let ghost base = out@;
        let mut j: usize = 0;
        while j < body.len()
            invariant
                j <= body@.len(),
                out@ == base + body@.take(j as int).map_values(|x: AInstruction| x.index),
            decreases body@.len() - j,
        {
            out.push(body[j].index);
            j = j + 1;
            assert(out@ =~= base + body@.take(j as int).map_values(|x: AInstruction| x.index));
        }
        assert(body@.take(body@.len() as int) =~= body@);
        out.push(blocks[i].terminator.index);
        i = i + 1;
        assert(out@ =~= block_indices(blocks@, i as nat));
    }
    out
}

/// The register table of a body: every index known, none typed; `None` where an
/// index occurs twice.
fn register_table(all: &Vec<usize>) -> (r: Option<BTreeMap<usize, Option<Type>>>)
    ensures
        match r {
            Some(m) => distinct_indices(all@) && crate::ir::context::opt_type_table(m@) == Map::new(
                |k: usize| all@.contains(k),
                |k: usize| None::<TypeModel>,
            ),
            None => !distinct_indices(all@),
        },
{
    let mut m: BTreeMap<usize, Option<Type>> = BTreeMap::new();
    let mut i: usize = 0;
    while i < all.len()
        invariant
            i <= all@.len(),
            forall|a: int, b: int| 0 <= a < b < i ==> all@[a] != all@[b],
            forall|k: usize| #[trigger] m@.contains_key(k) == (exists|j: int| 0 <= j < i && all@[j] == k),
            forall|k: usize| m@.contains_key(k) ==> #[trigger] m@[k] is None,
        decreases all@.len() - i,
    {
        let k = all[i];
        if m.insert(k, None).is_some() {
            proof {
                let j = choose|j: int| 0 <= j < i && all@[j] == k;
                assert(all@[j] == all@[i as int]);
            }
            return None;
        }
        i = i + 1;
        assert forall|x: usize| #[trigger] m@.contains_key(x) == (exists|j: int| 0 <= j < i && all@[j] == x) by {
            if x == k {
                assert(all@[i - 1] == x);
            }
        }
    }
    assert(crate::ir::context::opt_type_table(m@) =~= Map::new(|k: usize| all@.contains(k), |k: usize| None::<TypeModel>)) by {
        assert forall|k: usize| m@.contains_key(k) == all@.contains(k) by {
            if all@.contains(k) {
                let j = choose|j: int| 0 <= j < all@.len() && all@[j] == k;
                assert(m@.contains_key(k));
            }
        }
    }
    Some(m)
}

/// The argument table of a body: each parameter's type by position.
fn argument_table(params: &Vec<Parameter>) -> (r: BTreeMap<usize, Type>)
    ensures
        crate::ir::context::type_table(r@) == Map::new(|k: usize| k < params@.len(), |k: usize| param_types(params@)[k as int]),
{
    let mut m: BTreeMap<usize, Type> = BTreeMap::new();
    let mut i: usize = 0;
    while i < params.len()
        invariant
            i <= params@.len(),
            forall|k: usize| #[trigger] m@.contains_key(k) == (k < i),
            forall|k: usize| k < i ==> (#[trigger] m@[k]).model() == params@[k as int].ty.model(),
        decreases params@.len() - i,
    {
        m.insert(i, params[i].ty.duplicate());
        i = i + 1;
    }
    assert(crate::ir::context::type_table(m@) =~= Map::new(
        |k: usize| k < params@.len(),
        |k: usize| param_types(params@)[k as int],
    ));
    m
}

} // verus!

verus! {

impl<'a> Context<'a> {
    /// Reads the instructions of a block body (see [`conv_body`]).
    #[verifier::spinoff_prover]
    fn parse_body(&mut self, insts: &Vec<AInstruction>) -> (r: EngineResult<Vec<Instruction>>)
        requires
            old(self).typing.wf(),
        ensures
            match conv_body(old(self).env(), old(self).regs(), insts@, insts@.len()).0 {
                Ok(m) => r matches Ok(v) && v@.map_values(|x: Instruction| x.model()) == m,
                Err(f) => r matches Err(e) && e.failure() == f,
            },
            final(self).regs() == conv_body(old(self).env(), old(self).regs(), insts@, insts@.len()).1,
            final(self).keeps(old(self)),
    {
        let ghost env = self.env();
        let ghost r_start = self.regs();
        let mut seq: Vec<Instruction> = Vec::new();
        let mut j: usize = 0;
        assert(seq@.map_values(|x: Instruction| x.model()) =~= Seq::<InstModel>::empty());
        while j < insts.len()
            invariant
                j <= insts@.len(),
                self.keeps(old(self)),
                self.typing.wf(),
                env == old(self).env(),
                r_start == old(self).regs(),
                conv_body(env, r_start, insts@, j as nat) == (
                    Ok::<Seq<InstModel>, Failure>(seq@.map_values(|x: Instruction| x.model())),
                    self.regs(),
                ),
            decreases insts@.len() - j,
        {
            let inst = match self.parse_instruction(&insts[j]) {
                Err(e) => {
                    proof {
                        lemma_body_prefix(env, r_start, insts@, (j + 1) as nat, insts@.len());
                    }
                    return Err(e);
                },
                Ok(x) => x,
            };
            let ghost before = seq@;
            seq.push(inst);
            assert(seq@.map_values(|x: Instruction| x.model()) =~= before.map_values(|x: Instruction| x.model()).push(
                inst.model(),
            ));
            j = j + 1;
        }
        Ok(seq)
    }

    /// Reads a block: its body, then its terminator (see [`conv_block`]).
    fn parse_block(&mut self, block: &ABlock) -> (r: EngineResult<Block>)
        requires
            old(self).typing.wf(),
        ensures
            match conv_block(old(self).env(), old(self).regs(), *block).0 {
                Ok(m) => r matches Ok(b) && b.model() == m,
                Err(f) => r matches Err(e) && e.failure() == f,
            },
            final(self).regs() == conv_block(old(self).env(), old(self).regs(), *block).1,
            final(self).keeps(old(self)),
    {
        proof {
            reveal(conv_block);
        }
        let sequence = self.parse_body(&block.body)?;
        let terminator = self.parse_terminator(&block.terminator)?;
        Ok(Block { sequence, terminator })
    }
}

impl ControlFlowGraph {
    /// Builds the graph of a function body (see [`cfg_build`]): the blocks are read
    /// in order against the parameters and the return type, then their edges are
    /// collected, sorted by source and target.
    pub fn build(
        typing: &TypeRegistry,
        symbols: &SymbolRegistry,
        params: &Vec<Parameter>,
        ret_ty: &Option<Type>,
        blocks: &Vec<ABlock>,
    ) -> (r: EngineResult<Self>)
        requires
            typing.wf(),
            blocks@.len() < u32::MAX,
            target_count(blocks@, blocks@.len()) < u32::MAX,
        ensures
            match cfg_build(scope_of(typing, symbols), param_types(params@), opt_type_model(*ret_ty), blocks@) {
                Err(f) => r matches Err(e) && e.failure() == f,
                Ok((bm, em)) => r matches Ok(g) && g.wf() && block_models(g.blocks@) == bm && edge_models(g.edges@)
                    == em,
            },
    {
        let ghost sc = scope_of(typing, symbols);
        let ghost env = body_env(sc, param_types(params@), opt_type_model(*ret_ty), blocks@);
        let labels = match label_set(blocks) {
            None => {
                return Err(EngineError::InvariantViolation("duplicated block labels".to_owned()));
            },
            Some(s) => s,
        };
        let all = indices_of(blocks);
        let insts = match register_table(&all) {
            None => {
                return Err(EngineError::InvariantViolation("duplicated instruction index".to_owned()));
            },
            Some(m) => m,
        };
        let args = argument_table(params);
        let ret = match ret_ty {
            Some(t) => Some(t.duplicate()),
            None => None,
        };
        let mut ctxt = Context { typing, symbols, blocks: labels, insts, args, ret };
        assert(ctxt.env() =~= env);
        assert(ctxt.regs() =~= body_regs(blocks@));
        let ghost regs0 = ctxt.regs();
        let mut out: Vec<(BlockLabel, Block)> = Vec::new();
        let mut i: usize = 0;
        assert(block_models(out@) =~= Seq::<(BlockLabel, BlockModel)>::empty());
        while i < blocks.len()
            invariant
                i <= blocks@.len(),
                ctxt.typing == typing,
                typing.wf(),
                distinct_block_labels(blocks@),
                distinct_indices(block_indices(blocks@, blocks@.len())),
                sc == scope_of(typing, symbols),
                env == body_env(sc, param_types(params@), opt_type_model(*ret_ty), blocks@),
                regs0 == body_regs(blocks@),
                ctxt.env() == env,
                conv_blocks(env, regs0, blocks@, i as nat) == (
                    Ok::<Seq<(BlockLabel, BlockModel)>, Failure>(block_models(out@)),
                    ctxt.regs(),
                ),
            decreases blocks@.len() - i,
        {
            let block = &blocks[i];
            let ghost rb = ctxt.regs();
            let b = match ctxt.parse_block(block) {
                Err(e) => {
                    proof {
                        assert(blocks@[i as int] == *block);
                        assert(conv_block(env, rb, blocks@[i as int]).0 is Err);
                        assert(conv_blocks(env, regs0, blocks@, (i + 1) as nat).0 is Err);
                        lemma_blocks_prefix(env, regs0, blocks@, (i + 1) as nat, blocks@.len());
                    }
                    return Err(e);
                },
                Ok(b) => b,
            };
            let ghost before = out@;
            out.push((BlockLabel::from(block.label), b));
            assert(block_models(out@) =~= block_models(before).push((BlockLabel(block.label), b.model())));
            i = i + 1;
        }
        let ghost bm = block_models(out@);
        proof {
            lemma_blocks_shape(env, regs0, blocks@, blocks@.len());
            lemma_cfg_edges_len(bm, blocks@, bm.len());
        }
        let edges = edges_of_blocks(&out);
        proof {
            lemma_graph_checks(out@, edges@);
            assert forall|a: int, b: int| 0 <= a < b < out@.len() implies out@[a].0 != out@[b].0 by {
                assert(bm[a].0 == out@[a].0);
                assert(bm[b].0 == out@[b].0);
            }
        }
        ControlFlowGraph::new(out, edges)
    }
}

} // verus!

verus! {

/// The mathematical model of a converted function.
pub struct FunctionModel {
    pub name: Seq<char>,
    pub params: Seq<crate::ir::function::ParameterModel>,
    pub variadic: bool,
    pub ret: Option<TypeModel>,
    pub is_weak: bool,
    pub body: Option<(Seq<(BlockLabel, BlockModel)>, Seq<(BlockLabel, BlockLabel, EdgeModel)>)>,
}

impl crate::ir::function::Function {
    pub open spec fn model(&self) -> FunctionModel {
        FunctionModel {
            name: self.name.0@,
            params: self.params@.map_values(|p: Parameter| p.model()),
            variadic: self.variadic,
            ret: opt_type_model(self.ret),
            is_weak: self.is_weak,
            body: match self.body {
                Some(g) => Some((block_models(g.blocks@), edge_models(g.edges@))),
                None => None,
            },
        }
    }
}

/// Converts the first `n` parameters of a function against its parameter types.
pub open spec fn conv_params(
    ps: Seq<crate::ir::adapter::function::Parameter>,
    ts: Seq<TypeModel>,
    defs: Map<Seq<char>, Seq<crate::ir::adapter::typing::TypeView>>,
    n: nat,
) -> Result<Seq<crate::ir::function::ParameterModel>, Failure>
    decreases n,
{
    if n == 0 || n > ps.len() || n > ts.len() {
        Ok(Seq::empty())
    } else {
        match conv_params(ps, ts, defs, (n - 1) as nat) {
            Err(f) => Err(f),
            Ok(p) => match crate::ir::function::convert_parameter(ps[n - 1], ts[n - 1], defs) {
                Err(f) => Err(f),
                Ok(x) => Ok(p.push(x)),
            },
        }
    }
}

/// How a function read from a module is converted: anonymous ones and
/// unsupported intrinsics are refused; its type must be a function type whose
/// parameters match; a defined one must have blocks, must not be an intrinsic,
/// and gets the graph of its body.
pub open spec fn conv_function(sc: Scope, f: crate::ir::adapter::function::Function) -> Result<FunctionModel, Failure> {
    match f.name {
        None => Err(Failure::Unsupported(crate::error::Unsupported::AnonymousFunction)),
        Some(n) => match crate::ir::intrinsics::intrinsic_family(n@) {
            Some(u) => Err(Failure::Unsupported(u)),
            None => match crate::ir::conversion::conv_ty(sc, f.ty@) {
                Err(e) => Err(e),
                Ok(TypeModel::Function { params: pts, variadic, ret }) => if f.params@.len() != pts.len() {
                    Err(Failure::Assumption("parameter count mismatch for function: "@ + n@))
                } else {
                    match conv_params(f.params@, pts, sc.structs, pts.len()) {
                        Err(e) => Err(e),
                        Ok(pms) => {
                            let ret_ty = match ret {
                                Some(t) => Some(*t),
                                None => None,
                            };
                            let base = FunctionModel {
                                name: n@,
                                params: pms,
                                variadic,
                                ret: ret_ty,
                                is_weak: !f.is_exact,
                                body: None,
                            };
                            if f.is_defined {
                                if f.blocks@.len() == 0 {
                                    Err(Failure::Assumption("a defined function must have at least one basic block: "@ + n@))
                                } else if f.is_intrinsic {
                                    Err(Failure::Assumption("a defined function cannot be an intrinsic: "@ + n@))
                                } else {
                                    match cfg_build(sc, pms.map_values(|p: crate::ir::function::ParameterModel| p.ty), ret_ty, f.blocks@) {
                                        Err(e) => Err(e),
                                        Ok(g) => Ok(FunctionModel { body: Some(g), ..base }),
                                    }
                                }
                            } else {
                                Ok(base)
                            }
                        },
                    }
                },
                Ok(_) => Err(Failure::Assumption("invalid signature for function: "@ + n@)),
            },
        },
    }
}

/// Converts the parameters of a function against its parameter types.
fn convert_params(
    ps: &Vec<crate::ir::adapter::function::Parameter>,
    ts: &Vec<Type>,
    typing: &TypeRegistry,
) -> (r: EngineResult<Vec<Parameter>>)
    requires
        typing.wf(),
        ps@.len() == ts@.len(),
    ensures
        match conv_params(ps@, crate::ir::typing::type_models(ts@), typing.structs(), ps@.len()) {
            Ok(m) => r matches Ok(v) && v@.map_values(|p: Parameter| p.model()) == m,
            Err(f) => r matches Err(e) && e.failure() == f,
        },
{
    let ghost tm = crate::ir::typing::type_models(ts@);
    let mut out: Vec<Parameter> = Vec::new();
    let mut i: usize = 0;
    assert(out@.map_values(|p: Parameter| p.model()) =~= Seq::<crate::ir::function::ParameterModel>::empty());
    while i < ps.len()
        invariant
            typing.wf(),
            i <= ps@.len(),
            ps@.len() == ts@.len(),
            tm == crate::ir::typing::type_models(ts@),
            conv_params(ps@, tm, typing.structs(), i as nat) == Ok::<Seq<crate::ir::function::ParameterModel>, Failure>(
                out@.map_values(|p: Parameter| p.model()),
            ),
        decreases ps@.len() - i,
    {
        assert(tm[i as int] == ts@[i as int].model());
        let p = match Parameter::convert(&ps[i], &ts[i], typing) {
            Err(e) => {
                proof {
                    lemma_params_prefix(ps@, tm, typing.structs(), (i + 1) as nat, ps@.len());
                }
                return Err(e);
            },
            Ok(p) => p,
        };
        let ghost before = out@;
        out.push(p);
        assert(out@.map_values(|q: Parameter| q.model()) =~= before.map_values(|q: Parameter| q.model()).push(p.model()));
        i = i + 1;
    }
    Ok(out)
}

/// Once converting the parameters fails, converting more fails the same way.
proof fn lemma_params_prefix(
    ps: Seq<crate::ir::adapter::function::Parameter>,
    ts: Seq<TypeModel>,
    defs: Map<Seq<char>, Seq<crate::ir::adapter::typing::TypeView>>,
    i: nat,
    n: nat,
)
    requires
        i <= n <= ps.len(),
        n <= ts.len(),
        conv_params(ps, ts, defs, i) is Err,
    ensures
        conv_params(ps, ts, defs, n) == conv_params(ps, ts, defs, i),
    decreases n,
{
    if n > i {
        lemma_params_prefix(ps, ts, defs, i, (n - 1) as nat);
    }
}

impl crate::ir::function::Function {
    /// The registers that the body defines, in increasing order; none for a
    /// declaration.
    pub fn collect_variables(&self) -> (r: Vec<crate::ir::value::RegisterSlot>)
        ensures
            match self.body {
                None => r@.len() == 0,
                Some(g) => r@.to_set() == g.variables() && forall|i: int, j: int|
                    0 <= i < j < r@.len() ==> r@[i].0 < r@[j].0,
            },
    {
        match &self.body {
            None => Vec::new(),
            Some(body) => body.collect_variables(),
        }
    }

    /// Converts a function read from a module (see [`conv_function`]).
    pub fn convert(func: &crate::ir::adapter::function::Function, typing: &TypeRegistry, symbols: &SymbolRegistry) -> (r:
        EngineResult<Self>)
        requires
            typing.wf(),
            func.blocks@.len() < u32::MAX,
            target_count(func.blocks@, func.blocks@.len()) < u32::MAX,
        ensures
            match conv_function(scope_of(typing, symbols), *func) {
                Ok(m) => r matches Ok(f) && f.model() == m && (f.body matches Some(g) ==> g.wf()),
                Err(f) => r matches Err(e) && e.failure() == f,
            },
    {
        let name = match &func.name {
            None => {
                return Err(EngineError::NotSupportedYet(crate::error::Unsupported::AnonymousFunction));
            },
            Some(n) => n,
        };
        crate::ir::intrinsics::filter_intrinsics(name.as_str())?;
        let func_ty = typing.convert(&func.ty)?;
        let (param_tys, variadic, ret) = match func_ty {
            Type::Function { params, variadic, ret } => (params, variadic, ret),
            _ => {
                return Err(EngineError::InvalidAssumption(
                    crate::text::concat("invalid signature for function: ", name.as_str()),
                ));
            },
        };
        let ret_ty: Option<Type> = match ret {
            Some(t) => Some(*t),
            None => None,
        };
        assert(crate::ir::typing::type_models(param_tys@).len() == param_tys@.len());
        if func.params.len() != param_tys.len() {
            return Err(EngineError::InvalidAssumption(
                crate::text::concat("parameter count mismatch for function: ", name.as_str()),
            ));
        }
        let params_new = convert_params(&func.params, &param_tys, typing)?;
        let body = if func.is_defined {
            if func.blocks.len() == 0 {
                return Err(EngineError::InvalidAssumption(
                    crate::text::concat("a defined function must have at least one basic block: ", name.as_str()),
                ));
            }
            if func.is_intrinsic {
                return Err(EngineError::InvalidAssumption(
                    crate::text::concat("a defined function cannot be an intrinsic: ", name.as_str()),
                ));
            }
            proof {
                assert(param_types(params_new@) =~= params_new@.map_values(|p: Parameter| p.model()).map_values(
                    |p: crate::ir::function::ParameterModel| p.ty,
                ));
            }
            Some(ControlFlowGraph::build(typing, symbols, &params_new, &ret_ty, &func.blocks)?)
        } else {
            None
        };
        Ok(
            crate::ir::function::Function {
                name: Identifier::from_str(name.as_str()),
                params: params_new,
                variadic,
                ret: ret_ty,
                is_weak: !func.is_exact,
                body,
            },
        )
    }
}

} // verus!

verus! {

/// Reading blocks keeps their labels, one for one and in order.
proof fn lemma_block_labels(env: Env, regs: Regs, bs: Seq<ABlock>, n: nat)
    requires
        n <= bs.len(),
    ensures
        conv_blocks(env, regs, bs, n).0 matches Ok(blocks) ==> blocks.len() == n && forall|i: int|
            0 <= i < n ==> (#[trigger] blocks[i]).0 == BlockLabel(bs[i].label),
    decreases n,
{
    if n > 0 {
        lemma_block_labels(env, regs, bs, (n - 1) as nat);
        if let Ok(blocks) = conv_blocks(env, regs, bs, n).0 {
            let p = conv_blocks(env, regs, bs, (n - 1) as nat).0->Ok_0;
            assert forall|i: int| 0 <= i < n implies (#[trigger] blocks[i]).0 == BlockLabel(bs[i].label) by {
                if i < n - 1 {
                    assert(blocks[i] == p[i]);
                }
            }
        }
    }
}

/// A control-flow graph built from blocks has exactly their labels, in order.
pub proof fn law_graph_labels(sc: Scope, params: Seq<TypeModel>, ret: Option<TypeModel>, bs: Seq<ABlock>)
    ensures
        cfg_build(sc, params, ret, bs) matches Ok((blocks, edges)) ==> blocks.map_values(
            |b: (BlockLabel, BlockModel)| b.0.0,
        ) == bs.map_values(|b: ABlock| b.label),
{
    if let Ok((blocks, edges)) = cfg_build(sc, params, ret, bs) {
        lemma_block_labels(body_env(sc, params, ret, bs), body_regs(bs), bs, bs.len());
        assert(blocks.map_values(|b: (BlockLabel, BlockModel)| b.0.0) =~= bs.map_values(|b: ABlock| b.label));
    }
}

} // verus!
