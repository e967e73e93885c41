use vstd::prelude::*;

use crate::error::{EngineError, EngineResult, Failure, Unsupported};
use crate::ir::building::{block_models, edge_models, BlockModel, EdgeModel, FunctionModel};
use crate::ir::cfg::ControlFlowGraph;
use crate::ir::equality::same_names;
use crate::ir::function::{opt_type_model, Function, Parameter, ParameterModel};
use crate::ir::graph::{graph_edges, graph_nodes};
use crate::ir::typing::Type;
use crate::ir::value::BlockLabel;
use crate::ir::global::{global_models, odr_global, GlobalModel, GlobalVariable};
use crate::ir::shared::Identifier;
use crate::ir::adapter::function::Function as AFunction;
use crate::ir::adapter::global::GlobalVariable as AGlobalVariable;
use crate::ir::adapter::module::Module as AModule;
use crate::ir::adapter::typing::TypeView;
use crate::ir::building::{conv_function, named_targets, target_count};
use crate::ir::adapter::instruction::Inst as AInst;
use crate::ir::adapter::cfg::Block as ABlock;
use crate::ir::context::{ident_names, scope_of, SymbolRegistry};
use crate::ir::conversion::Scope;
use crate::ir::global::conv_global;
use crate::ir::typing::{populate_structs, struct_views, TypeRegistry};
use crate::text::{concat, lemma_text_less, lemma_text_less_total, text_less};

verus! {

/// Whether two graphs are isomorphic, as `petgraph::algo::is_isomorphic_matching`
/// decides it: each graph is given by its node weights (block labels), its edges
/// (pairs of node positions) and its labelled blocks; two nodes match where the
/// blocks under their labels have equal models, and any two edges match.
pub uninterp spec fn graphs_match(
    na: Seq<usize>,
    ea: Seq<(usize, usize)>,
    ba: Seq<(BlockLabel, BlockModel)>,
    nb: Seq<usize>,
    eb: Seq<(usize, usize)>,
    bb: Seq<(BlockLabel, BlockModel)>,
) -> bool;

/// Whether the blocks labelled `x` in `a` and `y` in `b` have equal models.
fn blocks_match(a: &ControlFlowGraph, x: usize, b: &ControlFlowGraph, y: usize) -> (r: bool)
    ensures
        a.wf() && b.wf() ==> r == exists|i: int, j: int|
            0 <= i < a.blocks@.len() && 0 <= j < b.blocks@.len() && a.blocks@[i].0 == BlockLabel(x)
                && b.blocks@[j].0 == BlockLabel(y) && a.blocks@[i].1.model() == b.blocks@[j].1.model(),
{
    match (a.position_of_label(&BlockLabel(x)), b.position_of_label(&BlockLabel(y))) {
        (Some(i), Some(j)) => {
            let r = a.blocks[i].1.same_as(&b.blocks[j].1);
            proof {
                reveal(ControlFlowGraph::wf);
                if a.wf() && b.wf() {
                    assert forall|i2: int, j2: int|
                        0 <= i2 < a.blocks@.len() && 0 <= j2 < b.blocks@.len() && a.blocks@[i2].0 == BlockLabel(x)
                            && b.blocks@[j2].0 == BlockLabel(y) implies i2 == i && j2 == j by {}
                }
            }
            r
        },
        (None, _) => {
            proof {
                assert forall|i: int| 0 <= i < a.blocks@.len() implies a.blocks@[i].0 != BlockLabel(x) by {
                    assert(a.labels()[i] == a.blocks@[i].0);
                }
            }
            false
        },
        (_, None) => {
            proof {
                assert forall|j: int| 0 <= j < b.blocks@.len() implies b.blocks@[j].0 != BlockLabel(y) by {
                    assert(b.labels()[j] == b.blocks@[j].0);
                }
            }
            false
        },
    }
}

/// Whether the graphs of two control-flow graphs are isomorphic, with
/// `petgraph::algo::is_isomorphic_matching`: two nodes match where the blocks
/// they stand for have equal models ([`blocks_match`]), and edges, which carry no
/// weight, always match. The result is named by [`graphs_match`]; as its source
/// shows, it is `false` where the numbers of nodes or of edges differ.
#[verifier::external_body]
fn cfg_isomorphic(a: &ControlFlowGraph, b: &ControlFlowGraph) -> (r: bool)
    ensures
        r == graphs_match(
            graph_nodes(a.graph),
            graph_edges(a.graph),
            block_models(a.blocks@),
            graph_nodes(b.graph),
            graph_edges(b.graph),
            block_models(b.blocks@),
        ),
        graph_nodes(a.graph).len() != graph_nodes(b.graph).len() || graph_edges(a.graph).len() != graph_edges(
            b.graph,
        ).len() ==> !r,
{
    petgraph::algo::is_isomorphic_matching(
        &a.graph,
        &b.graph,
        |x: &usize, y: &usize| blocks_match(a, *x, b, *y),
        |_: &(), _: &()| true,
    )
}

/// The node weights of the graph of a control-flow graph: the labels of its
/// blocks, in order.
pub open spec fn shape_nodes(bm: Seq<(BlockLabel, BlockModel)>) -> Seq<usize> {
    bm.map_values(|p: (BlockLabel, BlockModel)| p.0.0)
}

/// The position of the block labelled `l`.
pub open spec fn label_index(bm: Seq<(BlockLabel, BlockModel)>, l: BlockLabel) -> usize {
    (choose|i: int| 0 <= i < bm.len() && bm[i].0 == l) as usize
}

/// The edges of the graph of a control-flow graph: for each edge, the positions
/// of the blocks it joins.
pub open spec fn shape_edges(
    bm: Seq<(BlockLabel, BlockModel)>,
    em: Seq<(BlockLabel, BlockLabel, EdgeModel)>,
) -> Seq<(usize, usize)> {
    em.map_values(|e: (BlockLabel, BlockLabel, EdgeModel)| (label_index(bm, e.0), label_index(bm, e.1)))
}

/// Whether two function bodies count as the same: both
/// absent, or both present with isomorphic graphs.
pub open spec fn bodies_match(
    a: Option<(Seq<(BlockLabel, BlockModel)>, Seq<(BlockLabel, BlockLabel, EdgeModel)>)>,
    b: Option<(Seq<(BlockLabel, BlockModel)>, Seq<(BlockLabel, BlockLabel, EdgeModel)>)>,
) -> bool {
    match (a, b) {
        (None, None) => true,
        (Some((ba, ea)), Some((bb, eb))) => graphs_match(
            shape_nodes(ba),
            shape_edges(ba, ea),
            ba,
            shape_nodes(bb),
            shape_edges(bb, eb),
            bb,
        ),
        _ => false,
    }
}

/// Whether two functions are the same: equal in every part, with bodies compared
/// by [`bodies_match`].
pub open spec fn functions_match(a: FunctionModel, b: FunctionModel) -> bool {
    &&& a.name == b.name
    &&& a.params == b.params
    &&& a.variadic == b.variadic
    &&& a.ret == b.ret
    &&& a.is_weak == b.is_weak
    &&& bodies_match(a.body, b.body)
}

/// A well-formed graph holds the shape that its blocks and edges give.
proof fn lemma_shape(g: ControlFlowGraph)
    requires
        g.wf(),
    ensures
        graph_nodes(g.graph) == shape_nodes(block_models(g.blocks@)),
        graph_edges(g.graph) == shape_edges(block_models(g.blocks@), edge_models(g.edges@)),
{
    reveal(ControlFlowGraph::wf);
    let bm = block_models(g.blocks@);
    let ge = graph_edges(g.graph);
    assert(graph_nodes(g.graph) == crate::ir::cfg::label_numbers(g.blocks@));
    assert(graph_nodes(g.graph) =~= shape_nodes(bm));
    assert(ge.len() == g.edges@.len());
    assert forall|k: int| 0 <= k < ge.len() implies #[trigger] ge[k] == shape_edges(bm, edge_models(g.edges@))[k] by {
        let e = edge_models(g.edges@)[k];
        assert(bm[ge[k].0 as int].0 == e.0);
        assert(bm[ge[k].1 as int].0 == e.1);
        let i = label_index(bm, e.0);
        let j = label_index(bm, e.1);
        assert(0 <= ge[k].0 < bm.len() && bm[ge[k].0 as int].0 == e.0);
        assert(bm[i as int].0 == e.0);
        assert(bm[j as int].0 == e.1);
        assert(i == ge[k].0);
        assert(j == ge[k].1);
    }
    assert(ge =~= shape_edges(bm, edge_models(g.edges@)));
}

/// The models of the bodies of functions hold well-formed graphs.
pub open spec fn bodies_wf(fs: Seq<Function>) -> bool {
    forall|i: int| 0 <= i < fs.len() ==> ((#[trigger] fs[i]).body matches Some(g) ==> g.wf())
}

/// Whether two lists of parameters have equal models.
fn same_params(a: &Vec<Parameter>, b: &Vec<Parameter>) -> (r: bool)
    ensures
        r == (a@.map_values(|p: Parameter| p.model()) == b@.map_values(|p: Parameter| p.model())),
{
    let ghost ma = a@.map_values(|p: Parameter| p.model());
    let ghost mb = b@.map_values(|p: Parameter| p.model());
    if a.len() != b.len() {
        proof {
            assert(ma.len() != mb.len());
        }
        return false;
    }
    let mut i: usize = 0;
    while i < a.len()
        invariant
            a@.len() == b@.len(),
            i <= a@.len(),
            ma == a@.map_values(|p: Parameter| p.model()),
            mb == b@.map_values(|p: Parameter| p.model()),
            forall|j: int| 0 <= j < i ==> a@[j].model() == b@[j].model(),
        decreases a@.len() - i,
    {
        let same = same_names(&a[i].name, &b[i].name) && a[i].ty.same_as(&b[i].ty) && same_opt_type(
            &a[i].annotated_pointee_type,
            &b[i].annotated_pointee_type,
        );
        if !same {
            assert(ma[i as int] != mb[i as int]);
            return false;
        }
        i = i + 1;
    }
    assert(ma =~= mb);
    true
}

/// Whether two optional types have equal models.
fn same_opt_type(a: &Option<Type>, b: &Option<Type>) -> (r: bool)
    ensures
        r == (opt_type_model(*a) == opt_type_model(*b)),
{
    match (a, b) {
        (Some(x), Some(y)) => x.same_as(y),
        (None, None) => true,
        _ => false,
    }
}

/// The entries of a list that are strong (not weak) definitions.
pub open spec fn strong_functions(es: Seq<FunctionModel>) -> Seq<FunctionModel> {
    es.filter(|f: FunctionModel| !f.is_weak)
}

/// The one definition rule on the functions of one name: a single strong
/// definition wins; two are refused; else all weak ones must match the first.
pub open spec fn odr_function(es: Seq<FunctionModel>) -> Result<FunctionModel, Failure> {
    let strong = strong_functions(es);
    if strong.len() >= 2 {
        Err(Failure::Assumption("no duplicated function: "@ + strong[1].name))
    } else if strong.len() == 1 {
        Ok(strong[0])
    } else if es.len() == 0 {
        Err(Failure::Invariant("no entries for ODR"@))
    } else if exists|j: int| 0 < j < es.len() && !functions_match(#[trigger] es[j], es[0]) {
        Err(Failure::Unsupported(Unsupported::WeakFunction))
    } else {
        Ok(es[0])
    }
}

/// The models of a list of functions.
pub open spec fn function_models(v: Seq<Function>) -> Seq<FunctionModel> {
    v.map_values(|f: Function| f.model())
}

proof fn lemma_strong_push(s: Seq<FunctionModel>, e: FunctionModel)
    ensures
        strong_functions(s.push(e)) == (if e.is_weak {
            strong_functions(s)
        } else {
            strong_functions(s).push(e)
        }),
{
    s.lemma_filter_push(e, |f: FunctionModel| !f.is_weak);
}

/// Once two strong definitions are met, there are at least two in all, and the
/// second is the same.
proof fn lemma_strong_prefix(ms: Seq<FunctionModel>, n: int)
    requires
        0 <= n <= ms.len(),
        strong_functions(ms.take(n)).len() >= 2,
    ensures
        strong_functions(ms).len() >= 2,
        strong_functions(ms)[1] == strong_functions(ms.take(n))[1],
    decreases ms.len() - n,
{
    if n < ms.len() {
        assert(ms.take(n + 1) =~= ms.take(n).push(ms[n]));
        lemma_strong_push(ms.take(n), ms[n]);
        lemma_strong_prefix(ms, n + 1);
    } else {
        assert(ms.take(n) =~= ms);
    }
}

impl Function {
    /// Whether two functions are the same (see [`functions_match`]).
    pub fn same_as(&self, other: &Function) -> (r: bool)
        requires
            self.body matches Some(g) ==> g.wf(),
            other.body matches Some(g) ==> g.wf(),
        ensures
            r == functions_match(self.model(), other.model()),
    {
        if !self.name.same_name(&other.name) || !same_params(&self.params, &other.params) || self.variadic
            != other.variadic || !same_opt_type(&self.ret, &other.ret) || self.is_weak != other.is_weak {
            return false;
        }
        match (&self.body, &other.body) {
            (None, None) => true,
            (Some(a), Some(b)) => {
                proof {
                    lemma_shape(*a);
                    lemma_shape(*b);
                }
                cfg_isomorphic(a, b)
            },
            _ => false,
        }
    }

    /// Applies the one definition rule to the functions of one name (see
    /// [`odr_function`]).
    pub fn apply_odr(entries: Vec<Self>) -> (r: EngineResult<Self>)
        requires
            bodies_wf(entries@),
        ensures
            match odr_function(function_models(entries@)) {
                Ok(m) => r matches Ok(f) && f.model() == m && (f.body matches Some(g) ==> g.wf()),
                Err(e) => r matches Err(x) && x.failure() == e,
            },
    {
        let ghost ms = function_models(entries@);
        let mut first: Option<usize> = None;
        let mut i: usize = 0;
        while i < entries.len()
            invariant
                ms == function_models(entries@),
                i <= entries@.len(),
                match first {
                    Some(f) => f < i && strong_functions(ms.take(i as int)) == seq![ms[f as int]],
                    None => strong_functions(ms.take(i as int)).len() == 0,
                },
            decreases entries@.len() - i,
        {
            proof {
                assert(ms.take(i + 1) =~= ms.take(i as int).push(ms[i as int]));
                lemma_strong_push(ms.take(i as int), ms[i as int]);
            }
            if !entries[i].is_weak {
                if first.is_some() {
                    proof {
                        lemma_strong_prefix(ms, i + 1);
                    }
                    return Err(EngineError::InvalidAssumption(concat("no duplicated function: ", entries[i].name.as_str())));
                }
                first = Some(i);
            }
            i = i + 1;
        }
        assert(ms.take(ms.len() as int) =~= ms);
        if let Some(f) = first {
            let mut rest = entries;
            let ghost before = rest@;
            let g = rest.remove(f);
            assert(g == before[f as int]);
            return Ok(g);
        }
        if entries.len() == 0 {
            return Err(EngineError::InvariantViolation("no entries for ODR".to_owned()));
        }
        let mut j: usize = 1;
        while j < entries.len()
            invariant
                ms == function_models(entries@),
                bodies_wf(entries@),
                ms.len() > 0,
                strong_functions(ms).len() == 0,
                1 <= j <= entries@.len(),
                forall|x: int| 0 < x < j ==> functions_match(#[trigger] ms[x], ms[0]),
            decreases entries@.len() - j,
        {
            if !entries[j].same_as(&entries[0]) {
                assert(ms[j as int] == entries@[j as int].model());
                assert(ms[0] == entries@[0].model());
                assert(!functions_match(ms[j as int], ms[0]));
                assert(0 < j < ms.len());
                return Err(EngineError::NotSupportedYet(Unsupported::WeakFunction));
            }
            j = j + 1;
        }
        let mut rest = entries;
        let ghost before = rest@;
        let g = rest.remove(0);
        assert(g == before[0]);
        Ok(g)
    }
}

/// Definitions that carry a name and are merged by the one definition rule.
pub trait Definition: Sized {
    /// The mathematical model of a definition.
    type Model;

    /// The name of the definition.
    spec fn name_text(&self) -> Seq<char>;

    spec fn model_of(&self) -> Self::Model;

    /// The name that a model carries.
    spec fn model_name(m: Self::Model) -> Seq<char>;

    /// What a definition must satisfy to be merged.
    spec fn valid(&self) -> bool;

    /// The outcome of the one definition rule on the definitions of one name.
    spec fn odr_outcome(ms: Seq<Self::Model>) -> Result<Self::Model, Failure>;

    proof fn lemma_model_name(x: &Self)
        ensures
            Self::model_name(x.model_of()) == x.name_text(),
    ;

    /// What the rule keeps carries the name that all the definitions carry.
    proof fn lemma_outcome_name(ms: Seq<Self::Model>, n: Seq<char>)
        requires
            forall|i: int| 0 <= i < ms.len() ==> Self::model_name(#[trigger] ms[i]) == n,
        ensures
            Self::odr_outcome(ms) matches Ok(m) ==> Self::model_name(m) == n,
    ;

    /// When two definitions count as the same.
    spec fn models_match(a: Self::Model, b: Self::Model) -> bool;

    /// The name of the definition.
    fn name_ref(&self) -> (r: &Identifier)
        ensures
            r.0@ == self.name_text(),
    ;

    /// Whether two definitions count as the same.
    fn same_def(&self, other: &Self) -> (r: bool)
        requires
            self.valid(),
            other.valid(),
        ensures
            r == Self::models_match(self.model_of(), other.model_of()),
    ;

    /// Applies the one definition rule to the definitions of one name.
    fn resolve(entries: Vec<Self>) -> (r: EngineResult<Self>)
        requires
            forall|i: int| 0 <= i < entries@.len() ==> (#[trigger] entries@[i]).valid(),
        ensures
            match Self::odr_outcome(entries@.map_values(|x: Self| x.model_of())) {
                Ok(m) => r matches Ok(x) && x.model_of() == m && x.valid(),
                Err(f) => r matches Err(e) && e.failure() == f,
            },
    ;
}

/// A filter keeps a property that every element has.
proof fn lemma_filter_keeps<A>(s: Seq<A>, pred: spec_fn(A) -> bool, p: spec_fn(A) -> bool)
    requires
        forall|i: int| 0 <= i < s.len() ==> p(#[trigger] s[i]),
    ensures
        forall|i: int| 0 <= i < s.filter(pred).len() ==> p(#[trigger] s.filter(pred)[i]),
    decreases s.len(),
{
    reveal(Seq::filter);
    if s.len() > 0 {
        assert forall|i: int| 0 <= i < s.drop_last().len() implies p(#[trigger] s.drop_last()[i]) by {
            assert(s.drop_last()[i] == s[i]);
        }
        lemma_filter_keeps(s.drop_last(), pred, p);
        let sub = s.drop_last().filter(pred);
        assert(s.filter(pred) == (if pred(s.last()) {
            sub.push(s.last())
        } else {
            sub
        }));
        assert(p(s[s.len() - 1]));
    }
}

/// The models of a list of definitions.
pub open spec fn def_models<T: Definition>(s: Seq<T>) -> Seq<T::Model> {
    s.map_values(|x: T| x.model_of())
}

impl Definition for GlobalVariable {
    type Model = GlobalModel;

    open spec fn name_text(&self) -> Seq<char> {
        self.name.0@
    }

    open spec fn model_of(&self) -> GlobalModel {
        self.model()
    }

    open spec fn model_name(m: GlobalModel) -> Seq<char> {
        m.name
    }

    open spec fn valid(&self) -> bool {
        true
    }

    open spec fn odr_outcome(ms: Seq<GlobalModel>) -> Result<GlobalModel, Failure> {
        odr_global(ms)
    }

    proof fn lemma_model_name(x: &Self) {
    }

    proof fn lemma_outcome_name(ms: Seq<GlobalModel>, n: Seq<char>) {
        lemma_filter_keeps(ms, |g: GlobalModel| !g.is_weak, |g: GlobalModel| g.name == n);
    }

    open spec fn models_match(a: GlobalModel, b: GlobalModel) -> bool {
        a == b
    }

    fn same_def(&self, other: &Self) -> (r: bool) {
        crate::ir::global::same_global(self, other)
    }

    fn name_ref(&self) -> (r: &Identifier) {
        &self.name
    }

    fn resolve(entries: Vec<Self>) -> (r: EngineResult<Self>) {
        assert(entries@.map_values(|x: Self| x.model_of()) =~= global_models(entries@));
        GlobalVariable::apply_odr(entries)
    }
}

impl Definition for Function {
    type Model = FunctionModel;

    open spec fn name_text(&self) -> Seq<char> {
        self.name.0@
    }

    open spec fn model_of(&self) -> FunctionModel {
        self.model()
    }

    open spec fn model_name(m: FunctionModel) -> Seq<char> {
        m.name
    }

    open spec fn valid(&self) -> bool {
        self.body matches Some(g) ==> g.wf()
    }

    open spec fn odr_outcome(ms: Seq<FunctionModel>) -> Result<FunctionModel, Failure> {
        odr_function(ms)
    }

    proof fn lemma_model_name(x: &Self) {
    }

    proof fn lemma_outcome_name(ms: Seq<FunctionModel>, n: Seq<char>) {
        lemma_filter_keeps(ms, |f: FunctionModel| !f.is_weak, |f: FunctionModel| f.name == n);
    }

    open spec fn models_match(a: FunctionModel, b: FunctionModel) -> bool {
        functions_match(a, b)
    }

    fn same_def(&self, other: &Self) -> (r: bool) {
        self.same_as(other)
    }

    fn name_ref(&self) -> (r: &Identifier) {
        &self.name
    }

    fn resolve(entries: Vec<Self>) -> (r: EngineResult<Self>) {
        assert(entries@.map_values(|x: Self| x.model_of()) =~= function_models(entries@));
        Function::apply_odr(entries)
    }
}

/// The items of a list that carry the name `n`, in order.
pub open spec fn named_items<T: Definition>(s: Seq<T>, n: Seq<char>) -> Seq<T>
    decreases s.len(),
{
    if s.len() == 0 {
        Seq::empty()
    } else {
        let init = named_items(s.drop_last(), n);
        if s.last().name_text() == n {
            init.push(s.last())
        } else {
            init
        }
    }
}

/// The names that some item of a list carries.
pub open spec fn item_names<T: Definition>(s: Seq<T>) -> Set<Seq<char>> {
    Set::new(|n: Seq<char>| exists|i: int| 0 <= i < s.len() && (#[trigger] s[i]).name_text() == n)
}

/// The groups hold distinct names, each with the items of that name, and every
/// name of the items has a group.
pub open spec fn grouped<T: Definition>(groups: Seq<(Identifier, Vec<T>)>, s: Seq<T>) -> bool {
    &&& forall|i: int, j: int| 0 <= i < j < groups.len() ==> groups[i].0.0@ != groups[j].0.0@
    &&& forall|i: int| 0 <= i < groups.len() ==> (#[trigger] groups[i]).1@ == named_items(s, groups[i].0.0@)
    &&& forall|n: Seq<char>| item_names(s).contains(n) <==> exists|i: int|
        0 <= i < groups.len() && (#[trigger] groups[i]).0.0@ == n
}

proof fn lemma_named_push<T: Definition>(s: Seq<T>, e: T, n: Seq<char>)
    ensures
        named_items(s.push(e), n) == (if e.name_text() == n {
            named_items(s, n).push(e)
        } else {
            named_items(s, n)
        }),
{
    assert(s.push(e).drop_last() =~= s);
}

proof fn lemma_named_absent<T: Definition>(s: Seq<T>, n: Seq<char>)
    requires
        !item_names(s).contains(n),
    ensures
        named_items(s, n) == Seq::<T>::empty(),
    decreases s.len(),
{
    if s.len() > 0 {
        let init = s.drop_last();
        assert(init.push(s.last()) =~= s);
        lemma_named_push(init, s.last(), n);
        assert(!item_names(init).contains(n)) by {
            if item_names(init).contains(n) {
                let i = choose|i: int| 0 <= i < init.len() && (#[trigger] init[i]).name_text() == n;
                assert(s[i] == init[i]);
            }
        }
        assert(s[s.len() - 1].name_text() != n);
        lemma_named_absent(init, n);
    }
}

/// Sorts a list of items into groups by name, in the order in which the names
/// first occur.
fn group_by_name<T: Definition>(items: Vec<T>) -> (r: Vec<(Identifier, Vec<T>)>)
    ensures
        grouped(r@, items@),
        (forall|i: int| 0 <= i < items@.len() ==> (#[trigger] items@[i]).valid()) ==> forall|g: int, j: int|
            0 <= g < r@.len() && 0 <= j < r@[g].1@.len() ==> (#[trigger] r@[g].1@[j]).valid(),
{
    let ghost all = items@;
    let mut rest = items;
    let mut groups: Vec<(Identifier, Vec<T>)> = Vec::new();
    let mut k: usize = 0;
    let n = rest.len();
    proof {
        assert(all.take(0) =~= Seq::<T>::empty());
        assert forall|nm: Seq<char>| !item_names(all.take(0)).contains(nm) by {}
    }
    while rest.len() > 0
        invariant
            k + rest@.len() == all.len(),
            n == all.len(),
            rest@ == all.subrange(k as int, all.len() as int),
            grouped(groups@, all.take(k as int)),
            (forall|i: int| 0 <= i < all.len() ==> (#[trigger] all[i]).valid()) ==> forall|g: int, j: int|
                0 <= g < groups@.len() && 0 <= j < groups@[g].1@.len() ==> (#[trigger] groups@[g].1@[j]).valid(),
        decreases rest@.len(),
    {
        let ghost old_rest = rest@;
        let ghost pre = all.take(k as int);
        let e = rest.remove(0);
        assert(e == all[k as int]);
        assert(rest@ =~= all.subrange(k + 1, all.len() as int));
        let ghost en = e.name_text();
        assert(all.take(k + 1) =~= pre.push(e));
        // find the group of the name
        let mut g: usize = 0;
        let mut found = false;
        while !found && g < groups.len()
            invariant
                g <= groups@.len(),
                en == e.name_text(),
                found ==> g < groups@.len() && groups@[g as int].0.0@ == en,
                forall|x: int| 0 <= x < g ==> groups@[x].0.0@ != en,
            decreases groups@.len() - g, if found { 0int } else { 1int },
        {
            if groups[g].0.same_name(e.name_ref()) {
                found = true;
            } else {
                g = g + 1;
            }
        }
        let ghost before = groups@;
        if found {
            let (name, mut members) = groups.remove(g);
            members.push(e);
            groups.insert(g, (name, members));
            proof {
                assert forall|x: int| 0 <= x < groups@.len() implies (#[trigger] groups@[x]).1@ == named_items(
                    all.take(k + 1),
                    groups@[x].0.0@,
                ) by {
                    lemma_named_push(pre, e, groups@[x].0.0@);
                    if x != g {
                        assert(groups@[x] == before[x]);
                    }
                }
                assert forall|nm: Seq<char>| #[trigger] item_names(all.take(k + 1)).contains(nm) <==> exists|x: int|
                    0 <= x < groups@.len() && (#[trigger] groups@[x]).0.0@ == nm by {
                    if item_names(all.take(k + 1)).contains(nm) {
                        let i = choose|i: int| 0 <= i < all.take(k + 1).len() && (#[trigger] all.take(k + 1)[i]).name_text() == nm;
                        if i < k {
                            assert(pre[i] == all.take(k + 1)[i]);
                            assert(item_names(pre).contains(nm));
                            let y = choose|y: int| 0 <= y < before.len() && (#[trigger] before[y]).0.0@ == nm;
                            assert(groups@[y].0 == before[y].0);
                        } else {
                            assert(groups@[g as int].0.0@ == nm);
                        }
                    }
                    if exists|x: int| 0 <= x < groups@.len() && (#[trigger] groups@[x]).0.0@ == nm {
                        let x = choose|x: int| 0 <= x < groups@.len() && (#[trigger] groups@[x]).0.0@ == nm;
                        assert(before[x].0 == groups@[x].0);
                        assert(item_names(pre).contains(nm));
                        let i = choose|i: int| 0 <= i < pre.len() && (#[trigger] pre[i]).name_text() == nm;
                        assert(all.take(k + 1)[i] == pre[i]);
                    }
                }
                assert forall|x: int, y: int| 0 <= x < y < groups@.len() implies groups@[x].0.0@ != groups@[y].0.0@ by {
                    assert(groups@[x].0 == before[x].0);
                    assert(groups@[y].0 == before[y].0);
                }
            }
        } else {
            let name = Identifier::from_str(e.name_ref().as_str());
            let mut members: Vec<T> = Vec::new();
            members.push(e);
            groups.push((name, members));
            proof {
                assert(!item_names(pre).contains(en)) by {
                    if item_names(pre).contains(en) {
                        let y = choose|y: int| 0 <= y < before.len() && (#[trigger] before[y]).0.0@ == en;
                    }
                }
                lemma_named_absent(pre, en);
                assert forall|x: int| 0 <= x < groups@.len() implies (#[trigger] groups@[x]).1@ == named_items(
                    all.take(k + 1),
                    groups@[x].0.0@,
                ) by {
                    lemma_named_push(pre, e, groups@[x].0.0@);
                    if x < before.len() {
                        assert(groups@[x] == before[x]);
                    } else {
                        assert(groups@[x].1@ =~= seq![e]);
                        assert(Seq::<T>::empty().push(e) =~= seq![e]);
                    }
                }
                assert forall|nm: Seq<char>| #[trigger] item_names(all.take(k + 1)).contains(nm) <==> exists|x: int|
                    0 <= x < groups@.len() && (#[trigger] groups@[x]).0.0@ == nm by {
                    if item_names(all.take(k + 1)).contains(nm) {
                        let i = choose|i: int| 0 <= i < all.take(k + 1).len() && (#[trigger] all.take(k + 1)[i]).name_text() == nm;
                        if i < k {
                            assert(pre[i] == all.take(k + 1)[i]);
                            assert(item_names(pre).contains(nm));
                            let y = choose|y: int| 0 <= y < before.len() && (#[trigger] before[y]).0.0@ == nm;
                            assert(groups@[y] == before[y]);
                        } else {
                            assert(groups@[before.len() as int].0.0@ == nm);
                        }
                    }
                    if exists|x: int| 0 <= x < groups@.len() && (#[trigger] groups@[x]).0.0@ == nm {
                        let x = choose|x: int| 0 <= x < groups@.len() && (#[trigger] groups@[x]).0.0@ == nm;
                        if x < before.len() {
                            assert(before[x] == groups@[x]);
                            assert(item_names(pre).contains(nm));
                            let i = choose|i: int| 0 <= i < pre.len() && (#[trigger] pre[i]).name_text() == nm;
                            assert(all.take(k + 1)[i] == pre[i]);
                        } else {
                            assert(all.take(k + 1)[k as int] == e);
                        }
                    }
                }
                assert forall|x: int, y: int| 0 <= x < y < groups@.len() implies groups@[x].0.0@ != groups@[y].0.0@ by {
                    if y == before.len() {
                        assert(groups@[x] == before[x]);
                    } else {
                        assert(groups@[x] == before[x]);
                        assert(groups@[y] == before[y]);
                    }
                }
            }
        }
        k = k + 1;
    }
    assert(all.take(k as int) =~= all);
    groups
}

/// The models of a list that carry the name `n`, in order.
pub open spec fn models_named<T: Definition>(ms: Seq<T::Model>, n: Seq<char>) -> Seq<T::Model>
    decreases ms.len(),
{
    if ms.len() == 0 {
        Seq::empty()
    } else {
        let init = models_named::<T>(ms.drop_last(), n);
        if T::model_name(ms.last()) == n {
            init.push(ms.last())
        } else {
            init
        }
    }
}

/// The names that the models of a list carry.
pub open spec fn model_names<T: Definition>(ms: Seq<T::Model>) -> Set<Seq<char>> {
    Set::new(|n: Seq<char>| exists|i: int| 0 <= i < ms.len() && T::model_name(#[trigger] ms[i]) == n)
}

/// The one definition rule fails on the definitions named `n`.
pub open spec fn odr_fails<T: Definition>(ms: Seq<T::Model>, n: Seq<char>) -> bool {
    model_names::<T>(ms).contains(n) && T::odr_outcome(models_named::<T>(ms, n)) is Err
}

/// The one definition rule on every name of a list of definitions: where it fails
/// on some name, the failure on the least such name (in the order of texts);
/// otherwise what it keeps under each name.
pub open spec fn resolve_all<T: Definition>(ms: Seq<T::Model>) -> Result<Map<Seq<char>, T::Model>, Failure> {
    if exists|n: Seq<char>| odr_fails::<T>(ms, n) {
        let n = choose|n: Seq<char>|
            odr_fails::<T>(ms, n) && forall|k: Seq<char>| odr_fails::<T>(ms, k) ==> !text_less(k, n);
        Err(T::odr_outcome(models_named::<T>(ms, n))->Err_0)
    } else {
        Ok(
            Map::new(
                |n: Seq<char>| model_names::<T>(ms).contains(n),
                |n: Seq<char>| T::odr_outcome(models_named::<T>(ms, n))->Ok_0,
            ),
        )
    }
}

/// The models of a list of definitions with distinct names, by name.
pub open spec fn def_table<T: Definition>(v: Seq<T>) -> Map<Seq<char>, T::Model> {
    Map::new(
        |n: Seq<char>| exists|i: int| 0 <= i < v.len() && (#[trigger] v[i]).name_text() == n,
        |n: Seq<char>| v[choose|i: int| 0 <= i < v.len() && (#[trigger] v[i]).name_text() == n].model_of(),
    )
}

/// No two definitions of a list carry the same name.
pub open spec fn names_distinct<T: Definition>(v: Seq<T>) -> bool {
    forall|i: int, j: int| 0 <= i < j < v.len() ==> (#[trigger] v[i]).name_text() != (#[trigger] v[j]).name_text()
}

proof fn lemma_models_named<T: Definition>(items: Seq<T>, n: Seq<char>)
    ensures
        def_models(named_items(items, n)) == models_named::<T>(def_models(items), n),
        forall|i: int| 0 <= i < named_items(items, n).len() ==> (#[trigger] named_items(items, n)[i]).name_text() == n,
    decreases items.len(),
{
    if items.len() > 0 {
        let init = items.drop_last();
        lemma_models_named(init, n);
        assert(def_models(items).drop_last() =~= def_models(init));
        T::lemma_model_name(&items.last());
        if items.last().name_text() == n {
            assert(def_models(named_items(init, n).push(items.last())) =~= def_models(named_items(init, n)).push(
                items.last().model_of(),
            ));
        }
    } else {
        assert(def_models(named_items(items, n)) =~= Seq::<T::Model>::empty());
    }
}

proof fn lemma_model_names<T: Definition>(items: Seq<T>)
    ensures
        model_names::<T>(def_models(items)) == item_names(items),
{
    assert forall|n: Seq<char>| #[trigger] model_names::<T>(def_models(items)).contains(n) <==> item_names(items).contains(n) by {
        if model_names::<T>(def_models(items)).contains(n) {
            let i = choose|i: int| 0 <= i < def_models(items).len() && T::model_name(#[trigger] def_models(items)[i]) == n;
            T::lemma_model_name(&items[i]);
            assert(items[i].name_text() == n);
        }
        if item_names(items).contains(n) {
            let i = choose|i: int| 0 <= i < items.len() && (#[trigger] items[i]).name_text() == n;
            T::lemma_model_name(&items[i]);
            assert(T::model_name(def_models(items)[i]) == n);
        }
    }
    assert(model_names::<T>(def_models(items)) =~= item_names(items));
}

proof fn lemma_table_push<T: Definition>(v: Seq<T>, x: T)
    requires
        names_distinct(v),
        forall|i: int| 0 <= i < v.len() ==> (#[trigger] v[i]).name_text() != x.name_text(),
    ensures
        names_distinct(v.push(x)),
        def_table(v.push(x)) == def_table(v).insert(x.name_text(), x.model_of()),
{
    let w = v.push(x);
    assert forall|n: Seq<char>| #[trigger] def_table(w).contains_key(n) <==> def_table(v).insert(x.name_text(), x.model_of()).contains_key(n) by {
        if def_table(w).contains_key(n) && n != x.name_text() {
            let i = choose|i: int| 0 <= i < w.len() && (#[trigger] w[i]).name_text() == n;
            assert(v[i] == w[i]);
        }
        if def_table(v).contains_key(n) {
            let i = choose|i: int| 0 <= i < v.len() && (#[trigger] v[i]).name_text() == n;
            assert(w[i] == v[i]);
        }
        if n == x.name_text() {
            assert(w[v.len() as int] == x);
        }
    }
    assert forall|n: Seq<char>| #[trigger] def_table(w).contains_key(n) implies def_table(w)[n] == def_table(v).insert(x.name_text(), x.model_of())[n] by {
        let i = choose|i: int| 0 <= i < w.len() && (#[trigger] w[i]).name_text() == n;
        if n == x.name_text() {
            assert(i == v.len());
        } else {
            assert(i < v.len());
            let j = choose|j: int| 0 <= j < v.len() && (#[trigger] v[j]).name_text() == n;
            assert(j == i);
            assert(w[i] == v[i]);
        }
    }
    assert(def_table(w) =~= def_table(v).insert(x.name_text(), x.model_of()));
}

/// Among the first `k` groups, one holds the name `n`, on which the one
/// definition rule does not fail.
pub open spec fn settled_ok<T: Definition>(og: Seq<(Identifier, Vec<T>)>, k: int, ms: Seq<T::Model>, n: Seq<char>) -> bool {
    exists|j: int| 0 <= j < k && (#[trigger] og[j]).0.0@ == n && !odr_fails::<T>(ms, n)
}

/// `b` is the least name among the first `k` groups on which the one definition
/// rule fails.
pub open spec fn least_failing<T: Definition>(og: Seq<(Identifier, Vec<T>)>, k: int, ms: Seq<T::Model>, b: Seq<char>) -> bool {
    &&& odr_fails::<T>(ms, b)
    &&& exists|j: int| 0 <= j < k && (#[trigger] og[j]).0.0@ == b
    &&& forall|j: int| 0 <= j < k && odr_fails::<T>(ms, (#[trigger] og[j]).0.0@) ==> !text_less(og[j].0.0@, b)
}

proof fn lemma_least_keep<T: Definition>(og: Seq<(Identifier, Vec<T>)>, k: int, ms: Seq<T::Model>, b: Seq<char>)
    requires
        0 <= k < og.len(),
        least_failing::<T>(og, k, ms, b),
        odr_fails::<T>(ms, og[k].0.0@) ==> !text_less(og[k].0.0@, b),
    ensures
        least_failing::<T>(og, k + 1, ms, b),
{
    let j0 = choose|j: int| 0 <= j < k && (#[trigger] og[j]).0.0@ == b;
    assert(0 <= j0 < k + 1 && og[j0].0.0@ == b);
}

proof fn lemma_least_take<T: Definition>(
    og: Seq<(Identifier, Vec<T>)>,
    k: int,
    ms: Seq<T::Model>,
    prev: Option<Seq<char>>,
)
    requires
        0 <= k < og.len(),
        odr_fails::<T>(ms, og[k].0.0@),
        prev is None ==> forall|j: int| 0 <= j < k ==> !odr_fails::<T>(ms, (#[trigger] og[j]).0.0@),
        prev matches Some(b) ==> least_failing::<T>(og, k, ms, b) && text_less(og[k].0.0@, b),
    ensures
        least_failing::<T>(og, k + 1, ms, og[k].0.0@),
{
    let n = og[k].0.0@;
    assert(og[k].0.0@ == n);
    assert forall|j: int| 0 <= j < k + 1 && odr_fails::<T>(ms, (#[trigger] og[j]).0.0@) implies !text_less(og[j].0.0@, n) by {
        if j < k {
            let b = prev->Some_0;
            lemma_text_less(og[j].0.0@, n, b);
            lemma_text_less(n, b, og[j].0.0@);
            lemma_text_less(og[j].0.0@, b, n);
        } else {
            lemma_text_less(n, n, n);
        }
    }
}

/// Applies the one definition rule to each group of definitions (see
/// [`resolve_all`]).
#[verifier::spinoff_prover]
#[verifier::rlimit(60)]
fn resolve_groups<T: Definition>(groups: Vec<(Identifier, Vec<T>)>, Ghost(items): Ghost<Seq<T>>) -> (r: EngineResult<Vec<T>>)
    requires
        grouped(groups@, items),
        forall|g: int, j: int| 0 <= g < groups@.len() && 0 <= j < groups@[g].1@.len() ==> (#[trigger] groups@[g].1@[j]).valid(),
    ensures
        match resolve_all::<T>(def_models(items)) {
            Ok(mp) => r matches Ok(v) && names_distinct(v@) && def_table(v@) == mp && forall|i: int|
                0 <= i < v@.len() ==> (#[trigger] v@[i]).valid(),
            Err(f) => r matches Err(e) && e.failure() == f,
        },
{
    let ghost og = groups@;
    let ghost ms = def_models(items);
    let total = groups.len();
    let mut rest = groups;
    let mut out: Vec<T> = Vec::new();
    let mut best: Option<(Identifier, EngineError)> = None;
    let mut k: usize = 0;
    proof {
        lemma_model_names(items);
        assert(def_table(out@) =~= Map::<Seq<char>, T::Model>::empty());
    }
    while rest.len() > 0
        invariant
            k <= og.len(),
            og.len() == total,
            rest@ == og.subrange(k as int, og.len() as int),
            ms == def_models(items),
            grouped(og, items),
            model_names::<T>(ms) == item_names(items),
            forall|g: int, j: int| 0 <= g < og.len() && 0 <= j < og[g].1@.len() ==> (#[trigger] og[g].1@[j]).valid(),
            names_distinct(out@),
            forall|i: int| 0 <= i < out@.len() ==> (#[trigger] out@[i]).valid(),
            forall|i: int| 0 <= i < out@.len() ==> exists|j: int| 0 <= j < k && (#[trigger] out@[i]).name_text() == og[j].0.0@,
            def_table(out@) == Map::new(
                |n: Seq<char>| settled_ok::<T>(og, k as int, ms, n),
                |n: Seq<char>| T::odr_outcome(models_named::<T>(ms, n))->Ok_0,
            ),
            best is None ==> forall|j: int| 0 <= j < k ==> !odr_fails::<T>(ms, (#[trigger] og[j]).0.0@),
            best matches Some((bn, be)) ==> least_failing::<T>(og, k as int, ms, bn.0@) && T::odr_outcome(
                models_named::<T>(ms, bn.0@),
            ) == Err::<T::Model, Failure>(be.failure()),
        decreases rest@.len(),
    {
        let ghost old_rest = rest@;
        assert(k < og.len());
        let (name, entries) = rest.remove(0);
        let ghost n = name.0@;
        proof {
            assert(og[k as int] == old_rest[0]);
            assert(rest@ =~= og.subrange(k + 1, og.len() as int));
            lemma_models_named(items, n);
            assert(entries@ == named_items(items, n));
            assert(def_models(entries@) == models_named::<T>(ms, n));
            assert(entries@.map_values(|x: T| x.model_of()) =~= def_models(entries@));
            assert(item_names(items).contains(n));
            assert forall|i: int| 0 <= i < entries@.len() implies (#[trigger] entries@[i]).valid() by {
                assert(og[k as int].1@[i] == entries@[i]);
            }
        }
        let res = T::resolve(entries);
        match res {
            Ok(x) => {
                proof {
                    assert forall|i: int| 0 <= i < models_named::<T>(ms, n).len() implies T::model_name(
                        #[trigger] models_named::<T>(ms, n)[i],
                    ) == n by {
                        T::lemma_model_name(&named_items(items, n)[i]);
                    }
                    T::lemma_outcome_name(models_named::<T>(ms, n), n);
                    T::lemma_model_name(&x);
                    assert forall|i: int| 0 <= i < out@.len() implies (#[trigger] out@[i]).name_text() != x.name_text() by {
                        let j = choose|j: int| 0 <= j < k && (#[trigger] out@[i]).name_text() == og[j].0.0@;
                    }
                    lemma_table_push(out@, x);
                    assert(!odr_fails::<T>(ms, n));
                    if let Some((bn, _)) = &best {
                        lemma_least_keep::<T>(og, k as int, ms, bn.0@);
                    }
                }
                out.push(x);
                proof {
                    assert(def_table(out@) =~= Map::new(
                        |n2: Seq<char>| settled_ok::<T>(og, k + 1, ms, n2),
                        |n2: Seq<char>| T::odr_outcome(models_named::<T>(ms, n2))->Ok_0,
                    )) by {
                        assert forall|n2: Seq<char>| #[trigger] settled_ok::<T>(og, k + 1, ms, n2) <==> (
                            settled_ok::<T>(og, k as int, ms, n2) || n2 == n) by {
                            if n2 == n {
                                assert(og[k as int].0.0@ == n2);
                            }
                            if settled_ok::<T>(og, k + 1, ms, n2) && n2 != n {
                                let j = choose|j: int| 0 <= j < k + 1 && (#[trigger] og[j]).0.0@ == n2 && !odr_fails::<T>(ms, n2);
                                assert(j < k);
                            }
                        }
                    }
                    assert forall|i: int| 0 <= i < out@.len() implies exists|j: int| 0 <= j < k + 1 && (#[trigger] out@[i]).name_text() == og[j].0.0@ by {
                        if i == out@.len() - 1 {
                            assert(og[k as int].0.0@ == out@[i].name_text());
                        } else {
                            let j = choose|j: int| 0 <= j < k && (#[trigger] out@[i]).name_text() == og[j].0.0@;
                        }
                    }
                }
            },
            Err(e) => {
                let replace = match &best {
                    None => true,
                    Some((bn, _)) => crate::text::str_less(name.as_str(), bn.0.as_str()),
                };
                proof {
                    assert(odr_fails::<T>(ms, n));
                    if let Some((bn, _)) = &best {
                        if !replace {
                            lemma_least_keep::<T>(og, k as int, ms, bn.0@);
                        } else {
                            lemma_least_take::<T>(og, k as int, ms, Some(bn.0@));
                        }
                    } else {
                        lemma_least_take::<T>(og, k as int, ms, None);
                    }
                }
                if replace {
                    best = Some((name, e));
                }
            },
        }
        k = k + 1;
    }
    assert(og.subrange(k as int, og.len() as int).len() == 0);
    assert(k == og.len());
    match best {
        Some((bn, be)) => {
            proof {
                assert(exists|n: Seq<char>| odr_fails::<T>(ms, n));
                let c = choose|c: Seq<char>|
                    odr_fails::<T>(ms, c) && forall|k2: Seq<char>| odr_fails::<T>(ms, k2) ==> !text_less(k2, c);
                assert forall|k2: Seq<char>| odr_fails::<T>(ms, k2) implies !text_less(k2, bn.0@) by {
                    let j = choose|j: int| 0 <= j < og.len() && (#[trigger] og[j]).0.0@ == k2;
                    assert(0 <= j < k && odr_fails::<T>(ms, og[j].0.0@));
                }
                if c != bn.0@ {
                    lemma_text_less_total(c, bn.0@);
                }
            }
            Err(be)
        },
        None => {
            proof {
                assert forall|n: Seq<char>| !odr_fails::<T>(ms, n) by {
                    if model_names::<T>(ms).contains(n) {
                        let j = choose|j: int| 0 <= j < og.len() && (#[trigger] og[j]).0.0@ == n;
                    }
                }
                assert(def_table(out@) =~= Map::new(
                    |n: Seq<char>| model_names::<T>(ms).contains(n),
                    |n: Seq<char>| T::odr_outcome(models_named::<T>(ms, n))->Ok_0,
                )) by {
                    assert forall|n: Seq<char>| #[trigger] settled_ok::<T>(og, k as int, ms, n) <==> model_names::<T>(ms).contains(n) by {
                        if model_names::<T>(ms).contains(n) {
                            let j = choose|j: int| 0 <= j < og.len() && (#[trigger] og[j]).0.0@ == n;
                        }
                    }
                }
            }
            Ok(out)
        },
    }
}

/// An adapted representation of an LLVM module: its types, its symbols, and one
/// global variable and one function for each name, after the one definition rule.
#[derive(Debug)]
pub struct Module {
    /// type registry
    pub typing: TypeRegistry,
    /// symbol registry
    pub symbols: SymbolRegistry,
    /// global variables, one for each name
    pub globals: Vec<GlobalVariable>,
    /// functions, one for each name
    pub functions: Vec<Function>,
}

/// The mathematical model of a [`Module`].
pub struct ModuleModel {
    pub structs: Map<Seq<char>, Seq<TypeView>>,
    pub global_names: Seq<Seq<char>>,
    pub function_names: Seq<Seq<char>>,
    pub globals: Map<Seq<char>, GlobalModel>,
    pub functions: Map<Seq<char>, FunctionModel>,
}

impl Module {
    pub open spec fn model(&self) -> ModuleModel {
        ModuleModel {
            structs: self.typing.structs(),
            global_names: self.symbols.global_names(),
            function_names: self.symbols.function_names(),
            globals: def_table(self.globals@),
            functions: def_table(self.functions@),
        }
    }
}

/// The names of the first `n` named global variables, in order.
pub open spec fn global_name_list(gs: Seq<AGlobalVariable>, n: nat) -> Seq<Seq<char>>
    decreases n,
{
    if n == 0 || n > gs.len() {
        Seq::empty()
    } else {
        let init = global_name_list(gs, (n - 1) as nat);
        match gs[n - 1].name {
            Some(x) => init.push(x@),
            None => init,
        }
    }
}

/// The names of the first `n` named functions, in order.
pub open spec fn function_name_list(fs: Seq<AFunction>, n: nat) -> Seq<Seq<char>>
    decreases n,
{
    if n == 0 || n > fs.len() {
        Seq::empty()
    } else {
        let init = function_name_list(fs, (n - 1) as nat);
        match fs[n - 1].name {
            Some(x) => init.push(x@),
            None => init,
        }
    }
}

/// Converts the first `n` global variables, in order, stopping at the first failure.
pub open spec fn conv_globals(sc: Scope, gs: Seq<AGlobalVariable>, n: nat) -> Result<Seq<GlobalModel>, Failure>
    decreases n,
{
    if n == 0 || n > gs.len() {
        Ok(Seq::empty())
    } else {
        match conv_globals(sc, gs, (n - 1) as nat) {
            Err(f) => Err(f),
            Ok(prev) => match conv_global(sc, gs[n - 1]) {
                Err(f) => Err(f),
                Ok(g) => Ok(prev.push(g)),
            },
        }
    }
}

/// Converts the first `n` functions, in order, stopping at the first failure.
pub open spec fn conv_functions(sc: Scope, fs: Seq<AFunction>, n: nat) -> Result<Seq<FunctionModel>, Failure>
    decreases n,
{
    if n == 0 || n > fs.len() {
        Ok(Seq::empty())
    } else {
        match conv_functions(sc, fs, (n - 1) as nat) {
            Err(f) => Err(f),
            Ok(prev) => match conv_function(sc, fs[n - 1]) {
                Err(f) => Err(f),
                Ok(g) => Ok(prev.push(g)),
            },
        }
    }
}

/// How a module read from LLVM is converted: module-level assembly is refused;
/// the struct definitions fill the type registry; the named global variables and
/// functions fill the symbol registry; every global variable, then every
/// function, is converted; then the one definition rule merges the global
/// variables, then the functions, of each name.
pub open spec fn conv_module(m: AModule) -> Result<ModuleModel, Failure> {
    if m.asm_text@.len() > 0 {
        Err(Failure::Unsupported(Unsupported::ModuleLevelAssembly))
    } else {
        match populate_structs(struct_views(m.structs@)) {
            Err(f) => Err(f),
            Ok(defs) => {
                let gn = global_name_list(m.global_variables@, m.global_variables@.len());
                let fnames = function_name_list(m.functions@, m.functions@.len());
                let sc = Scope { structs: defs, globals: gn, functions: fnames };
                match conv_globals(sc, m.global_variables@, m.global_variables@.len()) {
                    Err(f) => Err(f),
                    Ok(gs) => match conv_functions(sc, m.functions@, m.functions@.len()) {
                        Err(f) => Err(f),
                        Ok(fs) => match resolve_all::<GlobalVariable>(gs) {
                            Err(f) => Err(f),
                            Ok(gm) => match resolve_all::<Function>(fs) {
                                Err(f) => Err(f),
                                Ok(fm) => Ok(
                                    ModuleModel {
                                        structs: defs,
                                        global_names: gn,
                                        function_names: fnames,
                                        globals: gm,
                                        functions: fm,
                                    },
                                ),
                            },
                        },
                    },
                }
            },
        }
    }
}

proof fn lemma_conv_globals_prefix(sc: Scope, gs: Seq<AGlobalVariable>, i: nat, n: nat)
    requires
        i <= n <= gs.len(),
        conv_globals(sc, gs, i) is Err,
    ensures
        conv_globals(sc, gs, n) == conv_globals(sc, gs, i),
    decreases n,
{
    if n > i {
        lemma_conv_globals_prefix(sc, gs, i, (n - 1) as nat);
    }
}

proof fn lemma_conv_functions_prefix(sc: Scope, fs: Seq<AFunction>, i: nat, n: nat)
    requires
        i <= n <= fs.len(),
        conv_functions(sc, fs, i) is Err,
    ensures
        conv_functions(sc, fs, n) == conv_functions(sc, fs, i),
    decreases n,
{
    if n > i {
        lemma_conv_functions_prefix(sc, fs, i, (n - 1) as nat);
    }
}

/// The names of the named global variables.
fn global_names_of(gs: &Vec<AGlobalVariable>) -> (r: Vec<Identifier>)
    ensures
        ident_names(r@) == global_name_list(gs@, gs@.len()),
{
    let mut out: Vec<Identifier> = Vec::new();
    let mut i: usize = 0;
    assert(ident_names(out@) =~= Seq::<Seq<char>>::empty());
    while i < gs.len()
        invariant
            i <= gs@.len(),
            ident_names(out@) == global_name_list(gs@, i as nat),
        decreases gs@.len() - i,
    {
        if let Some(n) = &gs[i].name {
            let ghost before = out@;
            out.push(Identifier::from_str(n.as_str()));
            assert(ident_names(out@) =~= ident_names(before).push(n@));
        }
        i = i + 1;
    }
    out
}

/// The names of the named functions.
fn function_names_of(fs: &Vec<AFunction>) -> (r: Vec<Identifier>)
    ensures
        ident_names(r@) == function_name_list(fs@, fs@.len()),
{
    let mut out: Vec<Identifier> = Vec::new();
    let mut i: usize = 0;
    assert(ident_names(out@) =~= Seq::<Seq<char>>::empty());
    while i < fs.len()
        invariant
            i <= fs@.len(),
            ident_names(out@) == function_name_list(fs@, i as nat),
        decreases fs@.len() - i,
    {
        if let Some(n) = &fs[i].name {
            let ghost before = out@;
            out.push(Identifier::from_str(n.as_str()));
            assert(ident_names(out@) =~= ident_names(before).push(n@));
        }
        i = i + 1;
    }
    out
}

/// Converts every global variable of a module, in order (see [`conv_globals`]).
fn convert_globals(gs: &Vec<AGlobalVariable>, typing: &TypeRegistry, symbols: &SymbolRegistry) -> (r: EngineResult<Vec<GlobalVariable>>)
    requires
        typing.wf(),
    ensures
        match conv_globals(scope_of(typing, symbols), gs@, gs@.len()) {
            Ok(ms) => r matches Ok(v) && def_models(v@) == ms,
            Err(f) => r matches Err(e) && e.failure() == f,
        },
{
    let ghost sc = scope_of(typing, symbols);
    let mut out: Vec<GlobalVariable> = Vec::new();
    let mut i: usize = 0;
    assert(def_models(out@) =~= Seq::<GlobalModel>::empty());
    while i < gs.len()
        invariant
            typing.wf(),
            sc == scope_of(typing, symbols),
            i <= gs@.len(),
            conv_globals(sc, gs@, i as nat) == Ok::<Seq<GlobalModel>, Failure>(def_models(out@)),
        decreases gs@.len() - i,
    {
        match GlobalVariable::convert(&gs[i], typing, symbols) {
            Err(e) => {
                proof {
                    lemma_conv_globals_prefix(sc, gs@, (i + 1) as nat, gs@.len());
                }
                return Err(e);
            },
            Ok(g) => {
                let ghost before = out@;
                out.push(g);
                assert(def_models(out@) =~= def_models(before).push(g.model()));
            },
        }
        i = i + 1;
    }
    Ok(out)
}

/// Converts every function of a module, in order (see [`conv_functions`]).
fn convert_functions(fs: &Vec<AFunction>, typing: &TypeRegistry, symbols: &SymbolRegistry) -> (r: EngineResult<Vec<Function>>)
    requires
        typing.wf(),
        forall|i: int| 0 <= i < fs@.len() ==> blocks_in_bounds(#[trigger] fs@[i]),
    ensures
        match conv_functions(scope_of(typing, symbols), fs@, fs@.len()) {
            Ok(ms) => r matches Ok(v) && def_models(v@) == ms && forall|i: int| 0 <= i < v@.len() ==> (#[trigger] v@[i]).valid(),
            Err(f) => r matches Err(e) && e.failure() == f,
        },
{
    let ghost sc = scope_of(typing, symbols);
    let mut out: Vec<Function> = Vec::new();
    let mut i: usize = 0;
    assert(def_models(out@) =~= Seq::<FunctionModel>::empty());
    while i < fs.len()
        invariant
            typing.wf(),
            sc == scope_of(typing, symbols),
            i <= fs@.len(),
            forall|i: int| 0 <= i < fs@.len() ==> blocks_in_bounds(#[trigger] fs@[i]),
            conv_functions(sc, fs@, i as nat) == Ok::<Seq<FunctionModel>, Failure>(def_models(out@)),
            forall|j: int| 0 <= j < out@.len() ==> (#[trigger] out@[j]).valid(),
        decreases fs@.len() - i,
    {
        assert(blocks_in_bounds(fs@[i as int]));
        match Function::convert(&fs[i], typing, symbols) {
            Err(e) => {
                proof {
                    lemma_conv_functions_prefix(sc, fs@, (i + 1) as nat, fs@.len());
                }
                return Err(e);
            },
            Ok(g) => {
                let ghost before = out@;
                out.push(g);
                assert(def_models(out@) =~= def_models(before).push(g.model()));
            },
        }
        i = i + 1;
    }
    Ok(out)
}

/// The blocks of a function fit the index type of its graph.
pub open spec fn blocks_in_bounds(f: AFunction) -> bool {
    f.blocks@.len() < u32::MAX && target_count(f.blocks@, f.blocks@.len()) < u32::MAX
}

impl Module {
    /// Converts a module read from LLVM (see [`conv_module`]).
    pub fn convert(module_adapted: &AModule) -> (r: EngineResult<Module>)
        requires
            forall|i: int| 0 <= i < module_adapted.functions@.len() ==> blocks_in_bounds(
                #[trigger] module_adapted.functions@[i],
            ),
        ensures
            match conv_module(*module_adapted) {
                Ok(m) => r matches Ok(x) && x.model() == m && x.wf(),
                Err(f) => r matches Err(e) && e.failure() == f,
            },
    {
        if !module_adapted.asm_text.as_str().is_empty() {
            return Err(EngineError::NotSupportedYet(Unsupported::ModuleLevelAssembly));
        }
        let typing = TypeRegistry::populate(&module_adapted.structs)?;
        let symbols = SymbolRegistry::new(
            global_names_of(&module_adapted.global_variables),
            function_names_of(&module_adapted.functions),
        );
        let globals = convert_globals(&module_adapted.global_variables, &typing, &symbols)?;
        let functions = convert_functions(&module_adapted.functions, &typing, &symbols)?;
        let ghost gl = globals@;
        let ghost fl = functions@;
        let global_groups = group_by_name(globals);
        let functions_groups = group_by_name(functions);
        let globals_kept = resolve_groups(global_groups, Ghost(gl))?;
        let functions_kept = resolve_groups(functions_groups, Ghost(fl))?;
        Ok(Module { typing, symbols, globals: globals_kept, functions: functions_kept })
    }
}

/// A definition of a list with distinct names is what the table holds under its name.
proof fn lemma_table_at<T: Definition>(v: Seq<T>, i: int)
    requires
        names_distinct(v),
        0 <= i < v.len(),
    ensures
        def_table(v).contains_key(v[i].name_text()),
        def_table(v)[v[i].name_text()] == v[i].model_of(),
{
    let n = v[i].name_text();
    assert(def_table(v).contains_key(n));
    let j = choose|j: int| 0 <= j < v.len() && (#[trigger] v[j]).name_text() == n;
    if j != i {
        if j < i {
            assert(v[j].name_text() != v[i].name_text());
        } else {
            assert(v[i].name_text() != v[j].name_text());
        }
    }
}

/// The position of the definition named `name`, if any.
fn find_def<T: Definition>(v: &Vec<T>, name: &Identifier) -> (r: Option<usize>)
    ensures
        match r {
            Some(i) => i < v@.len() && v@[i as int].name_text() == name.0@,
            None => forall|i: int| 0 <= i < v@.len() ==> (#[trigger] v@[i]).name_text() != name.0@,
        },
{
    let mut i: usize = 0;
    while i < v.len()
        invariant
            i <= v@.len(),
            forall|j: int| 0 <= j < i ==> (#[trigger] v@[j]).name_text() != name.0@,
        decreases v@.len() - i,
    {
        if v[i].name_ref().same_name(name) {
            return Some(i);
        }
        i = i + 1;
    }
    None
}

/// Every name of table `a` is in table `b`, and, where `compare` holds, with a
/// definition that counts as the same.
pub open spec fn table_within<T: Definition>(a: Map<Seq<char>, T::Model>, b: Map<Seq<char>, T::Model>, compare: bool) -> bool {
    forall|n: Seq<char>| #[trigger] a.contains_key(n) ==> b.contains_key(n) && (compare ==> T::models_match(a[n], b[n]))
}

/// Whether the names of `a` are in `b` (see [`table_within`]).
fn tables_within<T: Definition>(a: &Vec<T>, b: &Vec<T>, compare: bool) -> (r: bool)
    requires
        names_distinct(a@),
        names_distinct(b@),
        forall|i: int| 0 <= i < a@.len() ==> (#[trigger] a@[i]).valid(),
        forall|i: int| 0 <= i < b@.len() ==> (#[trigger] b@[i]).valid(),
    ensures
        r == table_within::<T>(def_table(a@), def_table(b@), compare),
{
    let mut i: usize = 0;
    while i < a.len()
        invariant
            i <= a@.len(),
            names_distinct(a@),
            names_distinct(b@),
            forall|i: int| 0 <= i < a@.len() ==> (#[trigger] a@[i]).valid(),
            forall|i: int| 0 <= i < b@.len() ==> (#[trigger] b@[i]).valid(),
            forall|j: int| 0 <= j < i ==> def_table(b@).contains_key(#[trigger] a@[j].name_text()) && (compare
                ==> T::models_match(def_table(a@)[a@[j].name_text()], def_table(b@)[a@[j].name_text()])),
        decreases a@.len() - i,
    {
        let ghost n = a@[i as int].name_text();
        proof {
            lemma_table_at(a@, i as int);
        }
        match find_def(b, a[i].name_ref()) {
            None => {
                proof {
                    assert(!def_table(b@).contains_key(n)) by {
                        if def_table(b@).contains_key(n) {
                            let j = choose|j: int| 0 <= j < b@.len() && (#[trigger] b@[j]).name_text() == n;
                        }
                    }
                }
                return false;
            },
            Some(j) => {
                proof {
                    lemma_table_at(b@, j as int);
                }
                if compare && !a[i].same_def(&b[j]) {
                    return false;
                }
            },
        }
        i = i + 1;
    }
    proof {
        assert forall|n: Seq<char>| #[trigger] def_table(a@).contains_key(n) implies def_table(b@).contains_key(n) && (compare
            ==> T::models_match(def_table(a@)[n], def_table(b@)[n])) by {
            let j = choose|j: int| 0 <= j < a@.len() && (#[trigger] a@[j]).name_text() == n;
        }
    }
    true
}

/// Two tables hold the same names, with definitions that count as the same.
pub open spec fn tables_match<T: Definition>(a: Map<Seq<char>, T::Model>, b: Map<Seq<char>, T::Model>) -> bool {
    table_within::<T>(a, b, true) && table_within::<T>(b, a, false)
}

/// Whether two modules are the same: the same structs, the same names, equal
/// global variables and functions that count as the same under each name.
pub open spec fn modules_match(a: ModuleModel, b: ModuleModel) -> bool {
    &&& a.structs == b.structs
    &&& a.global_names.to_set() == b.global_names.to_set()
    &&& a.function_names.to_set() == b.function_names.to_set()
    &&& tables_match::<GlobalVariable>(a.globals, b.globals)
    &&& tables_match::<Function>(a.functions, b.functions)
}

impl Module {
    /// The registries are well formed, each name has one definition, and every
    /// function body is a well-formed graph.
    pub open spec fn wf(&self) -> bool {
        &&& self.typing.wf()
        &&& names_distinct(self.globals@)
        &&& names_distinct(self.functions@)
        &&& forall|i: int| 0 <= i < self.functions@.len() ==> (#[trigger] self.functions@[i]).valid()
    }

    /// Whether two modules are the same (see [`modules_match`]).
    pub fn same_as(&self, other: &Module) -> (r: bool)
        requires
            self.wf(),
            other.wf(),
        ensures
            r == modules_match(self.model(), other.model()),
    {
        self.typing.same_as(&other.typing) && self.symbols.same_as(&other.symbols) && tables_within(
            &self.globals,
            &other.globals,
            true,
        ) && tables_within(&other.globals, &self.globals, false) && tables_within(&self.functions, &other.functions, true)
            && tables_within(&other.functions, &self.functions, false)
    }
}

/// The number of successors that the terminator of a block names, or the
/// greatest `usize` where the number does not fit.
fn terminator_targets(t: &AInst) -> (r: usize)
    ensures
        r as nat == named_targets(*t) || (r == usize::MAX && named_targets(*t) >= usize::MAX),
{
    match t {
        AInst::Branch { targets, .. } => targets.len(),
        AInst::Switch { cases, default, .. } => {
            if cases.len() == usize::MAX {
                return usize::MAX;
            }
            cases.len() + if default.is_some() {
                1
            } else {
                0
            }
        },
        _ => 0,
    }
}

/// Whether the blocks of every function of a module fit the index type of the
/// graphs that [`Module::convert`] builds (see [`blocks_in_bounds`]).
pub fn fits_graph_index(module_adapted: &AModule) -> (r: bool)
    ensures
        r == forall|i: int| 0 <= i < module_adapted.functions@.len() ==> blocks_in_bounds(
            #[trigger] module_adapted.functions@[i],
        ),
{
    let fs = &module_adapted.functions;
    let mut i: usize = 0;
    while i < fs.len()
        invariant
            i <= fs@.len(),
            fs == &module_adapted.functions,
            forall|j: int| 0 <= j < i ==> blocks_in_bounds(#[trigger] fs@[j]),
        decreases fs@.len() - i,
    {
        let bs = &fs[i].blocks;
        if bs.len() >= 4294967295 {
            assert(!blocks_in_bounds(fs@[i as int]));
            return false;
        }
        let mut count: u64 = 0;
        let mut k: usize = 0;
        while k < bs.len()
            invariant
                k <= bs@.len(),
                i < fs@.len(),
                fs == &module_adapted.functions,
                bs@ == fs@[i as int].blocks@,
                bs@.len() < u32::MAX,
                count as nat == target_count(bs@, k as nat),
                count < u32::MAX,
            decreases bs@.len() - k,
        {
            let t = terminator_targets(&bs[k].terminator.repr);
            if t as u64 >= 4294967295 - count {
                proof {
                    assert(target_count(bs@, (k + 1) as nat) == target_count(bs@, k as nat) + named_targets(
                        bs@[k as int].terminator.repr,
                    ));
                    lemma_target_count_grows(bs@, (k + 1) as nat, bs@.len());
                    assert(!blocks_in_bounds(fs@[i as int]));
                }
                return false;
            }
            count = count + t as u64;
            k = k + 1;
        }
        assert(blocks_in_bounds(fs@[i as int]));
        i = i + 1;
    }
    true
}

/// Counting more blocks counts no fewer targets.
proof fn lemma_target_count_grows(bs: Seq<ABlock>, i: nat, n: nat)
    requires
        i <= n <= bs.len(),
    ensures
        target_count(bs, i) <= target_count(bs, n),
    decreases n,
{
    if n > i {
        lemma_target_count_grows(bs, i, (n - 1) as nat);
    }
}

} // verus!
