use vstd::prelude::*;

use crate::error::{EngineError, EngineResult, Failure, Unsupported};
use crate::ir::adapter::global::GlobalVariable as AGlobalVariable;
use crate::ir::constant::Constant;
use crate::ir::context::{const_outcome, scope_of, SymbolRegistry};
use crate::ir::conversion::{conv_const, conv_ty};
use crate::ir::model::ConstModel;
use crate::ir::shared::Identifier;
use crate::ir::typing::{Type, TypeModel, TypeRegistry};
use crate::text::concat;

verus! {

/// An adapted representation of an LLVM global variable
#[derive(Debug)]
pub struct GlobalVariable {
    /// variable name
    pub name: Identifier,
    /// variable type
    pub ty: Type,
    /// one-definition rule (ODR)
    pub is_weak: bool,
    /// mutability
    pub is_constant: bool,
    /// initializer
    pub initializer: Option<Constant>,
}

/// The mathematical model of a [`GlobalVariable`].
pub struct GlobalModel {
    pub name: Seq<char>,
    pub ty: TypeModel,
    pub is_weak: bool,
    pub is_constant: bool,
    pub initializer: Option<ConstModel>,
}

impl GlobalVariable {
    pub open spec fn model(&self) -> GlobalModel {
        GlobalModel {
            name: self.name.0@,
            ty: self.ty.model(),
            is_weak: self.is_weak,
            is_constant: self.is_constant,
            initializer: match self.initializer {
                Some(c) => Some(c.model()),
                None => None,
            },
        }
    }
}

/// How a global variable read from a module is converted: thread-local ones,
/// ones in another address space and anonymous ones are refused; a defined one
/// must have an initializer, of its own type, and a declared one must not.
pub open spec fn conv_global(
    sc: crate::ir::conversion::Scope,
    g: AGlobalVariable,
) -> Result<GlobalModel, Failure> {
    if g.is_thread_local {
        Err(Failure::Unsupported(Unsupported::ThreadLocalStorage))
    } else if g.address_space != 0 {
        Err(Failure::Unsupported(Unsupported::PointerAddressSpace))
    } else {
        match g.name {
            None => Err(Failure::Unsupported(Unsupported::AnonymousGlobalVariable)),
            Some(n) => match conv_ty(sc, g.ty@) {
                Err(f) => Err(f),
                Ok(t) => match g.initializer {
                    None => if g.is_defined {
                        Err(Failure::Assumption("defined global must have an initializer: "@ + n@))
                    } else {
                        Ok(GlobalModel { name: n@, ty: t, is_weak: !g.is_exact, is_constant: g.is_const, initializer: None })
                    },
                    Some(c) => if !g.is_defined {
                        Err(Failure::Assumption("initializer found for an undefined global: "@ + n@))
                    } else {
                        match conv_const(sc, c, t) {
                            Err(f) => Err(f),
                            Ok(m) => Ok(
                                GlobalModel { name: n@, ty: t, is_weak: !g.is_exact, is_constant: g.is_const, initializer: Some(m) },
                            ),
                        }
                    },
                },
            },
        }
    }
}

/// The entries of a list that are strong (not weak) definitions.
pub open spec fn strong_entries(es: Seq<GlobalModel>) -> Seq<GlobalModel> {
    es.filter(|g: GlobalModel| !g.is_weak)
}

/// The entries of a list that are weak definitions.
pub open spec fn weak_entries(es: Seq<GlobalModel>) -> Seq<GlobalModel> {
    es.filter(|g: GlobalModel| g.is_weak)
}

proof fn lemma_entries_push(s: Seq<GlobalModel>, e: GlobalModel)
    ensures
        strong_entries(s.push(e)) == (if e.is_weak {
            strong_entries(s)
        } else {
            strong_entries(s).push(e)
        }),
        weak_entries(s.push(e)) == (if e.is_weak {
            weak_entries(s).push(e)
        } else {
            weak_entries(s)
        }),
{
    s.lemma_filter_push(e, |g: GlobalModel| !g.is_weak);
    s.lemma_filter_push(e, |g: GlobalModel| g.is_weak);
}

/// The one definition rule on the entries of one name: a single strong
/// definition wins; two are refused; else all weak ones must be the same.
pub open spec fn odr_global(es: Seq<GlobalModel>) -> Result<GlobalModel, Failure> {
    let strong = strong_entries(es);
    if strong.len() >= 2 {
        Err(Failure::Assumption("no duplicated global variable: "@ + strong[1].name))
    } else if strong.len() == 1 {
        Ok(strong[0])
    } else if es.len() == 0 {
        Err(Failure::Invariant("no entries for ODR"@))
    } else if exists|j: int| 0 < j < es.len() && #[trigger] es[j] != es[0] {
        Err(Failure::Unsupported(Unsupported::WeakGlobalVariable))
    } else {
        Ok(es[0])
    }
}

/// The models of a list of global variables.
pub open spec fn global_models(v: Seq<GlobalVariable>) -> Seq<GlobalModel> {
    v.map_values(|g: GlobalVariable| g.model())
}

/// Whether two global variables have equal models.
pub(crate) fn same_global(a: &GlobalVariable, b: &GlobalVariable) -> (r: bool)
    ensures
        r == (a.model() == b.model()),
{
    let inits = match (&a.initializer, &b.initializer) {
        (Some(x), Some(y)) => x.same_as(y),
        (None, None) => true,
        _ => false,
    };
    a.name.same_name(&b.name) && a.ty.same_as(&b.ty) && a.is_weak == b.is_weak && a.is_constant == b.is_constant
        && inits
}

impl GlobalVariable {
    /// Converts a global variable read from a module (see [`conv_global`]).
    pub fn convert(gvar: &AGlobalVariable, typing: &TypeRegistry, symbols: &SymbolRegistry) -> (r: EngineResult<Self>)
        requires
            typing.wf(),
        ensures
            match conv_global(scope_of(typing, symbols), *gvar) {
                Ok(m) => r matches Ok(g) && g.model() == m,
                Err(f) => r matches Err(e) && e.failure() == f,
            },
    {
        if gvar.is_thread_local {
            return Err(EngineError::NotSupportedYet(Unsupported::ThreadLocalStorage));
        }
        if gvar.address_space != 0 {
            return Err(EngineError::NotSupportedYet(Unsupported::PointerAddressSpace));
        }
        let name = match &gvar.name {
            None => {
                return Err(EngineError::NotSupportedYet(Unsupported::AnonymousGlobalVariable));
            },
            Some(n) => n,
        };
        let gvar_ty = typing.convert(&gvar.ty)?;
        let gvar_init = match &gvar.initializer {
            None => {
                if gvar.is_defined {
                    return Err(EngineError::InvalidAssumption(
                        concat("defined global must have an initializer: ", name.as_str()),
                    ));
                }
                None
            },
            Some(constant) => {
                if !gvar.is_defined {
                    return Err(EngineError::InvalidAssumption(
                        concat("initializer found for an undefined global: ", name.as_str()),
                    ));
                }
                let r = Constant::convert(constant, &gvar_ty, typing, symbols);
                assert(const_outcome(r, conv_const(scope_of(typing, symbols), *constant, gvar_ty.model())));
                Some(r?)
            },
        };
        Ok(
            GlobalVariable {
                name: Identifier::from_str(name.as_str()),
                ty: gvar_ty,
                is_weak: !gvar.is_exact,
                is_constant: gvar.is_const,
                initializer: gvar_init,
            },
        )
    }

    /// Applies the one definition rule to the entries of one name (see [`odr_global`]).
    pub fn apply_odr(entries: Vec<Self>) -> (r: EngineResult<Self>)
        ensures
            match odr_global(global_models(entries@)) {
                Ok(m) => r matches Ok(g) && g.model() == m,
                Err(f) => r matches Err(e) && e.failure() == f,
            },
    {
        let ghost ms = global_models(entries@);
        let mut def: Option<Self> = None;
        let mut weak_defs: Vec<Self> = Vec::new();
        let mut rest = entries;
        let mut k: usize = 0;
        let count = rest.len();
        while rest.len() > 0
            invariant
                ms == global_models(entries@),
                k + rest@.len() == ms.len(),
                ms.len() == count,
                global_models(rest@) == ms.subrange(k as int, ms.len() as int),
                strong_entries(ms.take(k as int)).len() <= 1,
                match def {
                    Some(d) => strong_entries(ms.take(k as int)) == seq![d.model()],
                    None => strong_entries(ms.take(k as int)).len() == 0,
                },
                global_models(weak_defs@) == weak_entries(ms.take(k as int)),
            decreases rest@.len(),
        {
            let ghost old_rest = rest@;
            assert(global_models(old_rest)[0] == ms.subrange(k as int, ms.len() as int)[0]);
            let entry = rest.remove(0);
            let ghost em = entry.model();
            assert(em == ms[k as int]);
            assert(rest@ =~= old_rest.drop_first());
            proof {
                assert(ms.take(k + 1) =~= ms.take(k as int).push(em));
                lemma_entries_push(ms.take(k as int), em);
            }
            if entry.is_weak {
                let ghost before = weak_defs@;
                weak_defs.push(entry);
                assert(global_models(weak_defs@) =~= global_models(before).push(em));
            } else {
                if def.is_some() {
                    proof {
                        let s2 = strong_entries(ms.take(k + 1));
                        assert(s2.len() == 2 && s2[1] == em);
                        assert(ms.take(k + 1).len() <= ms.len());
                        lemma_strong_prefix(ms, (k + 1) as int);
                    }
                    return Err(EngineError::InvalidAssumption(concat("no duplicated global variable: ", entry.name.as_str())));
                }
                def = Some(entry);
            }
            k = k + 1;
            assert forall|x: int| 0 <= x < rest@.len() implies #[trigger] global_models(rest@)[x] == ms.subrange(
                k as int,
                ms.len() as int,
            )[x] by {
                assert(global_models(rest@)[x] == global_models(old_rest)[x + 1]);
            }
            assert(global_models(rest@) =~= ms.subrange(k as int, ms.len() as int));
        }
        assert(ms.take(ms.len() as int) =~= ms);
        if let Some(v) = def {
            return Ok(v);
        }
        assert(strong_entries(ms).len() == 0);
        proof {
            lemma_all_weak(ms);
        }
        assert(global_models(weak_defs@) == ms);
        let mut iter = weak_defs;
        if iter.len() == 0 {
            return Err(EngineError::InvariantViolation("no entries for ODR".to_owned()));
        }
        let ghost old_iter = iter@;
        let val = iter.remove(0);
        assert(val.model() == ms[0]);
        assert(iter@ =~= old_iter.drop_first());
        assert(global_models(iter@) =~= ms.drop_first());
        let mut j: usize = 0;
        while j < iter.len()
            invariant
                ms == global_models(entries@),
                ms.len() > 0,
                strong_entries(ms).len() == 0,
                global_models(iter@) == ms.drop_first(),
                ms.len() == iter@.len() + 1,
                val.model() == ms[0],
                j <= iter@.len(),
                forall|x: int| 0 < x <= j ==> #[trigger] ms[x] == ms[0],
            decreases iter@.len() - j,
        {
            assert(ms[j + 1] == global_models(iter@)[j as int]);
            if !same_global(&iter[j], &val) {
                assert(ms[j + 1] != ms[0]);
                assert(0 < j + 1 < ms.len());
                return Err(EngineError::NotSupportedYet(Unsupported::WeakGlobalVariable));
            }
            j = j + 1;
        }
        Ok(val)
    }
}

/// Once two strong definitions are met, there are at least two in all, and the
/// second is the same.
proof fn lemma_strong_prefix(ms: Seq<GlobalModel>, n: int)
    requires
        0 <= n <= ms.len(),
        strong_entries(ms.take(n)).len() >= 2,
    ensures
        strong_entries(ms).len() >= 2,
        strong_entries(ms)[1] == strong_entries(ms.take(n))[1],
    decreases ms.len() - n,
{
    if n < ms.len() {
        assert(ms.take(n + 1) =~= ms.take(n).push(ms[n]));
        lemma_entries_push(ms.take(n), ms[n]);
        assert(strong_entries(ms.take(n + 1)).len() >= 2);
        assert(strong_entries(ms.take(n + 1))[1] == strong_entries(ms.take(n))[1]);
        lemma_strong_prefix(ms, n + 1);
    } else {
        assert(ms.take(n) =~= ms);
    }
}

/// With no strong definition, every entry is weak.
proof fn lemma_all_weak(ms: Seq<GlobalModel>)
    requires
        strong_entries(ms).len() == 0,
    ensures
        weak_entries(ms) == ms,
    decreases ms.len(),
{
    if ms.len() == 0 {
        assert(weak_entries(ms) =~= ms) by {
            reveal(Seq::filter);
        }
    } else {
        let init = ms.drop_last();
        assert(init.push(ms.last()) =~= ms);
        lemma_entries_push(init, ms.last());
        lemma_all_weak(init);
    }
}

} // verus!
