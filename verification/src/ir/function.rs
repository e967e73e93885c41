use vstd::prelude::*;

use crate::error::{EngineError, EngineResult, Failure};
use crate::ir::adapter;
use crate::ir::adapter::typing::{Type as AdaptedType, TypeView};
use crate::ir::cfg::ControlFlowGraph;
use crate::ir::shared::Identifier;
use crate::ir::typing::{convert_type, type_text, Type, TypeModel, TypeRegistry};
use crate::text::concat;

verus! {

/// An adapted representation of an LLVM function parameter
#[derive(Debug)]
pub struct Parameter {
    /// name
    pub name: Option<Identifier>,
    /// declared type
    pub ty: Type,
    /// element annotation
    pub annotated_pointee_type: Option<Type>,
}

/// An adapted representation of an LLVM function
#[derive(Debug)]
pub struct Function {
    /// function name
    pub name: Identifier,
    /// parameter definitions
    pub params: Vec<Parameter>,
    /// has variadic args
    pub variadic: bool,
    /// return type
    pub ret: Option<Type>,
    /// one-definition rule (ODR)
    pub is_weak: bool,
    /// body of the function (in terms of a CFG)
    pub body: Option<ControlFlowGraph>,
}

/// The model of an optional type.
pub open spec fn opt_type_model(t: Option<Type>) -> Option<TypeModel> {
    match t {
        Some(x) => Some(x.model()),
        None => None,
    }
}

/// The model of an optional type read from a module.
pub open spec fn opt_type_view(t: Option<AdaptedType>) -> Option<TypeView> {
    match t {
        Some(x) => Some(x@),
        None => None,
    }
}

/// The model of a converted parameter: its name, its type and the pointee type
/// that its attributes annotate, if any.
pub struct ParameterModel {
    pub name: Option<Seq<char>>,
    pub ty: TypeModel,
    pub annotated: Option<TypeModel>,
}

/// One attribute of a parameter, applied to the pointee annotation found so far:
/// only a pointer may carry one, and all that are given must agree.
pub open spec fn annotate(
    current: Option<TypeModel>,
    expected: TypeModel,
    ann: Option<TypeView>,
    tag: Seq<char>,
    defs: Map<Seq<char>, Seq<TypeView>>,
) -> Result<Option<TypeModel>, Failure> {
    match ann {
        None => Ok(current),
        Some(a) => if !(expected is Pointer) {
            Err(Failure::Assumption("only pointer parameters can have attribute "@ + tag))
        } else {
            match convert_type(a, defs) {
                Err(e) => Err(e),
                Ok(c) => match current {
                    None => Ok(Some(c)),
                    Some(x) => if x != c {
                        Err(
                            Failure::Assumption(
                                "attribute "@ + tag + " does not match with existing annotation"@,
                            ),
                        )
                    } else {
                        Ok(current)
                    },
                },
            }
        },
    }
}

/// [`annotate`] after an earlier step, unless that one failed.
pub open spec fn annotate_after(
    prev: Result<Option<TypeModel>, Failure>,
    expected: TypeModel,
    ann: Option<AdaptedType>,
    tag: Seq<char>,
    defs: Map<Seq<char>, Seq<TypeView>>,
) -> Result<Option<TypeModel>, Failure> {
    match prev {
        Err(e) => Err(e),
        Ok(c) => annotate(c, expected, opt_type_view(ann), tag, defs),
    }
}

/// The pointee annotation of a parameter, from its attributes in order: by-val,
/// by-ref, pre-allocated, struct-ret, in-alloca, element type.
pub open spec fn annotations(
    p: adapter::function::Parameter,
    expected: TypeModel,
    defs: Map<Seq<char>, Seq<TypeView>>,
) -> Result<Option<TypeModel>, Failure> {
    let s1 = annotate_after(Ok(None), expected, p.by_val, "by-val"@, defs);
    let s2 = annotate_after(s1, expected, p.by_ref, "by-ref"@, defs);
    let s3 = annotate_after(s2, expected, p.pre_allocated, "pre-allocated"@, defs);
    let s4 = annotate_after(s3, expected, p.struct_ret, "struct-ret"@, defs);
    let s5 = annotate_after(s4, expected, p.in_alloca, "in-alloca"@, defs);
    annotate_after(s5, expected, p.element_type, "element-type"@, defs)
}

/// How a parameter read from a module is converted, given the type that the
/// function's type gives it.
pub open spec fn convert_parameter(
    p: adapter::function::Parameter,
    expected: TypeModel,
    defs: Map<Seq<char>, Seq<TypeView>>,
) -> Result<ParameterModel, Failure> {
    match convert_type(p.ty@, defs) {
        Err(e) => Err(e),
        Ok(t) => if t != expected {
            Err(
                Failure::Assumption(
                    "parameter type mismatch: expect "@ + type_text(expected) + ", actual "@
                        + type_text(t),
                ),
            )
        } else {
            match annotations(p, expected, defs) {
                Err(e) => Err(e),
                Ok(a) => Ok(
                    ParameterModel {
                        name: match p.name {
                            Some(n) => Some(n@),
                            None => None,
                        },
                        ty: t,
                        annotated: a,
                    },
                ),
            }
        },
    }
}

impl Parameter {
    pub open spec fn model(&self) -> ParameterModel {
        ParameterModel {
            name: match self.name {
                Some(n) => Some(n.0@),
                None => None,
            },
            ty: self.ty.model(),
            annotated: opt_type_model(self.annotated_pointee_type),
        }
    }

    /// Applies one attribute of a parameter to the annotation found so far (see [`annotate`]).
    fn set_or_check_annotated_type(
        current: &mut Option<Type>,
        expected_ty: &Type,
        typing: &TypeRegistry,
        ty: Option<&AdaptedType>,
        tag: &str,
    ) -> (r: EngineResult<()>)
        requires
            typing.wf(),
        ensures
            match annotate(
                opt_type_model(*old(current)),
                expected_ty.model(),
                match ty {
                    Some(t) => Some(t@),
                    None => None,
                },
                tag@,
                typing.structs(),
            ) {
                Ok(c) => r is Ok && opt_type_model(*final(current)) == c,
                Err(f) => r matches Err(e) && e.failure() == f,
            },
    {
        match ty {
            None => {},
            Some(annotated) => {
                if !matches!(expected_ty, Type::Pointer) {
                    return Err(
                        EngineError::invalid_assumption(
                            "only pointer parameters can have attribute ",
                            tag,
                        ),
                    );
                }
                let converted = match typing.convert(annotated) {
                    Err(e) => {
                        return Err(e);
                    },
                    Ok(c) => c,
                };
                match current {
                    None => {
                        *current = Some(converted);
                    },
                    Some(existing) => {
                        if !existing.same_as(&converted) {
                            let mut msg = concat("attribute ", tag);
                            msg.append(" does not match with existing annotation");
                            return Err(EngineError::InvalidAssumption(msg));
                        }
                    },
                }
            },
        }
        Ok(())
    }

    /// Converts a parameter read from a module, checking it against the type that
    /// the function's type gives it (see [`convert_parameter`]).
    pub fn convert(param: &adapter::function::Parameter, expected_ty: &Type, typing: &TypeRegistry) -> (r:
        EngineResult<Self>)
        requires
            typing.wf(),
        ensures
            match convert_parameter(*param, expected_ty.model(), typing.structs()) {
                Ok(m) => r matches Ok(p) && p.model() == m,
                Err(f) => r matches Err(e) && e.failure() == f,
            },
    {
        let param_ty_new = match typing.convert(&param.ty) {
            Err(e) => {
                return Err(e);
            },
            Ok(t) => t,
        };
        if !param_ty_new.same_as(expected_ty) {
            let mut msg = concat("parameter type mismatch: expect ", expected_ty.describe().as_str());
            msg.append(", actual ");
            msg.append(param_ty_new.describe().as_str());
            return Err(EngineError::InvalidAssumption(msg));
        }
        let mut annotated: Option<Type> = None;
        match Self::set_or_check_annotated_type(
            &mut annotated,
            expected_ty,
            typing,
            param.by_val.as_ref(),
            "by-val",
        ) {
            Err(e) => {
                return Err(e);
            },
            Ok(_) => {},
        }
        match Self::set_or_check_annotated_type(
            &mut annotated,
            expected_ty,
            typing,
            param.by_ref.as_ref(),
            "by-ref",
        ) {
            Err(e) => {
                return Err(e);
            },
            Ok(_) => {},
        }
        match Self::set_or_check_annotated_type(
            &mut annotated,
            expected_ty,
            typing,
            param.pre_allocated.as_ref(),
            "pre-allocated",
        ) {
            Err(e) => {
                return Err(e);
            },
            Ok(_) => {},
        }
        match Self::set_or_check_annotated_type(
            &mut annotated,
            expected_ty,
            typing,
            param.struct_ret.as_ref(),
            "struct-ret",
        ) {
            Err(e) => {
                return Err(e);
            },
            Ok(_) => {},
        }
        match Self::set_or_check_annotated_type(
            &mut annotated,
            expected_ty,
            typing,
            param.in_alloca.as_ref(),
            "in-alloca",
        ) {
            Err(e) => {
                return Err(e);
            },
            Ok(_) => {},
        }
        match Self::set_or_check_annotated_type(
            &mut annotated,
            expected_ty,
            typing,
            param.element_type.as_ref(),
            "element-type",
        ) {
            Err(e) => {
                return Err(e);
            },
            Ok(_) => {},
        }
        let name = match &param.name {
            Some(n) => Some(Identifier(n.clone())),
            None => None,
        };
        Ok(Parameter { name, ty: param_ty_new, annotated_pointee_type: annotated })
    }
}

} // verus!
