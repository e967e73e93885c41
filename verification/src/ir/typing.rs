use vstd::prelude::*;

use crate::error::{EngineError, EngineResult, Failure, Unsupported};
use crate::ir::adapter::typing::{
    lemma_list_view, list_view, same_types, views, Type as AdaptedType, TypeView,
    UserDefinedStruct,
};
use crate::ir::shared::Identifier;
use crate::text::{
    concat, decimal_text, decimal_usize, join_sep, join_strings, lemma_text_less,
    lemma_text_less_total, str_eq, str_less, text_less, texts,
};

verus! {

/// The underlying representation of the bitvec
#[derive(Debug, Clone, Copy, PartialEq, Eq, Structural)]
pub enum NumRepr {
    Int,
    Float,
}

/// The name of a number representation.
pub open spec fn num_text(n: NumRepr) -> Seq<char> {
    match n {
        NumRepr::Int => "int"@,
        NumRepr::Float => "float"@,
    }
}

impl NumRepr {
    /// The name of the representation, as shown to users.
    pub fn describe(&self) -> (r: &'static str)
        ensures
            r@ == num_text(*self),
    {
        match self {
            NumRepr::Int => "int",
            NumRepr::Float => "float",
        }
    }
}

/// A plain representation of an LLVM type
#[derive(Debug)]
pub enum TypeToken {
    Void,
    Bitvec { width: usize, number: NumRepr, length: Option<usize> },
    Array { element: Box<TypeToken>, length: usize },
    Struct { name: Option<Identifier>, fields: Vec<TypeToken> },
    Function { params: Vec<TypeToken>, variadic: bool, ret: Box<TypeToken> },
    Pointer,
}

/// The mathematical model of a [`TypeToken`].
pub enum TokenModel {
    Void,
    Bitvec { width: usize, number: NumRepr, length: Option<usize> },
    Array { element: Box<TokenModel>, length: usize },
    Struct { name: Option<Seq<char>>, fields: Seq<TokenModel> },
    Function { params: Seq<TokenModel>, variadic: bool, ret: Box<TokenModel> },
    Pointer,
}

/// The models of a list of tokens.
pub open spec fn token_models(v: Seq<TypeToken>) -> Seq<TokenModel>
    decreases v,
{
    Seq::new(v.len(), |i: int| if 0 <= i < v.len() { v[i].model() } else { TokenModel::Void })
}

/// The model of an optional name.
pub open spec fn name_model(n: Option<Identifier>) -> Option<Seq<char>> {
    match n {
        Some(x) => Some(x.0@),
        None => None,
    }
}

impl TypeToken {
    pub open spec fn model(&self) -> TokenModel
        decreases self,
    {
        match self {
            TypeToken::Void => TokenModel::Void,
            TypeToken::Bitvec { width, number, length } => TokenModel::Bitvec {
                width: *width,
                number: *number,
                length: *length,
            },
            TypeToken::Array { element, length } => TokenModel::Array {
                element: Box::new(element.model()),
                length: *length,
            },
            TypeToken::Struct { name, fields } => TokenModel::Struct {
                name: name_model(*name),
                fields: token_models(fields@),
            },
            TypeToken::Function { params, variadic, ret } => TokenModel::Function {
                params: token_models(params@),
                variadic: *variadic,
                ret: Box::new(ret.model()),
            },
            TypeToken::Pointer => TokenModel::Pointer,
        }
    }
}

/// An adapted representation of LLVM typing system
#[derive(Debug)]
pub enum Type {
    /// Bitvec
    Bitvec { bits: usize, number: NumRepr, length: Option<usize> },
    /// An array with elements being the same type
    Array { element: Box<Type>, length: usize },
    /// A struct type, named or anonymous
    Struct { name: Option<Identifier>, fields: Vec<Type> },
    /// A function type
    Function { params: Vec<Type>, variadic: bool, ret: Option<Box<Type>> },
    /// An opaque pointer (i.e., any pointee type is valid)
    Pointer,
}

/// The mathematical model of a [`Type`]: names as character sequences, lists as sequences.
pub enum TypeModel {
    Bitvec { bits: usize, number: NumRepr, length: Option<usize> },
    Array { element: Box<TypeModel>, length: usize },
    Struct { name: Option<Seq<char>>, fields: Seq<TypeModel> },
    Function { params: Seq<TypeModel>, variadic: bool, ret: Option<Box<TypeModel>> },
    Pointer,
}

/// The models of a list of types.
pub open spec fn type_models(v: Seq<Type>) -> Seq<TypeModel>
    decreases v,
{
    Seq::new(v.len(), |i: int| if 0 <= i < v.len() { v[i].model() } else { TypeModel::Pointer })
}

impl Type {
    pub open spec fn model(&self) -> TypeModel
        decreases self,
    {
        match self {
            Type::Bitvec { bits, number, length } => TypeModel::Bitvec {
                bits: *bits,
                number: *number,
                length: *length,
            },
            Type::Array { element, length } => TypeModel::Array {
                element: Box::new(element.model()),
                length: *length,
            },
            Type::Struct { name, fields } => TypeModel::Struct {
                name: name_model(*name),
                fields: type_models(fields@),
            },
            Type::Function { params, variadic, ret } => TypeModel::Function {
                params: type_models(params@),
                variadic: *variadic,
                ret: match ret {
                    Some(t) => Some(Box::new(t.model())),
                    None => None,
                },
            },
            Type::Pointer => TypeModel::Pointer,
        }
    }
}

/// The suffix that marks a vector of the given length.
pub open spec fn vector_suffix(length: Option<usize>) -> Seq<char> {
    match length {
        None => Seq::empty(),
        Some(l) => "<"@ + decimal_text(l as nat) + ">"@,
    }
}

/// The name shown for a struct.
pub open spec fn struct_name_text(name: Option<Seq<char>>) -> Seq<char> {
    match name {
        None => "<anonymous>"@,
        Some(n) => n,
    }
}

/// The marker shown for variadic arguments.
pub open spec fn variadic_text(variadic: bool) -> Seq<char> {
    if variadic {
        ", ..."@
    } else {
        Seq::empty()
    }
}

/// The text of a token, as shown to users.
pub open spec fn token_text(t: TokenModel) -> Seq<char>
    decreases t,
{
    match t {
        TokenModel::Void => "void"@,
        TokenModel::Bitvec { width, number, length } => num_text(number) + decimal_text(width as nat)
            + vector_suffix(length),
        TokenModel::Array { element, length } => token_text(*element) + "["@ + decimal_text(
            length as nat,
        ) + "]"@,
        TokenModel::Struct { name, fields } => struct_name_text(name) + "{"@ + join_sep(
            token_texts(fields),
            ","@,
        ) + "}"@,
        TokenModel::Function { params, variadic, ret } => "("@ + join_sep(token_texts(params), ","@)
            + variadic_text(variadic) + ")->"@ + token_text(*ret),
        TokenModel::Pointer => "ptr"@,
    }
}

/// The texts of a list of tokens.
pub open spec fn token_texts(ts: Seq<TokenModel>) -> Seq<Seq<char>>
    decreases ts,
{
    Seq::new(ts.len(), |i: int| if 0 <= i < ts.len() { token_text(ts[i]) } else { Seq::empty() })
}

/// The text of a type, as shown to users.
pub open spec fn type_text(t: TypeModel) -> Seq<char>
    decreases t,
{
    match t {
        TypeModel::Bitvec { bits, number, length } => num_text(number) + decimal_text(bits as nat)
            + vector_suffix(length),
        TypeModel::Array { element, length } => type_text(*element) + "["@ + decimal_text(
            length as nat,
        ) + "]"@,
        TypeModel::Struct { name, fields } => struct_name_text(name) + "{"@ + join_sep(
            type_texts(fields),
            ","@,
        ) + "}"@,
        TypeModel::Function { params, variadic, ret } => "("@ + join_sep(type_texts(params), ","@)
            + variadic_text(variadic) + ")->"@ + match ret {
            None => "void"@,
            Some(r) => type_text(*r),
        },
        TypeModel::Pointer => "ptr"@,
    }
}

/// The texts of a list of types.
pub open spec fn type_texts(ts: Seq<TypeModel>) -> Seq<Seq<char>>
    decreases ts,
{
    Seq::new(ts.len(), |i: int| if 0 <= i < ts.len() { type_text(ts[i]) } else { Seq::empty() })
}

/// How a type read from a module becomes a token, given the definitions of the
/// named structs; or the failure that stops it.
pub open spec fn parse_token(t: TypeView, defs: Map<Seq<char>, Seq<TypeView>>) -> Result<
    TokenModel,
    Failure,
>
    decreases t,
{
    match t {
        TypeView::Void => Ok(TokenModel::Void),
        TypeView::Int { width, .. } => Ok(
            TokenModel::Bitvec { width, number: NumRepr::Int, length: None },
        ),
        TypeView::Float { width, .. } => Ok(
            TokenModel::Bitvec { width, number: NumRepr::Float, length: None },
        ),
        TypeView::Vector { element, fixed, length } => if !fixed {
            Err(Failure::Unsupported(Unsupported::ScalableVector))
        } else {
            match parse_token(*element, defs) {
                Err(e) => Err(e),
                Ok(tok) => match tok {
                    TokenModel::Bitvec { width, number, length: None } => Ok(
                        TokenModel::Bitvec { width, number, length: Some(length) },
                    ),
                    TokenModel::Pointer => Err(Failure::Unsupported(Unsupported::VectorOfPointers)),
                    _ => Err(Failure::Assumption("type cannot be vector element: "@ + token_text(tok))),
                },
            }
        },
        TypeView::Array { element, length } => match parse_token(*element, defs) {
            Err(e) => Err(e),
            Ok(e) => Ok(TokenModel::Array { element: Box::new(e), length }),
        },
        TypeView::Struct { name, fields } => match fields {
            None => Err(Failure::Assumption("no opaque struct under opaque pointer scheme"@)),
            Some(tys) => {
                if name is Some && !defs.contains_key(name->0) {
                    Err(Failure::Assumption("reference to undefined named struct: "@ + name->0))
                } else if name is Some && defs[name->0] != tys {
                    Err(Failure::Assumption("conflicting definition of named struct: "@ + name->0))
                } else {
                    match parse_list(tys, defs) {
                        Err(e) => Err(e),
                        Ok(fs) => Ok(TokenModel::Struct { name, fields: fs }),
                    }
                }
            },
        },
        TypeView::Function { params, variadic, ret } => match parse_list(params, defs) {
            Err(e) => Err(e),
            Ok(ps) => match parse_token(*ret, defs) {
                Err(e) => Err(e),
                Ok(r) => Ok(TokenModel::Function { params: ps, variadic, ret: Box::new(r) }),
            },
        },
        TypeView::Pointer { address_space, .. } => if address_space != 0 {
            Err(Failure::Unsupported(Unsupported::PointerAddressSpace))
        } else {
            Ok(TokenModel::Pointer)
        },
        TypeView::Label => Err(Failure::Assumption("unexpected llvm primitive type: label"@)),
        TypeView::Token => Err(Failure::Assumption("unexpected llvm primitive type: token"@)),
        TypeView::Metadata => Err(Failure::Unsupported(Unsupported::MetadataSystem)),
        TypeView::Other { .. } => Err(Failure::Unsupported(Unsupported::ArchSpecificExtension)),
    }
}

/// How a list of types becomes a list of tokens: the first failure in order, if any.
pub open spec fn parse_list(ts: Seq<TypeView>, defs: Map<Seq<char>, Seq<TypeView>>) -> Result<
    Seq<TokenModel>,
    Failure,
>
    decreases ts,
{
    if ts.len() == 0 {
        Ok(Seq::empty())
    } else {
        match parse_list(ts.subrange(0, ts.len() - 1), defs) {
            Err(e) => Err(e),
            Ok(init) => match parse_token(ts[ts.len() - 1], defs) {
                Err(e) => Err(e),
                Ok(x) => Ok(init.push(x)),
            },
        }
    }
}

/// How a token becomes a type; a void token only stands as a return type.
pub open spec fn convert_token(t: TokenModel) -> Result<TypeModel, Failure>
    decreases t,
{
    match t {
        TokenModel::Void => Err(Failure::Invariant("unexpected void type"@)),
        TokenModel::Bitvec { width, number, length } => Ok(
            TypeModel::Bitvec { bits: width, number, length },
        ),
        TokenModel::Array { element, length } => match convert_token(*element) {
            Err(e) => Err(e),
            Ok(e) => Ok(TypeModel::Array { element: Box::new(e), length }),
        },
        TokenModel::Struct { name, fields } => match convert_list(fields) {
            Err(e) => Err(e),
            Ok(fs) => Ok(TypeModel::Struct { name, fields: fs }),
        },
        TokenModel::Function { params, variadic, ret } => match convert_list(params) {
            Err(e) => Err(e),
            Ok(ps) => if *ret is Void {
                Ok(TypeModel::Function { params: ps, variadic, ret: None })
            } else {
                match convert_token(*ret) {
                    Err(e) => Err(e),
                    Ok(r) => Ok(TypeModel::Function { params: ps, variadic, ret: Some(Box::new(r)) }),
                }
            },
        },
        TokenModel::Pointer => Ok(TypeModel::Pointer),
    }
}

/// How a list of tokens becomes a list of types: the first failure in order, if any.
pub open spec fn convert_list(ts: Seq<TokenModel>) -> Result<Seq<TypeModel>, Failure>
    decreases ts,
{
    if ts.len() == 0 {
        Ok(Seq::empty())
    } else {
        match convert_list(ts.subrange(0, ts.len() - 1)) {
            Err(e) => Err(e),
            Ok(init) => match convert_token(ts[ts.len() - 1]) {
                Err(e) => Err(e),
                Ok(x) => Ok(init.push(x)),
            },
        }
    }
}

/// How a type read from a module becomes a type of the analysis.
pub open spec fn convert_type(t: TypeView, defs: Map<Seq<char>, Seq<TypeView>>) -> Result<
    TypeModel,
    Failure,
> {
    match parse_token(t, defs) {
        Err(e) => Err(e),
        Ok(tok) => convert_token(tok),
    }
}

/// An outcome agrees with a modelled token outcome.
pub open spec fn token_agrees(r: EngineResult<TypeToken>, m: Result<TokenModel, Failure>) -> bool {
    match m {
        Ok(v) => r matches Ok(x) && x.model() == v,
        Err(f) => r matches Err(e) && e.failure() == f,
    }
}

/// An outcome agrees with a modelled list of tokens.
pub open spec fn tokens_agree(r: EngineResult<Vec<TypeToken>>, m: Result<Seq<TokenModel>, Failure>) -> bool {
    match m {
        Ok(v) => r matches Ok(x) && token_models(x@) == v,
        Err(f) => r matches Err(e) && e.failure() == f,
    }
}

/// An outcome agrees with a modelled type outcome.
pub open spec fn type_agrees(r: EngineResult<Type>, m: Result<TypeModel, Failure>) -> bool {
    match m {
        Ok(v) => r matches Ok(x) && x.model() == v,
        Err(f) => r matches Err(e) && e.failure() == f,
    }
}

/// An outcome agrees with a modelled list of types.
pub open spec fn types_agree(r: EngineResult<Vec<Type>>, m: Result<Seq<TypeModel>, Failure>) -> bool {
    match m {
        Ok(v) => r matches Ok(x) && type_models(x@) == v,
        Err(f) => r matches Err(e) && e.failure() == f,
    }
}


/// The definitions of named structs, as a list of names and field types.
#[derive(Debug)]
pub struct StructDefs {
    pub entries: Vec<(Identifier, Vec<AdaptedType>)>,
}

/// The map from names to field types that a list of definitions stands for.
pub open spec fn defs_map(es: Seq<(Identifier, Vec<AdaptedType>)>) -> Map<Seq<char>, Seq<TypeView>>
    decreases es.len(),
{
    if es.len() == 0 {
        Map::empty()
    } else {
        defs_map(es.drop_last()).insert(es.last().0.0@, views(es.last().1@))
    }
}

/// No name occurs twice.
pub open spec fn distinct_names(es: Seq<(Identifier, Vec<AdaptedType>)>) -> bool {
    forall|i: int, j: int| 0 <= i < j < es.len() ==> es[i].0.0@ != es[j].0.0@
}

pub proof fn lemma_defs_map(es: Seq<(Identifier, Vec<AdaptedType>)>)
    requires
        distinct_names(es),
    ensures
        forall|i: int| 0 <= i < es.len() ==> #[trigger] defs_map(es).contains_key(es[i].0.0@)
            && defs_map(es)[es[i].0.0@] == views(es[i].1@),
        forall|k: Seq<char>| defs_map(es).contains_key(k) ==> exists|i: int| 0 <= i < es.len() && es[i].0.0@ == k,
    decreases es.len(),
{
    if es.len() > 0 {
        let init = es.drop_last();
        assert(distinct_names(init));
        lemma_defs_map(init);
        assert forall|i: int| 0 <= i < es.len() implies #[trigger] defs_map(es).contains_key(es[i].0.0@)
            && defs_map(es)[es[i].0.0@] == views(es[i].1@) by {
            if i < es.len() - 1 {
                assert(init[i] == es[i]);
                assert(defs_map(init).contains_key(init[i].0.0@));
                assert(es[i].0.0@ != es.last().0.0@);
            }
        }
        assert forall|k: Seq<char>| defs_map(es).contains_key(k) implies exists|i: int| 0 <= i < es.len() && es[i].0.0@ == k by {
            if k != es.last().0.0@ {
                assert(defs_map(init).contains_key(k));
                let i = choose|i: int| 0 <= i < init.len() && init[i].0.0@ == k;
                assert(es[i] == init[i]);
            } else {
                assert(es[es.len() - 1].0.0@ == k);
            }
        }
    }
}

/// A name of the map is the name of some definition.
proof fn lemma_defs_map_names(es: Seq<(Identifier, Vec<AdaptedType>)>, n: Seq<char>)
    requires
        defs_map(es).contains_key(n),
    ensures
        exists|i: int| 0 <= i < es.len() && es[i].0.0@ == n,
    decreases es.len(),
{
    if es.last().0.0@ != n {
        lemma_defs_map_names(es.drop_last(), n);
        let i = choose|i: int| 0 <= i < es.drop_last().len() && es.drop_last()[i].0.0@ == n;
        assert(es[i] == es.drop_last()[i]);
    } else {
        assert(es[es.len() - 1].0.0@ == n);
    }
}

/// Whether every definition of `a` is in `b`, with the same field types.
fn defs_within(a: &StructDefs, b: &StructDefs) -> (r: bool)
    requires
        a.wf(),
        b.wf(),
    ensures
        r == forall|n: Seq<char>| #[trigger] a.map().contains_key(n) ==> b.map().contains_key(n) && b.map()[n] == a.map()[n],
{
    proof {
        lemma_defs_map(a.entries@);
        assert forall|j: int| 0 <= j < a.entries@.len() implies #[trigger] a.map().contains_key(a.entries@[j].0.0@)
            && a.map()[a.entries@[j].0.0@] == views(a.entries@[j].1@) by {
            assert(defs_map(a.entries@).contains_key(a.entries@[j].0.0@));
        }
    }
    let mut i: usize = 0;
    while i < a.entries.len()
        invariant
            a.wf(),
            b.wf(),
            i <= a.entries@.len(),
            forall|j: int| 0 <= j < a.entries@.len() ==> #[trigger] a.map().contains_key(a.entries@[j].0.0@)
                && a.map()[a.entries@[j].0.0@] == views(a.entries@[j].1@),
            forall|j: int| 0 <= j < i ==> b.map().contains_key(#[trigger] a.entries@[j].0.0@) && b.map()[a.entries@[j].0.0@]
                == views(a.entries@[j].1@),
        decreases a.entries@.len() - i,
    {
        let ghost n = a.entries@[i as int].0.0@;
        assert(a.map().contains_key(n) && a.map()[n] == views(a.entries@[i as int].1@));
        match b.lookup(a.entries[i].0.as_str()) {
            None => {
                assert(!(b.map().contains_key(n)));
                return false;
            },
            Some(fields) => {
                if !crate::ir::adapter::typing::same_types(fields, &a.entries[i].1) {
                    assert(b.map()[n] != a.map()[n]);
                    return false;
                }
            },
        }
        i = i + 1;
    }
    proof {
        assert forall|n: Seq<char>| #[trigger] a.map().contains_key(n) implies b.map().contains_key(n) && b.map()[n] == a.map()[n] by {
            lemma_defs_map_names(a.entries@, n);
            let j = choose|j: int| 0 <= j < a.entries@.len() && a.entries@[j].0.0@ == n;
        }
    }
    true
}

impl StructDefs {
    pub open spec fn wf(&self) -> bool {
        distinct_names(self.entries@)
    }

    /// The map from names to field types.
    pub open spec fn map(&self) -> Map<Seq<char>, Seq<TypeView>> {
        defs_map(self.entries@)
    }

    /// The field types defined for a name, if any.
    pub fn lookup(&self, name: &str) -> (r: Option<&Vec<AdaptedType>>)
        requires
            self.wf(),
        ensures
            match r {
                Some(v) => self.map().contains_key(name@) && self.map()[name@] == views(v@),
                None => !self.map().contains_key(name@),
            },
    {
        proof {
            lemma_defs_map(self.entries@);
        }
        let mut i: usize = 0;
        while i < self.entries.len()
            invariant
                i <= self.entries@.len(),
                self.wf(),
                forall|j: int| 0 <= j < i ==> self.entries@[j].0.0@ != name@,
            decreases self.entries@.len() - i,
        {
            if str_eq(self.entries[i].0.as_str(), name) {
                proof {
                    lemma_defs_map(self.entries@);
                    assert(self.entries@[i as int].0.0@ == name@);
                    assert(defs_map(self.entries@).contains_key(self.entries@[i as int].0.0@));
                }
                return Some(&self.entries[i].1);
            }
            i = i + 1;
        }
        None
    }
}

pub proof fn lemma_parse_list_prefix(ts: Seq<TypeView>, defs: Map<Seq<char>, Seq<TypeView>>, i: int)
    requires
        0 <= i <= ts.len(),
        parse_list(ts.take(i), defs) is Err,
    ensures
        parse_list(ts, defs) == parse_list(ts.take(i), defs),
    decreases ts.len() - i,
{
    if i < ts.len() {
        assert(ts.take(i + 1).subrange(0, i) =~= ts.take(i));
        lemma_parse_list_prefix(ts, defs, i + 1);
    } else {
        assert(ts.take(i) =~= ts);
    }
}

pub proof fn lemma_convert_list_prefix(ts: Seq<TokenModel>, i: int)
    requires
        0 <= i <= ts.len(),
        convert_list(ts.take(i)) is Err,
    ensures
        convert_list(ts) == convert_list(ts.take(i)),
    decreases ts.len() - i,
{
    if i < ts.len() {
        assert(ts.take(i + 1).subrange(0, i) =~= ts.take(i));
        lemma_convert_list_prefix(ts, i + 1);
    } else {
        assert(ts.take(i) =~= ts);
    }
}

impl TypeToken {
    /// Converts every type of a list, stopping at the first failure.
    fn parse_all(tys: &Vec<AdaptedType>, defs: &StructDefs) -> (r: EngineResult<Vec<TypeToken>>)
        requires
            defs.wf(),
        ensures
            tokens_agree(r, parse_list(views(tys@), defs.map())),
        decreases tys@, 1nat,
    {
        let ghost ts = views(tys@);
        let mut out: Vec<TypeToken> = Vec::new();
        let mut i: usize = 0;
        assert(ts.take(0) =~= Seq::<TypeView>::empty());
        assert(token_models(out@) =~= Seq::<TokenModel>::empty());
        while i < tys.len()
            invariant
                i <= tys@.len(),
                ts == views(tys@),
                defs.wf(),
                parse_list(ts.take(i as int), defs.map()) == Ok::<Seq<TokenModel>, Failure>(
                    token_models(out@),
                ),
            decreases tys@.len() - i,
        {
            proof {
                assert(decreases_to!(tys@ => tys@[i as int]));
                assert(ts.take(i + 1).subrange(0, i as int) =~= ts.take(i as int));
                assert(ts.take(i + 1)[i as int] == tys@[i as int]@);
            }
            let t = Self::parse(&tys[i], defs);
            match t {
                Err(e) => {
                    proof {
                        lemma_parse_list_prefix(ts, defs.map(), i + 1);
                    }
                    return Err(e);
                },
                Ok(tok) => {
                    let ghost prev = out@;
                    let ghost m = tok.model();
                    out.push(tok);
                    proof {
                        assert(token_models(out@) =~= token_models(prev).push(m));
                    }
                },
            }
            i = i + 1;
        }
        assert(ts.take(tys@.len() as int) =~= ts);
        Ok(out)
    }

    /// Converts a type read from a module into a token, checking named structs
    /// against their definitions.
    pub fn parse(ty: &AdaptedType, defs: &StructDefs) -> (r: EngineResult<TypeToken>)
        requires
            defs.wf(),
        ensures
            token_agrees(r, parse_token(ty@, defs.map())),
        decreases ty, 0nat,
    {
        match ty {
            AdaptedType::Void => Ok(TypeToken::Void),
            AdaptedType::Int { width, .. } => Ok(
                TypeToken::Bitvec { width: *width, number: NumRepr::Int, length: None },
            ),
            AdaptedType::Float { width, .. } => Ok(
                TypeToken::Bitvec { width: *width, number: NumRepr::Float, length: None },
            ),
            AdaptedType::Vector { element, fixed, length } => {
                if !*fixed {
                    return Err(EngineError::NotSupportedYet(Unsupported::ScalableVector));
                }
                match Self::parse(element, defs) {
                    Err(e) => Err(e),
                    Ok(tok) => match tok {
                        TypeToken::Bitvec { width, number, length: None } => Ok(
                            TypeToken::Bitvec { width, number, length: Some(*length) },
                        ),
                        TypeToken::Pointer => Err(
                            EngineError::NotSupportedYet(Unsupported::VectorOfPointers),
                        ),
                        _ => {
                            let text = tok.describe();
                            Err(
                                EngineError::invalid_assumption(
                                    "type cannot be vector element: ",
                                    text.as_str(),
                                ),
                            )
                        },
                    },
                }
            },
            AdaptedType::Array { element, length } => match Self::parse(element, defs) {
                Err(e) => Err(e),
                Ok(e) => Ok(TypeToken::Array { element: Box::new(e), length: *length }),
            },
            AdaptedType::Struct { name, fields } => {
                let tys = match fields {
                    None => {
                        return Err(
                            EngineError::InvalidAssumption(
                                "no opaque struct under opaque pointer scheme".to_owned(),
                            ),
                        );
                    },
                    Some(tys) => tys,
                };
                proof {
                    lemma_list_view(tys@);
                }
                match name {
                    None => {},
                    Some(n) => match defs.lookup(n.as_str()) {
                        None => {
                            return Err(
                                EngineError::invalid_assumption(
                                    "reference to undefined named struct: ",
                                    n.as_str(),
                                ),
                            );
                        },
                        Some(defined) => {
                            if !same_types(defined, tys) {
                                return Err(
                                    EngineError::invalid_assumption(
                                        "conflicting definition of named struct: ",
                                        n.as_str(),
                                    ),
                                );
                            }
                        },
                    },
                }
                match Self::parse_all(tys, defs) {
                    Err(e) => Err(e),
                    Ok(fs) => {
                        let n = match name {
                            Some(x) => Some(Identifier(x.clone())),
                            None => None,
                        };
                        Ok(TypeToken::Struct { name: n, fields: fs })
                    },
                }
            },
            AdaptedType::Function { params, variadic, ret } => {
                proof {
                    lemma_list_view(params@);
                }
                match Self::parse_all(params, defs) {
                    Err(e) => Err(e),
                    Ok(ps) => match Self::parse(ret, defs) {
                        Err(e) => Err(e),
                        Ok(r) => Ok(
                            TypeToken::Function { params: ps, variadic: *variadic, ret: Box::new(r) },
                        ),
                    },
                }
            },
            AdaptedType::Pointer { address_space, .. } => {
                if *address_space != 0 {
                    Err(EngineError::NotSupportedYet(Unsupported::PointerAddressSpace))
                } else {
                    Ok(TypeToken::Pointer)
                }
            },
            AdaptedType::Label => Err(
                EngineError::InvalidAssumption("unexpected llvm primitive type: label".to_owned()),
            ),
            AdaptedType::Token => Err(
                EngineError::InvalidAssumption("unexpected llvm primitive type: token".to_owned()),
            ),
            AdaptedType::Metadata => Err(EngineError::NotSupportedYet(Unsupported::MetadataSystem)),
            AdaptedType::Other { .. } => Err(
                EngineError::NotSupportedYet(Unsupported::ArchSpecificExtension),
            ),
        }
    }

    /// The texts of a list of tokens.
    fn describe_all(ts: &Vec<TypeToken>) -> (r: Vec<String>)
        ensures
            texts(r@) == token_texts(token_models(ts@)),
        decreases ts@, 1nat,
    {
        let mut out: Vec<String> = Vec::new();
        let mut i: usize = 0;
        while i < ts.len()
            invariant
                i <= ts@.len(),
                texts(out@) == token_texts(token_models(ts@)).take(i as int),
            decreases ts@.len() - i,
        {
            proof {
                assert(decreases_to!(ts@ => ts@[i as int]));
            }
            let t = ts[i].describe();
            let ghost prev = out@;
            out.push(t);
            proof {
                assert(texts(out@) =~= texts(prev).push(t@));
                assert(token_texts(token_models(ts@)).take(i + 1) =~= token_texts(token_models(ts@)).take(
                    i as int,
                ).push(t@));
            }
            i = i + 1;
        }
        assert(token_texts(token_models(ts@)).take(ts@.len() as int) =~= token_texts(
            token_models(ts@),
        ));
        out
    }

    /// The text of the token, as shown to users.
    pub fn describe(&self) -> (r: String)
        ensures
            r@ == token_text(self.model()),
        decreases self, 0nat,
    {
        match self {
            TypeToken::Void => "void".to_owned(),
            TypeToken::Bitvec { width, number, length } => {
                let mut s = concat(number.describe(), decimal_usize(*width).as_str());
                match length {
                    None => {},
                    Some(l) => {
                        s.append("<");
                        s.append(decimal_usize(*l).as_str());
                        s.append(">");
                    },
                }
                s
            },
            TypeToken::Array { element, length } => {
                let mut s = element.describe();
                s.append("[");
                s.append(decimal_usize(*length).as_str());
                s.append("]");
                s
            },
            TypeToken::Struct { name, fields } => {
                let mut s = match name {
                    None => "<anonymous>".to_owned(),
                    Some(n) => n.0.clone(),
                };
                s.append("{");
                let parts = Self::describe_all(fields);
                s.append(join_strings(&parts, ",").as_str());
                s.append("}");
                s
            },
            TypeToken::Function { params, variadic, ret } => {
                let mut s = "(".to_owned();
                let parts = Self::describe_all(params);
                s.append(join_strings(&parts, ",").as_str());
                if *variadic {
                    s.append(", ...");
                }
                s.append(")->");
                s.append(ret.describe().as_str());
                s
            },
            TypeToken::Pointer => "ptr".to_owned(),
        }
    }
}


impl Type {
    /// Converts every token of a list, stopping at the first failure.
    fn convert_all(ts: &Vec<TypeToken>) -> (r: EngineResult<Vec<Type>>)
        ensures
            types_agree(r, convert_list(token_models(ts@))),
        decreases ts@, 1nat,
    {
        let ghost ms = token_models(ts@);
        let mut out: Vec<Type> = Vec::new();
        let mut i: usize = 0;
        assert(ms.take(0) =~= Seq::<TokenModel>::empty());
        assert(type_models(out@) =~= Seq::<TypeModel>::empty());
        while i < ts.len()
            invariant
                i <= ts@.len(),
                ms == token_models(ts@),
                convert_list(ms.take(i as int)) == Ok::<Seq<TypeModel>, Failure>(type_models(out@)),
            decreases ts@.len() - i,
        {
            proof {
                assert(decreases_to!(ts@ => ts@[i as int]));
                assert(ms.take(i + 1).subrange(0, i as int) =~= ms.take(i as int));
                assert(ms.take(i + 1)[i as int] == ts@[i as int].model());
            }
            match Self::convert_token(&ts[i]) {
                Err(e) => {
                    proof {
                        lemma_convert_list_prefix(ms, i + 1);
                    }
                    return Err(e);
                },
                Ok(t) => {
                    let ghost prev = out@;
                    let ghost m = t.model();
                    out.push(t);
                    proof {
                        assert(type_models(out@) =~= type_models(prev).push(m));
                    }
                },
            }
            i = i + 1;
        }
        assert(ms.take(ts@.len() as int) =~= ms);
        Ok(out)
    }

    /// Converts a token into a type of the analysis.
    pub fn convert_token(token: &TypeToken) -> (r: EngineResult<Type>)
        ensures
            type_agrees(r, convert_token(token.model())),
        decreases token, 0nat,
    {
        match token {
            TypeToken::Void => Err(EngineError::InvariantViolation("unexpected void type".to_owned())),
            TypeToken::Bitvec { width, number, length } => Ok(
                Type::Bitvec { bits: *width, number: *number, length: *length },
            ),
            TypeToken::Array { element, length } => match Self::convert_token(element) {
                Err(e) => Err(e),
                Ok(c) => Ok(Type::Array { element: Box::new(c), length: *length }),
            },
            TypeToken::Struct { name, fields } => match Self::convert_all(fields) {
                Err(e) => Err(e),
                Ok(fs) => {
                    let n = match name {
                        Some(x) => Some(x.duplicate()),
                        None => None,
                    };
                    Ok(Type::Struct { name: n, fields: fs })
                },
            },
            TypeToken::Function { params, variadic, ret } => match Self::convert_all(params) {
                Err(e) => Err(e),
                Ok(ps) => {
                    let r = match &**ret {
                        TypeToken::Void => None,
                        _ => match Self::convert_token(ret) {
                            Err(e) => {
                                return Err(e);
                            },
                            Ok(t) => Some(Box::new(t)),
                        },
                    };
                    Ok(Type::Function { params: ps, variadic: *variadic, ret: r })
                },
            },
            TypeToken::Pointer => Ok(Type::Pointer),
        }
    }

    /// The texts of a list of types.
    fn describe_all(ts: &Vec<Type>) -> (r: Vec<String>)
        ensures
            texts(r@) == type_texts(type_models(ts@)),
        decreases ts@, 1nat,
    {
        let mut out: Vec<String> = Vec::new();
        let mut i: usize = 0;
        while i < ts.len()
            invariant
                i <= ts@.len(),
                texts(out@) == type_texts(type_models(ts@)).take(i as int),
            decreases ts@.len() - i,
        {
            proof {
                assert(decreases_to!(ts@ => ts@[i as int]));
            }
            let t = ts[i].describe();
            let ghost prev = out@;
            out.push(t);
            proof {
                assert(texts(out@) =~= texts(prev).push(t@));
                assert(type_texts(type_models(ts@)).take(i + 1) =~= type_texts(type_models(ts@)).take(
                    i as int,
                ).push(t@));
            }
            i = i + 1;
        }
        assert(type_texts(type_models(ts@)).take(ts@.len() as int) =~= type_texts(type_models(ts@)));
        out
    }

    /// The text of the type, as shown to users.
    pub fn describe(&self) -> (r: String)
        ensures
            r@ == type_text(self.model()),
        decreases self, 0nat,
    {
        match self {
            Type::Bitvec { bits, number, length } => {
                let mut s = concat(number.describe(), decimal_usize(*bits).as_str());
                match length {
                    None => {},
                    Some(l) => {
                        s.append("<");
                        s.append(decimal_usize(*l).as_str());
                        s.append(">");
                    },
                }
                s
            },
            Type::Array { element, length } => {
                let mut s = element.describe();
                s.append("[");
                s.append(decimal_usize(*length).as_str());
                s.append("]");
                s
            },
            Type::Struct { name, fields } => {
                let mut s = match name {
                    None => "<anonymous>".to_owned(),
                    Some(n) => n.0.clone(),
                };
                s.append("{");
                let parts = Self::describe_all(fields);
                s.append(join_strings(&parts, ",").as_str());
                s.append("}");
                s
            },
            Type::Function { params, variadic, ret } => {
                let mut s = "(".to_owned();
                let parts = Self::describe_all(params);
                s.append(join_strings(&parts, ",").as_str());
                if *variadic {
                    s.append(", ...");
                }
                s.append(")->");
                match ret {
                    None => s.append("void"),
                    Some(t) => s.append(t.describe().as_str()),
                }
                s
            },
            Type::Pointer => "ptr".to_owned(),
        }
    }

    /// Copies of every type of a list.
    fn duplicate_all(ts: &Vec<Type>) -> (r: Vec<Type>)
        ensures
            type_models(r@) == type_models(ts@),
        decreases ts@, 1nat,
    {
        let mut out: Vec<Type> = Vec::new();
        let mut i: usize = 0;
        while i < ts.len()
            invariant
                i <= ts@.len(),
                out@.len() == i,
                forall|j: int| 0 <= j < i ==> out@[j].model() == ts@[j].model(),
            decreases ts@.len() - i,
        {
            proof {
                assert(decreases_to!(ts@ => ts@[i as int]));
            }
            let t = ts[i].duplicate();
            out.push(t);
            i = i + 1;
        }
        assert(type_models(out@) =~= type_models(ts@));
        out
    }

    /// A copy of the type.
    pub fn duplicate(&self) -> (r: Type)
        ensures
            r.model() == self.model(),
        decreases self, 0nat,
    {
        match self {
            Type::Bitvec { bits, number, length } => Type::Bitvec {
                bits: *bits,
                number: *number,
                length: *length,
            },
            Type::Array { element, length } => Type::Array {
                element: Box::new(element.duplicate()),
                length: *length,
            },
            Type::Struct { name, fields } => Type::Struct {
                name: match name {
                    Some(n) => Some(n.duplicate()),
                    None => None,
                },
                fields: Self::duplicate_all(fields),
            },
            Type::Function { params, variadic, ret } => Type::Function {
                params: Self::duplicate_all(params),
                variadic: *variadic,
                ret: match ret {
                    Some(t) => Some(Box::new(t.duplicate())),
                    None => None,
                },
            },
            Type::Pointer => Type::Pointer,
        }
    }

    /// Whether two lists of types have equal models.
    fn same_all(a: &Vec<Type>, b: &Vec<Type>) -> (r: bool)
        ensures
            r == (type_models(a@) == type_models(b@)),
        decreases a@, 1nat,
    {
        if a.len() != b.len() {
            proof {
                assert(type_models(a@).len() != type_models(b@).len());
            }
            return false;
        }
        let mut i: usize = 0;
        while i < a.len()
            invariant
                i <= a@.len(),
                a@.len() == b@.len(),
                forall|j: int| 0 <= j < i ==> a@[j].model() == b@[j].model(),
            decreases a@.len() - i,
        {
            proof {
                assert(decreases_to!(a@ => a@[i as int]));
            }
            if !a[i].same_as(&b[i]) {
                proof {
                    assert(type_models(a@)[i as int] != type_models(b@)[i as int]);
                }
                return false;
            }
            i = i + 1;
        }
        assert(type_models(a@) =~= type_models(b@));
        true
    }

    /// Whether two types have equal models.
    pub fn same_as(&self, other: &Type) -> (r: bool)
        ensures
            r == (self.model() == other.model()),
        decreases self, 0nat,
    {
        match self {
            Type::Bitvec { bits: b1, number: n1, length: l1 } => match other {
                Type::Bitvec { bits: b2, number: n2, length: l2 } => *b1 == *b2 && *n1 == *n2 && match l1 {
                    None => l2.is_none(),
                    Some(x) => match l2 {
                        Some(y) => *x == *y,
                        None => false,
                    },
                },
                _ => false,
            },
            Type::Array { element: e1, length: l1 } => match other {
                Type::Array { element: e2, length: l2 } => *l1 == *l2 && e1.same_as(e2),
                _ => false,
            },
            Type::Struct { name: n1, fields: f1 } => match other {
                Type::Struct { name: n2, fields: f2 } => {
                    let same_name = match n1 {
                        None => n2.is_none(),
                        Some(a) => match n2 {
                            Some(b) => a.same_name(b),
                            None => false,
                        },
                    };
                    same_name && Self::same_all(f1, f2)
                },
                _ => false,
            },
            Type::Function { params: p1, variadic: v1, ret: r1 } => match other {
                Type::Function { params: p2, variadic: v2, ret: r2 } => {
                    if *v1 != *v2 || !Self::same_all(p1, p2) {
                        return false;
                    }
                    match r1 {
                        None => r2.is_none(),
                        Some(x) => match r2 {
                            Some(y) => x.same_as(y),
                            None => false,
                        },
                    }
                },
                _ => false,
            },
            Type::Pointer => matches!(other, Type::Pointer),
        }
    }
}


/// The model of a user-defined struct: its name and its field types, each if given.
pub open spec fn struct_view(d: UserDefinedStruct) -> (Option<Seq<char>>, Option<Seq<TypeView>>) {
    (
        match d.name {
            Some(n) => Some(n@),
            None => None,
        },
        match d.fields {
            Some(f) => Some(views(f@)),
            None => None,
        },
    )
}

/// The models of a list of user-defined structs.
pub open spec fn struct_views(v: Seq<UserDefinedStruct>) -> Seq<(Option<Seq<char>>, Option<Seq<TypeView>>)> {
    v.map_values(|d: UserDefinedStruct| struct_view(d))
}

/// Collects the definitions of named structs, in order: each must be named, must
/// give its fields and must not repeat an earlier name.
pub open spec fn register_structs(defs: Seq<(Option<Seq<char>>, Option<Seq<TypeView>>)>) -> Result<
    Map<Seq<char>, Seq<TypeView>>,
    Failure,
>
    decreases defs.len(),
{
    if defs.len() == 0 {
        Ok(Map::empty())
    } else {
        match register_structs(defs.drop_last()) {
            Err(e) => Err(e),
            Ok(m) => {
                let (name, fields) = defs.last();
                if name is None {
                    Err(Failure::Assumption("user-defined struct type cannot be anonymous"@))
                } else if fields is None {
                    Err(Failure::Unsupported(Unsupported::OpaqueType))
                } else if m.contains_key(name->0) {
                    Err(Failure::Assumption("no duplicated definition of struct: "@ + name->0))
                } else {
                    Ok(m.insert(name->0, fields->0))
                }
            },
        }
    }
}

/// A struct of the registry whose fields cannot be converted.
pub open spec fn fails_to_parse(m: Map<Seq<char>, Seq<TypeView>>, k: Seq<char>) -> bool {
    m.contains_key(k) && parse_list(m[k], m) is Err
}

/// The failure of an outcome (a fixed one for a success).
pub open spec fn failure_of<T>(r: Result<T, Failure>) -> Failure {
    match r {
        Err(e) => e,
        Ok(_) => Failure::Invariant(Seq::empty()),
    }
}

/// Builds the registry of named structs: the definitions are collected, then the
/// fields of each are converted in the order of the names; the first that fails
/// decides the failure.
pub open spec fn populate_structs(defs: Seq<(Option<Seq<char>>, Option<Seq<TypeView>>)>) -> Result<
    Map<Seq<char>, Seq<TypeView>>,
    Failure,
> {
    match register_structs(defs) {
        Err(e) => Err(e),
        Ok(m) => if exists|k: Seq<char>| fails_to_parse(m, k) {
            let k = choose|k: Seq<char>|
                fails_to_parse(m, k) && forall|k2: Seq<char>| fails_to_parse(m, k2) ==> !text_less(k2, k);
            Err(failure_of(parse_list(m[k], m)))
        } else {
            Ok(m)
        },
    }
}

/// A type registry that holds all the user-defined struct types
#[derive(Debug)]
pub struct TypeRegistry {
    pub user_defined_structs: StructDefs,
}

impl TypeRegistry {
    /// Whether two registries define the same structs.
    pub fn same_as(&self, other: &TypeRegistry) -> (r: bool)
        requires
            self.wf(),
            other.wf(),
        ensures
            r == (self.structs() == other.structs()),
    {
        let r = defs_within(&self.user_defined_structs, &other.user_defined_structs) && defs_within(
            &other.user_defined_structs,
            &self.user_defined_structs,
        );
        proof {
            if r {
                assert(self.structs() =~= other.structs());
            }
        }
        r
    }

    pub open spec fn wf(&self) -> bool {
        self.user_defined_structs.wf()
    }

    /// The definitions of the named structs.
    pub open spec fn structs(&self) -> Map<Seq<char>, Seq<TypeView>> {
        self.user_defined_structs.map()
    }

    /// Converts a type read from a module into a type of the analysis.
    pub fn convert(&self, ty: &AdaptedType) -> (r: EngineResult<Type>)
        requires
            self.wf(),
        ensures
            type_agrees(r, convert_type(ty@, self.structs())),
    {
        match TypeToken::parse(ty, &self.user_defined_structs) {
            Err(e) => Err(e),
            Ok(token) => Type::convert_token(&token),
        }
    }

    /// Collects the definitions of the user-defined structs and checks that the
    /// fields of each can be converted (see [`populate_structs`]).
    #[verifier::spinoff_prover]
    pub fn populate(user_defined_structs: &Vec<UserDefinedStruct>) -> (r: EngineResult<Self>)
        ensures
            match populate_structs(struct_views(user_defined_structs@)) {
                Ok(m) => r matches Ok(reg) && reg.wf() && reg.structs() == m,
                Err(f) => r matches Err(e) && e.failure() == f,
            },
    {
        let ghost ds = struct_views(user_defined_structs@);
        let mut defs = StructDefs { entries: Vec::new() };
        let mut i: usize = 0;
        assert(ds.take(0) =~= Seq::<(Option<Seq<char>>, Option<Seq<TypeView>>)>::empty());
        while i < user_defined_structs.len()
            invariant
                i <= user_defined_structs@.len(),
                ds == struct_views(user_defined_structs@),
                defs.wf(),
                register_structs(ds.take(i as int)) == Ok::<Map<Seq<char>, Seq<TypeView>>, Failure>(
                    defs.map(),
                ),
            decreases user_defined_structs@.len() - i,
        {
            let def = &user_defined_structs[i];
            proof {
                assert(ds.take(i + 1).drop_last() =~= ds.take(i as int));
                assert(ds.take(i + 1).last() == struct_view(*def));
            }
            let name = match &def.name {
                None => {
                    proof {
                        lemma_register_prefix(ds, i + 1);
                    }
                    return Err(
                        EngineError::InvalidAssumption(
                            "user-defined struct type cannot be anonymous".to_owned(),
                        ),
                    );
                },
                Some(n) => n,
            };
            let fields = match &def.fields {
                None => {
                    proof {
                        lemma_register_prefix(ds, i + 1);
                    }
                    return Err(EngineError::NotSupportedYet(Unsupported::OpaqueType));
                },
                Some(f) => f,
            };
            if defs.lookup(name.as_str()).is_some() {
                proof {
                    lemma_register_prefix(ds, i + 1);
                }
                return Err(
                    EngineError::invalid_assumption("no duplicated definition of struct: ", name.as_str()),
                );
            }
            let items = crate::ir::adapter::typing::duplicate_all(fields);
            let ghost prev = defs.entries@;
            proof {
                lemma_defs_map(prev);
            }
            defs.entries.push((Identifier(name.clone()), items));
            proof {
                assert(defs.entries@.drop_last() =~= prev);
                assert forall|a: int, b: int| 0 <= a < b < defs.entries@.len() implies defs.entries@[a].0.0@
                    != defs.entries@[b].0.0@ by {
                    if b == defs.entries@.len() - 1 {
                        assert(prev[a] == defs.entries@[a]);
                        assert(defs_map(prev).contains_key(prev[a].0.0@));
                    }
                }
            }
            i = i + 1;
        }
        assert(ds.take(user_defined_structs@.len() as int) =~= ds);
        let ghost m = defs.map();
        let ghost es = defs.entries@;
        proof {
            lemma_defs_map(es);
        }
        // convert the fields of every definition; keep the failure of the least name
        let mut best: Option<(usize, EngineError)> = None;
        let mut j: usize = 0;
        while j < defs.entries.len()
            invariant
                j <= es.len(),
                es == defs.entries@,
                m == defs.map(),
                defs.wf(),
                m == defs_map(es),
                forall|x: int| 0 <= x < es.len() ==> #[trigger] defs_map(es).contains_key(es[x].0.0@)
                    && defs_map(es)[es[x].0.0@] == views(es[x].1@),
                match best {
                    None => forall|x: int| 0 <= x < j ==> !fails_to_parse(m, #[trigger] es[x].0.0@),
                    Some((b, e)) => b < j && fails_to_parse(m, es[b as int].0.0@) && e.failure()
                        == failure_of(parse_list(m[es[b as int].0.0@], m)) && forall|x: int|
                        0 <= x < j && fails_to_parse(m, #[trigger] es[x].0.0@) ==> !text_less(
                            es[x].0.0@,
                            es[b as int].0.0@,
                        ),
                },
            decreases es.len() - j,
        {
            let outcome = TypeToken::parse_all(&defs.entries[j].1, &defs);
            proof {
                assert(m.contains_key(es[j as int].0.0@));
            }
            match outcome {
                Ok(_) => {},
                Err(e) => {
                    let replace = match &best {
                        None => true,
                        Some((b, _)) => str_less(
                            defs.entries[j].0.as_str(),
                            defs.entries[*b].0.as_str(),
                        ),
                    };
                    proof {
                        let k = es[j as int].0.0@;
                        lemma_text_less(k, k, k);
                        if let Some((b, _)) = best {
                            let kb = es[b as int].0.0@;
                            assert forall|x: int|
                                0 <= x < j && fails_to_parse(m, #[trigger] es[x].0.0@) implies !text_less(
                                es[x].0.0@,
                                if replace { k } else { kb },
                            ) by {
                                lemma_text_less(es[x].0.0@, k, kb);
                            }
                        }
                    }
                    if replace {
                        best = Some((j, e));
                    }
                },
            }
            j = j + 1;
        }
        match best {
            None => {
                proof {
                    assert forall|k: Seq<char>| !fails_to_parse(m, k) by {
                        if fails_to_parse(m, k) {
                            let x = choose|x: int| 0 <= x < es.len() && es[x].0.0@ == k;
                            assert(!fails_to_parse(m, es[x].0.0@));
                        }
                    }
                }
                Ok(TypeRegistry { user_defined_structs: defs })
            },
            Some((b, e)) => {
                proof {
                    let kb = es[b as int].0.0@;
                    assert forall|k2: Seq<char>| fails_to_parse(m, k2) implies !text_less(k2, kb) by {
                        let x = choose|x: int| 0 <= x < es.len() && es[x].0.0@ == k2;
                        assert(fails_to_parse(m, es[x].0.0@));
                    }
                    let k = choose|k: Seq<char>|
                        fails_to_parse(m, k) && forall|k2: Seq<char>| fails_to_parse(m, k2) ==> !text_less(k2, k);
                    if k != kb {
                        lemma_text_less_total(k, kb);
                    }
                }
                Err(e)
            },
        }
    }
}

pub proof fn lemma_register_prefix(defs: Seq<(Option<Seq<char>>, Option<Seq<TypeView>>)>, i: int)
    requires
        0 <= i <= defs.len(),
        register_structs(defs.take(i)) is Err,
    ensures
        register_structs(defs) == register_structs(defs.take(i)),
    decreases defs.len() - i,
{
    if i < defs.len() {
        assert(defs.take(i + 1).drop_last() =~= defs.take(i));
        lemma_register_prefix(defs, i + 1);
    } else {
        assert(defs.take(i) =~= defs);
    }
}


/// The fields of every struct of a populated registry convert into tokens.
pub proof fn law_registry_structs_convert(defs: Seq<(Option<Seq<char>>, Option<Seq<TypeView>>)>)
    ensures
        populate_structs(defs) matches Ok(m) ==> forall|k: Seq<char>|
            m.contains_key(k) ==> #[trigger] parse_list(m[k], m) is Ok,
{
    if let Ok(m) = populate_structs(defs) {
        assert forall|k: Seq<char>| m.contains_key(k) implies #[trigger] parse_list(m[k], m) is Ok by {
            if parse_list(m[k], m) is Err {
                assert(fails_to_parse(m, k));
            }
        }
    }
}
} // verus!
