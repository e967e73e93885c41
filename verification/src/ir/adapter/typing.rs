use vstd::prelude::*;

verus! {

/// A representation of an LLVM type, as read from a serialized module
#[derive(Debug)]
pub enum Type {
    /// Void type
    Void,
    /// Integer type represented as bitvector
    Int { width: usize, mask: u64 },
    /// Floating point
    Float { width: usize, name: String },
    /// Array type
    Array { element: Box<Type>, length: usize },
    /// Struct type, which can be anonymous and/or opaque
    Struct { name: Option<String>, fields: Option<Vec<Type>> },
    /// Function type, which can include variadic arguments
    Function { params: Vec<Type>, variadic: bool, ret: Box<Type> },
    /// Pointer type
    Pointer { pointee: Option<Box<Type>>, address_space: usize },
    /// SIMD vector type
    Vector { element: Box<Type>, fixed: bool, length: usize },
    /// Label type
    Label,
    /// Token type
    Token,
    /// Metadata type
    Metadata,
    /// A catch-all case
    Other { name: String },
}

/// The mathematical model of a [`Type`]: names as character sequences, lists as sequences.
pub enum TypeView {
    Void,
    Int { width: usize, mask: u64 },
    Float { width: usize, name: Seq<char> },
    Array { element: Box<TypeView>, length: usize },
    Struct { name: Option<Seq<char>>, fields: Option<Seq<TypeView>> },
    Function { params: Seq<TypeView>, variadic: bool, ret: Box<TypeView> },
    Pointer { pointee: Option<Box<TypeView>>, address_space: usize },
    Vector { element: Box<TypeView>, fixed: bool, length: usize },
    Label,
    Token,
    Metadata,
    Other { name: Seq<char> },
}

/// The models of a list of types, element by element.
pub open spec fn list_view(v: Seq<Type>) -> Seq<TypeView>
    decreases v,
{
    Seq::new(v.len(), |i: int| if 0 <= i < v.len() { v[i].view_of() } else { TypeView::Void })
}

impl Type {
    pub open spec fn view_of(&self) -> TypeView
        decreases self,
    {
        match self {
            Type::Void => TypeView::Void,
            Type::Int { width, mask } => TypeView::Int { width: *width, mask: *mask },
            Type::Float { width, name } => TypeView::Float { width: *width, name: name@ },
            Type::Array { element, length } => TypeView::Array {
                element: Box::new(element.view_of()),
                length: *length,
            },
            Type::Struct { name, fields } => TypeView::Struct {
                name: match name {
                    Some(n) => Some(n@),
                    None => None,
                },
                fields: match fields {
                    Some(f) => Some(list_view(f@)),
                    None => None,
                },
            },
            Type::Function { params, variadic, ret } => TypeView::Function {
                params: list_view(params@),
                variadic: *variadic,
                ret: Box::new(ret.view_of()),
            },
            Type::Pointer { pointee, address_space } => TypeView::Pointer {
                pointee: match pointee {
                    Some(p) => Some(Box::new(p.view_of())),
                    None => None,
                },
                address_space: *address_space,
            },
            Type::Vector { element, fixed, length } => TypeView::Vector {
                element: Box::new(element.view_of()),
                fixed: *fixed,
                length: *length,
            },
            Type::Label => TypeView::Label,
            Type::Token => TypeView::Token,
            Type::Metadata => TypeView::Metadata,
            Type::Other { name } => TypeView::Other { name: name@ },
        }
    }
}

/// The models of a list of types.
pub open spec fn views(v: Seq<Type>) -> Seq<TypeView> {
    v.map_values(|t: Type| t@)
}

/// A copy of every type of a list.
pub fn duplicate_all(v: &Vec<Type>) -> (r: Vec<Type>)
    ensures
        views(r@) == views(v@),
    decreases v@, 1nat,
{
    let mut out: Vec<Type> = Vec::new();
    let mut i: usize = 0;
    while i < v.len()
        invariant
            i <= v@.len(),
            views(out@) == views(v@).take(i as int),
        decreases v@.len() - i,
    {
        proof {
            assert(decreases_to!(v@ => v@[i as int]));
        }
        let t = v[i].duplicate();
        let ghost prev = out@;
        out.push(t);
        proof {
            assert(views(out@) =~= views(prev).push(t@));
            assert(views(v@).take(i + 1) =~= views(v@).take(i as int).push(v@[i as int]@));
        }
        i = i + 1;
    }
    assert(views(v@).take(v@.len() as int) =~= views(v@));
    out
}

/// Whether two lists of types have equal models.
pub fn same_types(a: &Vec<Type>, b: &Vec<Type>) -> (r: bool)
    ensures
        r == (views(a@) == views(b@)),
    decreases a@, 1nat,
{
    if a.len() != b.len() {
        proof {
            assert(views(a@).len() != views(b@).len());
        }
        return false;
    }
    let mut i: usize = 0;
    while i < a.len()
        invariant
            i <= a@.len(),
            a@.len() == b@.len(),
            views(a@).take(i as int) == views(b@).take(i as int),
        decreases a@.len() - i,
    {
        proof {
            assert(decreases_to!(a@ => a@[i as int]));
        }
        if !a[i].same_as(&b[i]) {
            proof {
                assert(views(a@)[i as int] != views(b@)[i as int]);
            }
            return false;
        }
        proof {
            assert(views(a@).take(i + 1) =~= views(a@).take(i as int).push(a@[i as int]@));
            assert(views(b@).take(i + 1) =~= views(b@).take(i as int).push(b@[i as int]@));
        }
        i = i + 1;
    }
    proof {
        assert(views(a@).take(a@.len() as int) =~= views(a@));
        assert(views(b@).take(b@.len() as int) =~= views(b@));
    }
    true
}

pub proof fn lemma_list_view(v: Seq<Type>)
    ensures
        list_view(v) == views(v),
{
    assert(list_view(v) =~= views(v));
}

impl Type {
    /// A copy of the type.
    pub fn duplicate(&self) -> (r: Type)
        ensures
            r@ == self@,
        decreases self, 0nat,
    {
        match self {
            Type::Void => Type::Void,
            Type::Int { width, mask } => Type::Int { width: *width, mask: *mask },
            Type::Float { width, name } => Type::Float { width: *width, name: name.clone() },
            Type::Array { element, length } => Type::Array {
                element: Box::new(element.duplicate()),
                length: *length,
            },
            Type::Struct { name, fields } => {
                let n = match name {
                    Some(x) => Some(x.clone()),
                    None => None,
                };
                let f = match fields {
                    Some(tys) => {
                        let d = duplicate_all(tys);
                        proof {
                            lemma_list_view(tys@);
                            lemma_list_view(d@);
                        }
                        Some(d)
                    },
                    None => None,
                };
                Type::Struct { name: n, fields: f }
            },
            Type::Function { params, variadic, ret } => {
                let p = duplicate_all(params);
                proof {
                    lemma_list_view(params@);
                    lemma_list_view(p@);
                }
                Type::Function { params: p, variadic: *variadic, ret: Box::new(ret.duplicate()) }
            },
            Type::Pointer { pointee, address_space } => Type::Pointer {
                pointee: match pointee {
                    Some(p) => Some(Box::new(p.duplicate())),
                    None => None,
                },
                address_space: *address_space,
            },
            Type::Vector { element, fixed, length } => Type::Vector {
                element: Box::new(element.duplicate()),
                fixed: *fixed,
                length: *length,
            },
            Type::Label => Type::Label,
            Type::Token => Type::Token,
            Type::Metadata => Type::Metadata,
            Type::Other { name } => Type::Other { name: name.clone() },
        }
    }

    /// Whether two types have equal models.
    pub fn same_as(&self, other: &Type) -> (r: bool)
        ensures
            r == (self@ == other@),
        decreases self, 0nat,
    {
        match self {
            Type::Void => matches!(other, Type::Void),
            Type::Int { width: w1, mask: m1 } => match other {
                Type::Int { width: w2, mask: m2 } => *w1 == *w2 && *m1 == *m2,
                _ => false,
            },
            Type::Float { width: w1, name: n1 } => match other {
                Type::Float { width: w2, name: n2 } => *w1 == *w2 && crate::text::str_eq(
                    n1.as_str(),
                    n2.as_str(),
                ),
                _ => false,
            },
            Type::Array { element: e1, length: l1 } => match other {
                Type::Array { element: e2, length: l2 } => *l1 == *l2 && e1.same_as(e2),
                _ => false,
            },
            Type::Struct { name: n1, fields: f1 } => match other {
                Type::Struct { name: n2, fields: f2 } => {
                    let same_name = match n1 {
                        None => n2.is_none(),
                        Some(a) => match n2 {
                            Some(b) => crate::text::str_eq(a.as_str(), b.as_str()),
                            None => false,
                        },
                    };
                    if !same_name {
                        return false;
                    }
                    match f1 {
                        None => f2.is_none(),
                        Some(a) => match f2 {
                            Some(b) => {
                                proof {
                                    lemma_list_view(a@);
                                    lemma_list_view(b@);
                                }
                                same_types(a, b)
                            },
                            None => false,
                        },
                    }
                },
                _ => false,
            },
            Type::Function { params: p1, variadic: v1, ret: r1 } => match other {
                Type::Function { params: p2, variadic: v2, ret: r2 } => {
                    if *v1 != *v2 {
                        return false;
                    }
                    proof {
                        lemma_list_view(p1@);
                        lemma_list_view(p2@);
                    }
                    same_types(p1, p2) && r1.same_as(r2)
                },
                _ => false,
            },
            Type::Pointer { pointee: p1, address_space: a1 } => match other {
                Type::Pointer { pointee: p2, address_space: a2 } => {
                    if *a1 != *a2 {
                        return false;
                    }
                    match p1 {
                        None => p2.is_none(),
                        Some(x) => match p2 {
                            Some(y) => x.same_as(y),
                            None => false,
                        },
                    }
                },
                _ => false,
            },
            Type::Vector { element: e1, fixed: f1, length: l1 } => match other {
                Type::Vector { element: e2, fixed: f2, length: l2 } => *f1 == *f2 && *l1 == *l2
                    && e1.same_as(e2),
                _ => false,
            },
            Type::Label => matches!(other, Type::Label),
            Type::Token => matches!(other, Type::Token),
            Type::Metadata => matches!(other, Type::Metadata),
            Type::Other { name: n1 } => match other {
                Type::Other { name: n2 } => crate::text::str_eq(n1.as_str(), n2.as_str()),
                _ => false,
            },
        }
    }
}

impl View for Type {
    type V = TypeView;

    open spec fn view(&self) -> TypeView {
        self.view_of()
    }
}

/// User-defined struct (high-level) to the module
#[derive(Debug)]
pub struct UserDefinedStruct {
    pub name: Option<String>,
    pub fields: Option<Vec<Type>>,
}

} // verus!
