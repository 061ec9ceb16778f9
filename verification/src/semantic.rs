//! Semantic types: the resolved, fully elaborated representation of a type,
//! as opposed to its surface syntax.
use vstd::prelude::*;

verus! {

/// An opaque reference to a named program entity. It is unique across all
/// compilation units of one semantic model, which hands the identifiers out.
#[derive(Clone, Copy, Debug, PartialEq, Eq, Hash, Structural)]
pub struct DefId {
    pub index: usize,
}

/// The signed integer kinds.
#[derive(Clone, Copy, Debug, PartialEq, Eq, Hash, Structural)]
pub enum IntTy {
    Isize,
    I8,
    I16,
    I32,
    I64,
    I128,
}

/// The unsigned integer kinds.
#[derive(Clone, Copy, Debug, PartialEq, Eq, Hash, Structural)]
pub enum UintTy {
    Usize,
    U8,
    U16,
    U32,
    U64,
    U128,
}

/// The floating-point kinds.
#[derive(Clone, Copy, Debug, PartialEq, Eq, Hash, Structural)]
pub enum FloatTy {
    F32,
    F64,
}

/// Whether a pointer or reference allows mutation of its pointee.
#[derive(Clone, Copy, Debug, PartialEq, Eq, Hash, Structural)]
pub enum Mutability {
    Mutable,
    Immutable,
}

/// The semantic kinds that have no surface spelling of their own.
#[derive(Clone, Copy, Debug, PartialEq, Eq, Hash, Structural)]
pub enum Unsupported {
    FnPtr,
    Dynamic,
    Closure,
    Generator,
    GeneratorWitness,
    Projection,
    UnnormalizedProjection,
    Opaque,
    Bound,
    Placeholder,
    Infer,
    Error,
}

/// The length of an array type: a known number, or an anonymous constant
/// that the semantic model evaluates.
#[derive(Clone, Copy, Debug, PartialEq, Eq, Hash, Structural)]
pub enum ArrayLen {
    Value(u64),
    Unevaluated(DefId),
}

/// The canonical spelling of a signed integer kind.
pub open spec fn int_ty_name(k: IntTy) -> Seq<char> {
    match k {
        IntTy::Isize => "isize"@,
        IntTy::I8 => "i8"@,
        IntTy::I16 => "i16"@,
        IntTy::I32 => "i32"@,
        IntTy::I64 => "i64"@,
        IntTy::I128 => "i128"@,
    }
}

/// The canonical spelling of an unsigned integer kind.
pub open spec fn uint_ty_name(k: UintTy) -> Seq<char> {
    match k {
        UintTy::Usize => "usize"@,
        UintTy::U8 => "u8"@,
        UintTy::U16 => "u16"@,
        UintTy::U32 => "u32"@,
        UintTy::U64 => "u64"@,
        UintTy::U128 => "u128"@,
    }
}

/// The canonical spelling of a floating-point kind.
pub open spec fn float_ty_name(k: FloatTy) -> Seq<char> {
    match k {
        FloatTy::F32 => "f32"@,
        FloatTy::F64 => "f64"@,
    }
}

impl IntTy {
    /// The name under which this kind is written in source.
    pub fn ty_to_string(&self) -> (name: String)
        ensures
            name@ == int_ty_name(*self),
    {
        match self {
            IntTy::Isize => "isize".to_owned(),
            IntTy::I8 => "i8".to_owned(),
            IntTy::I16 => "i16".to_owned(),
            IntTy::I32 => "i32".to_owned(),
            IntTy::I64 => "i64".to_owned(),
            IntTy::I128 => "i128".to_owned(),
        }
    }
}

impl UintTy {
    /// The name under which this kind is written in source.
    pub fn ty_to_string(&self) -> (name: String)
        ensures
            name@ == uint_ty_name(*self),
    {
        match self {
            UintTy::Usize => "usize".to_owned(),
            UintTy::U8 => "u8".to_owned(),
            UintTy::U16 => "u16".to_owned(),
            UintTy::U32 => "u32".to_owned(),
            UintTy::U64 => "u64".to_owned(),
            UintTy::U128 => "u128".to_owned(),
        }
    }
}

impl FloatTy {
    /// The name under which this kind is written in source.
    pub fn ty_to_string(&self) -> (name: String)
        ensures
            name@ == float_ty_name(*self),
    {
        match self {
            FloatTy::F32 => "f32".to_owned(),
            FloatTy::F64 => "f64".to_owned(),
        }
    }
}

/// The mathematical value of a semantic type.
pub enum SemanticTypeView {
    Bool,
    Char,
    Int(IntTy),
    Uint(UintTy),
    Float(FloatTy),
    Str,
    Never,
    Adt { def: DefId, args: Seq<SemanticTypeView> },
    FnDef { def: DefId, args: Seq<SemanticTypeView> },
    Foreign { def: DefId },
    Array { elem: Box<SemanticTypeView>, len: ArrayLen },
    Slice { elem: Box<SemanticTypeView> },
    RawPtr { mutbl: Mutability, pointee: Box<SemanticTypeView> },
    Ref { mutbl: Mutability, pointee: Box<SemanticTypeView> },
    Tuple { elems: Seq<SemanticTypeView> },
    Param { index: usize, name: Seq<char> },
    Unsupported(Unsupported),
}

/// A semantic type: a primitive, an aggregate or a function item with its
/// generic arguments, a pointer or reference, an array, slice or tuple, the
/// never type, a type parameter, or a kind without surface syntax.
#[derive(Debug, PartialEq, Eq)]
pub enum SemanticType {
    Bool,
    Char,
    Int(IntTy),
    Uint(UintTy),
    Float(FloatTy),
    Str,
    Never,
    Adt { def: DefId, args: Vec<SemanticType> },
    /// The type of a function item, which cannot be named.
    FnDef { def: DefId, args: Vec<SemanticType> },
    Foreign { def: DefId },
    Array { elem: Box<SemanticType>, len: ArrayLen },
    Slice { elem: Box<SemanticType> },
    RawPtr { mutbl: Mutability, pointee: Box<SemanticType> },
    Ref { mutbl: Mutability, pointee: Box<SemanticType> },
    Tuple { elems: Vec<SemanticType> },
    Param { index: usize, name: String },
    Unsupported(Unsupported),
}

/// The value of a semantic type.
pub open spec fn type_view(ty: SemanticType) -> SemanticTypeView
    decreases ty,
{
    match ty {
        SemanticType::Bool => SemanticTypeView::Bool,
        SemanticType::Char => SemanticTypeView::Char,
        SemanticType::Int(kind) => SemanticTypeView::Int(kind),
        SemanticType::Uint(kind) => SemanticTypeView::Uint(kind),
        SemanticType::Float(kind) => SemanticTypeView::Float(kind),
        SemanticType::Str => SemanticTypeView::Str,
        SemanticType::Never => SemanticTypeView::Never,
        SemanticType::Adt { def, args } => SemanticTypeView::Adt { def, args: types_view(args@) },
        SemanticType::FnDef { def, args } => SemanticTypeView::FnDef {
            def,
            args: types_view(args@),
        },
        SemanticType::Foreign { def } => SemanticTypeView::Foreign { def },
        SemanticType::Array { elem, len } => SemanticTypeView::Array {
            elem: Box::new(type_view(*elem)),
            len,
        },
        SemanticType::Slice { elem } => SemanticTypeView::Slice {
            elem: Box::new(type_view(*elem)),
        },
        SemanticType::RawPtr { mutbl, pointee } => SemanticTypeView::RawPtr {
            mutbl,
            pointee: Box::new(type_view(*pointee)),
        },
        SemanticType::Ref { mutbl, pointee } => SemanticTypeView::Ref {
            mutbl,
            pointee: Box::new(type_view(*pointee)),
        },
        SemanticType::Tuple { elems } => SemanticTypeView::Tuple { elems: types_view(elems@) },
        SemanticType::Param { index, name } => SemanticTypeView::Param { index, name: name@ },
        SemanticType::Unsupported(kind) => SemanticTypeView::Unsupported(kind),
    }
}

/// The values of a sequence of semantic types, in order.
pub open spec fn types_view(tys: Seq<SemanticType>) -> Seq<SemanticTypeView>
    decreases tys,
{
    Seq::new(
        tys.len(),
        |i: int|
            if 0 <= i < tys.len() {
                type_view(tys[i])
            } else {
                SemanticTypeView::Never
            },
    )
}

impl View for SemanticType {
    type V = SemanticTypeView;

    open spec fn view(&self) -> SemanticTypeView {
        type_view(*self)
    }
}

/// A number above the index of every definition that `ty` names.
pub open spec fn ty_bound(ty: SemanticTypeView) -> nat
    decreases ty,
{
    match ty {
        SemanticTypeView::Adt { def, args } => vstd::math::max(
            def.index + 1,
            tys_bound(args) as int,
        ) as nat,
        SemanticTypeView::FnDef { def, args } => vstd::math::max(
            def.index + 1,
            tys_bound(args) as int,
        ) as nat,
        SemanticTypeView::Foreign { def } => (def.index + 1) as nat,
        SemanticTypeView::Array { elem, len } => match len {
            ArrayLen::Value(_) => ty_bound(*elem),
            ArrayLen::Unevaluated(def) => vstd::math::max(
                def.index + 1,
                ty_bound(*elem) as int,
            ) as nat,
        },
        SemanticTypeView::Slice { elem } => ty_bound(*elem),
        SemanticTypeView::RawPtr { pointee, .. } => ty_bound(*pointee),
        SemanticTypeView::Ref { pointee, .. } => ty_bound(*pointee),
        SemanticTypeView::Tuple { elems } => tys_bound(elems),
        _ => 0,
    }
}

/// A number above the index of every definition that one of `tys` names.
pub open spec fn tys_bound(tys: Seq<SemanticTypeView>) -> nat
    decreases tys,
{
    if tys.len() == 0 {
        0
    } else {
        vstd::math::max(ty_bound(tys.last()) as int, tys_bound(tys.drop_last()) as int) as nat
    }
}

/// Each type of a sequence names only definitions under the bound of the
/// sequence.
pub proof fn lemma_tys_bound_index(tys: Seq<SemanticTypeView>, i: int)
    requires
        0 <= i < tys.len(),
    ensures
        ty_bound(tys[i]) <= tys_bound(tys),
    decreases tys.len(),
{
    if i < tys.len() - 1 {
        lemma_tys_bound_index(tys.drop_last(), i);
    }
}

/// A number that bounds each type of a sequence bounds the sequence.
pub proof fn lemma_tys_bound_le(tys: Seq<SemanticTypeView>, limit: nat)
    requires
        forall|i: int| 0 <= i < tys.len() ==> ty_bound(#[trigger] tys[i]) <= limit,
    ensures
        tys_bound(tys) <= limit,
    decreases tys.len(),
{
    if tys.len() > 0 {
        lemma_tys_bound_le(tys.drop_last(), limit);
    }
}

/// The number of nodes of `ty`, where an aggregate counts twice.
pub open spec fn ty_size(ty: SemanticTypeView) -> nat
    decreases ty,
{
    match ty {
        SemanticTypeView::Adt { args, .. } => 2 + tys_size(args),
        SemanticTypeView::FnDef { args, .. } => 2 + tys_size(args),
        SemanticTypeView::Foreign { .. } => 2,
        SemanticTypeView::Array { elem, .. } => 1 + ty_size(*elem),
        SemanticTypeView::Slice { elem } => 1 + ty_size(*elem),
        SemanticTypeView::RawPtr { pointee, .. } => 1 + ty_size(*pointee),
        SemanticTypeView::Ref { pointee, .. } => 1 + ty_size(*pointee),
        SemanticTypeView::Tuple { elems } => 1 + tys_size(elems),
        _ => 1,
    }
}

/// The number of nodes of all of `tys`.
pub open spec fn tys_size(tys: Seq<SemanticTypeView>) -> nat
    decreases tys,
{
    if tys.len() == 0 {
        0
    } else {
        ty_size(tys.last()) + tys_size(tys.drop_last())
    }
}

/// Each type of a sequence is no larger than the sequence.
pub proof fn lemma_tys_size_index(tys: Seq<SemanticTypeView>, i: int)
    requires
        0 <= i < tys.len(),
    ensures
        ty_size(tys[i]) <= tys_size(tys),
    decreases tys.len(),
{
    if i < tys.len() - 1 {
        lemma_tys_size_index(tys.drop_last(), i);
    }
}

/// The values of a sequence of types are the values of its members.
pub proof fn lemma_types_view(tys: Seq<SemanticType>)
    ensures
        types_view(tys).len() == tys.len(),
        forall|i: int| 0 <= i < tys.len() ==> (#[trigger] types_view(tys)[i]) == tys[i]@,
{
}

} // verus!
