//! Surface syntax: type expressions, paths and the expressions that occur
//! in them.
use crate::semantic::{FloatTy, IntTy, Mutability, UintTy};
use vstd::prelude::*;

verus! {

/// A unary operator.
#[derive(Clone, Copy, Debug, PartialEq, Eq, Hash, Structural)]
pub enum UnOp {
    Deref,
    Not,
    Neg,
}

/// A binary operator.
#[derive(Clone, Copy, Debug, PartialEq, Eq, Hash, Structural)]
pub enum BinOpKind {
    Add,
    Sub,
    Mul,
    Div,
    Rem,
    And,
    Or,
    BitXor,
    BitAnd,
    BitOr,
    Shl,
    Shr,
    Eq,
    Lt,
    Le,
    Ne,
    Ge,
    Gt,
}

/// The type suffix of an integer literal.
#[derive(Clone, Copy, Debug, PartialEq, Eq, Hash, Structural)]
pub enum LitIntType {
    Signed(IntTy),
    Unsigned(UintTy),
    Unsuffixed,
}

/// The mathematical value of a literal.
pub enum LitView {
    Str(Seq<char>),
    ByteStr(Seq<u8>),
    Byte(u8),
    Char(char),
    Int(u128, LitIntType),
    Float(Seq<char>, FloatTy),
    FloatUnsuffixed(Seq<char>),
    Bool(bool),
    Error(Seq<char>),
}

/// A literal. A floating-point literal holds its digits as written, and a
/// literal that could not be read holds the symbol that stands for it.
#[derive(Debug, PartialEq, Eq)]
pub enum Lit {
    Str(String),
    ByteStr(Vec<u8>),
    Byte(u8),
    Char(char),
    Int(u128, LitIntType),
    Float(String, FloatTy),
    FloatUnsuffixed(String),
    Bool(bool),
    Error(String),
}

impl View for Lit {
    type V = LitView;

    open spec fn view(&self) -> LitView {
        match self {
            Lit::Str(s) => LitView::Str(s@),
            Lit::ByteStr(b) => LitView::ByteStr(b@),
            Lit::Byte(b) => LitView::Byte(*b),
            Lit::Char(c) => LitView::Char(*c),
            Lit::Int(v, t) => LitView::Int(*v, *t),
            Lit::Float(s, t) => LitView::Float(s@, *t),
            Lit::FloatUnsuffixed(s) => LitView::FloatUnsuffixed(s@),
            Lit::Bool(b) => LitView::Bool(*b),
            Lit::Error(s) => LitView::Error(s@),
        }
    }
}

impl Clone for Lit {
    fn clone(&self) -> (res: Self)
        ensures
            res@ == self@,
    {
        match self {
            Lit::Str(s) => Lit::Str(s.clone()),
            Lit::ByteStr(b) => Lit::ByteStr(b.clone()),
            Lit::Byte(b) => Lit::Byte(*b),
            Lit::Char(c) => Lit::Char(*c),
            Lit::Int(v, t) => Lit::Int(*v, *t),
            Lit::Float(s, t) => Lit::Float(s.clone(), *t),
            Lit::FloatUnsuffixed(s) => Lit::FloatUnsuffixed(s.clone()),
            Lit::Bool(b) => Lit::Bool(*b),
            Lit::Error(s) => Lit::Error(s.clone()),
        }
    }
}

/// The mathematical value of a type expression.
pub enum TyView {
    Path { qself: Option<QSelfView>, path: PathView },
    Array { elem: Box<TyView>, len: Box<ExprView> },
    Slice { elem: Box<TyView> },
    Ptr { mutbl: Mutability, pointee: Box<TyView> },
    Ref { mutbl: Mutability, pointee: Box<TyView> },
    Never,
    Tuple { elems: Seq<TyView> },
    Infer,
}

/// The mathematical value of a self-type qualifier.
pub struct QSelfView {
    pub ty: Box<TyView>,
    pub position: nat,
}

/// The mathematical value of a path.
pub struct PathView {
    pub segments: Seq<PathSegmentView>,
}

/// The mathematical value of a path segment.
pub struct PathSegmentView {
    pub ident: Seq<char>,
    pub args: Option<Seq<TyView>>,
}

/// The mathematical value of an expression.
#[allow(inconsistent_fields)]
pub enum ExprView {
    Lit { lit: LitView },
    Unary { op: UnOp, operand: Box<ExprView> },
    Binary { op: BinOpKind, lhs: Box<ExprView>, rhs: Box<ExprView> },
    Path { qself: Option<QSelfView>, path: PathView },
    Type { expr: Box<ExprView>, ty: Box<TyView> },
}

/// A type expression.
#[derive(Debug, PartialEq, Eq)]
pub enum Ty {
    /// A named type, possibly qualified by a self type.
    Path { qself: Option<QSelf>, path: Path },
    /// `[elem; len]`
    Array { elem: Box<Ty>, len: Box<Expr> },
    /// `[elem]`
    Slice { elem: Box<Ty> },
    /// `*const pointee` or `*mut pointee`
    Ptr { mutbl: Mutability, pointee: Box<Ty> },
    /// `&pointee` or `&mut pointee`
    Ref { mutbl: Mutability, pointee: Box<Ty> },
    /// `!`
    Never,
    /// `(elems, ..)`
    Tuple { elems: Vec<Ty> },
    /// `_`, a placeholder that leaves the type to inference.
    Infer,
}

/// The self type of a qualified path, `<ty>::..`, with the number of path
/// segments that belong to the qualifier.
#[derive(Debug, PartialEq, Eq)]
pub struct QSelf {
    pub ty: Box<Ty>,
    pub position: usize,
}

/// A path: named segments, outermost first.
#[derive(Debug, PartialEq, Eq)]
pub struct Path {
    pub segments: Vec<PathSegment>,
}

/// One segment of a path, with the generic arguments written at it, if any.
#[derive(Debug, PartialEq, Eq)]
pub struct PathSegment {
    pub ident: String,
    pub args: Option<Vec<Ty>>,
}

/// An expression.
#[allow(inconsistent_fields)]
#[derive(Debug, PartialEq, Eq)]
pub enum Expr {
    Lit { lit: Lit },
    Unary { op: UnOp, operand: Box<Expr> },
    Binary { op: BinOpKind, lhs: Box<Expr>, rhs: Box<Expr> },
    /// A path in expression position, possibly qualified by a self type.
    Path { qself: Option<QSelf>, path: Path },
    /// `expr: ty`
    Type { expr: Box<Expr>, ty: Box<Ty> },
}

/// The value of a type expression.
pub open spec fn ty_view(ty: Ty) -> TyView
    decreases ty,
{
    match ty {
        Ty::Path { qself, path } => TyView::Path {
            qself: qself_view(qself),
            path: path_view(path),
        },
        Ty::Array { elem, len } => TyView::Array {
            elem: Box::new(ty_view(*elem)),
            len: Box::new(expr_view(*len)),
        },
        Ty::Slice { elem } => TyView::Slice { elem: Box::new(ty_view(*elem)) },
        Ty::Ptr { mutbl, pointee } => TyView::Ptr { mutbl, pointee: Box::new(ty_view(*pointee)) },
        Ty::Ref { mutbl, pointee } => TyView::Ref { mutbl, pointee: Box::new(ty_view(*pointee)) },
        Ty::Never => TyView::Never,
        Ty::Tuple { elems } => TyView::Tuple { elems: tys_view(elems@) },
        Ty::Infer => TyView::Infer,
    }
}

/// The values of a sequence of type expressions, in order.
pub open spec fn tys_view(tys: Seq<Ty>) -> Seq<TyView>
    decreases tys,
{
    Seq::new(
        tys.len(),
        |i: int|
            if 0 <= i < tys.len() {
                ty_view(tys[i])
            } else {
                TyView::Infer
            },
    )
}

/// The value of an optional self-type qualifier.
pub open spec fn qself_view(qself: Option<QSelf>) -> Option<QSelfView>
    decreases qself,
{
    match qself {
        Some(q) => Some(QSelfView { ty: Box::new(ty_view(*q.ty)), position: q.position as nat }),
        None => None,
    }
}

/// The value of a path.
pub open spec fn path_view(path: Path) -> PathView
    decreases path,
{
    PathView { segments: segments_view(path.segments@) }
}

/// The value of a path segment.
pub open spec fn segment_view(segment: PathSegment) -> PathSegmentView
    decreases segment,
{
    PathSegmentView {
        ident: segment.ident@,
        args: match segment.args {
            Some(tys) => Some(tys_view(tys@)),
            None => None,
        },
    }
}

/// The values of a sequence of path segments, in order.
pub open spec fn segments_view(segments: Seq<PathSegment>) -> Seq<PathSegmentView>
    decreases segments,
{
    Seq::new(
        segments.len(),
        |i: int|
            if 0 <= i < segments.len() {
                segment_view(segments[i])
            } else {
                PathSegmentView { ident: Seq::empty(), args: None }
            },
    )
}

/// The value of an expression.
pub open spec fn expr_view(expr: Expr) -> ExprView
    decreases expr,
{
    match expr {
        Expr::Lit { lit } => ExprView::Lit { lit: lit@ },
        Expr::Unary { op, operand } => ExprView::Unary {
            op,
            operand: Box::new(expr_view(*operand)),
        },
        Expr::Binary { op, lhs, rhs } => ExprView::Binary {
            op,
            lhs: Box::new(expr_view(*lhs)),
            rhs: Box::new(expr_view(*rhs)),
        },
        Expr::Path { qself, path } => ExprView::Path {
            qself: qself_view(qself),
            path: path_view(path),
        },
        Expr::Type { expr, ty } => ExprView::Type {
            expr: Box::new(expr_view(*expr)),
            ty: Box::new(ty_view(*ty)),
        },
    }
}

impl View for Ty {
    type V = TyView;

    open spec fn view(&self) -> TyView {
        ty_view(*self)
    }
}

impl View for QSelf {
    type V = QSelfView;

    open spec fn view(&self) -> QSelfView {
        QSelfView { ty: Box::new(ty_view(*self.ty)), position: self.position as nat }
    }
}

impl View for Path {
    type V = PathView;

    open spec fn view(&self) -> PathView {
        path_view(*self)
    }
}

impl View for PathSegment {
    type V = PathSegmentView;

    open spec fn view(&self) -> PathSegmentView {
        segment_view(*self)
    }
}

impl View for Expr {
    type V = ExprView;

    open spec fn view(&self) -> ExprView {
        expr_view(*self)
    }
}

/// The values of a sequence of type expressions are the values of its
/// members.
pub proof fn lemma_tys_view(tys: Seq<Ty>)
    ensures
        tys_view(tys).len() == tys.len(),
        forall|i: int| 0 <= i < tys.len() ==> (#[trigger] tys_view(tys)[i]) == tys[i]@,
{
}

/// The values of a sequence of path segments are the values of its members.
pub proof fn lemma_segments_view(segments: Seq<PathSegment>)
    ensures
        segments_view(segments).len() == segments.len(),
        forall|i: int|
            0 <= i < segments.len() ==> (#[trigger] segments_view(segments)[i]) == segments[i]@,
{
}

/// The values of a sequence with one more type expression at its end.
pub proof fn lemma_tys_view_push(tys: Seq<Ty>, ty: Ty)
    ensures
        tys_view(tys.push(ty)) == tys_view(tys).push(ty@),
{
    assert(tys_view(tys.push(ty)) =~= tys_view(tys).push(ty@));
}

/// The values of a sequence with one more path segment at its end.
pub proof fn lemma_segments_view_push(segments: Seq<PathSegment>, segment: PathSegment)
    ensures
        segments_view(segments.push(segment)) == segments_view(segments).push(segment@),
{
    assert(segments_view(segments.push(segment)) =~= segments_view(segments).push(segment@));
}

/// Copies a sequence of type expressions.
pub fn clone_tys(tys: &Vec<Ty>) -> (res: Vec<Ty>)
    ensures
        tys_view(res@) == tys_view(tys@),
    decreases tys@,
{
    let mut res: Vec<Ty> = Vec::new();
    let mut i: usize = 0;
    while i < tys.len()
        invariant
            i <= tys.len(),
            res.len() == i,
            forall|j: int| 0 <= j < i ==> res@[j]@ == tys@[j]@,
        decreases tys.len() - i,
    {
        let t = tys[i].clone();
        res.push(t);
        i = i + 1;
    }
    assert(tys_view(res@) =~= tys_view(tys@));
    res
}

/// Copies an optional self-type qualifier.
pub fn clone_qself(qself: &Option<QSelf>) -> (res: Option<QSelf>)
    ensures
        qself_view(res) == qself_view(*qself),
    decreases qself,
{
    match qself {
        Some(q) => Some(q.clone()),
        None => None,
    }
}

impl Clone for Ty {
    fn clone(&self) -> (res: Self)
        ensures
            res@ == self@,
        decreases self,
    {
        match self {
            Ty::Path { qself, path } => Ty::Path { qself: clone_qself(qself), path: path.clone() },
            Ty::Array { elem, len } => Ty::Array {
                elem: Box::new((&**elem).clone()),
                len: Box::new((&**len).clone()),
            },
            Ty::Slice { elem } => Ty::Slice { elem: Box::new((&**elem).clone()) },
            Ty::Ptr { mutbl, pointee } => Ty::Ptr {
                mutbl: *mutbl,
                pointee: Box::new((&**pointee).clone()),
            },
            Ty::Ref { mutbl, pointee } => Ty::Ref {
                mutbl: *mutbl,
                pointee: Box::new((&**pointee).clone()),
            },
            Ty::Never => Ty::Never,
            Ty::Tuple { elems } => Ty::Tuple { elems: clone_tys(elems) },
            Ty::Infer => Ty::Infer,
        }
    }
}

impl Clone for QSelf {
    fn clone(&self) -> (res: Self)
        ensures
            res@ == self@,
        decreases self,
    {
        QSelf { ty: Box::new((&*self.ty).clone()), position: self.position }
    }
}

impl Clone for PathSegment {
    fn clone(&self) -> (res: Self)
        ensures
            res@ == self@,
        decreases self,
    {
        PathSegment {
            ident: self.ident.clone(),
            args: match &self.args {
                Some(tys) => Some(clone_tys(tys)),
                None => None,
            },
        }
    }
}

impl Clone for Path {
    fn clone(&self) -> (res: Self)
        ensures
            res@ == self@,
        decreases self,
    {
        let mut segments: Vec<PathSegment> = Vec::new();
        let mut i: usize = 0;
        while i < self.segments.len()
            invariant
                i <= self.segments.len(),
                segments.len() == i,
                forall|j: int| 0 <= j < i ==> segments@[j]@ == self.segments@[j]@,
            decreases self.segments.len() - i,
        {
            let seg = self.segments[i].clone();
            segments.push(seg);
            i = i + 1;
        }
        assert(segments_view(segments@) =~= segments_view(self.segments@));
        Path { segments }
    }
}

impl Clone for Expr {
    fn clone(&self) -> (res: Self)
        ensures
            res@ == self@,
        decreases self,
    {
        match self {
            Expr::Lit { lit } => Expr::Lit { lit: lit.clone() },
            Expr::Unary { op, operand } => Expr::Unary {
                op: *op,
                operand: Box::new((&**operand).clone()),
            },
            Expr::Binary { op, lhs, rhs } => Expr::Binary {
                op: *op,
                lhs: Box::new((&**lhs).clone()),
                rhs: Box::new((&**rhs).clone()),
            },
            Expr::Path { qself, path } => Expr::Path {
                qself: clone_qself(qself),
                path: path.clone(),
            },
            Expr::Type { expr, ty } => Expr::Type {
                expr: Box::new((&**expr).clone()),
                ty: Box::new((&**ty).clone()),
            },
        }
    }
}

} // verus!
