//! `AstEquiv` trait for checking equivalence of two ASTs.
use crate::ast::{
    lemma_segments_view, lemma_tys_view, qself_view, segments_view, tys_view, Expr, Lit, Path,
    PathSegment, QSelf, Ty,
};
use vstd::prelude::*;

verus! {

/// Trait for checking equivalence of AST nodes: whether two nodes have the
/// same shape and hold the same names and values.
pub trait AstEquiv {
    /// Whether the two nodes are equivalent.
    spec fn equiv(&self, other: &Self) -> bool;

    fn ast_equiv(&self, other: &Self) -> (same: bool)
        ensures
            same == self.equiv(other),
    ;
}

/// Whether two byte strings hold the same bytes.
fn bytes_equiv(a: &Vec<u8>, b: &Vec<u8>) -> (same: bool)
    ensures
        same == (a@ == b@),
{
    if a.len() != b.len() {
        return false;
    }
    let mut i: usize = 0;
    while i < a.len()
        invariant
            i <= a.len(),
            a.len() == b.len(),
            forall|j: int| 0 <= j < i ==> a@[j] == b@[j],
        decreases a.len() - i,
    {
        if a[i] != b[i] {
            return false;
        }
        i = i + 1;
    }
    assert(a@ =~= b@);
    true
}

impl AstEquiv for Lit {
    open spec fn equiv(&self, other: &Self) -> bool {
        self@ == other@
    }

    fn ast_equiv(&self, other: &Self) -> (same: bool) {
        match (self, other) {
            (Lit::Str(a), Lit::Str(b)) => *a == *b,
            (Lit::ByteStr(a), Lit::ByteStr(b)) => bytes_equiv(a, b),
            (Lit::Byte(a), Lit::Byte(b)) => *a == *b,
            (Lit::Char(a), Lit::Char(b)) => *a == *b,
            (Lit::Int(a, s), Lit::Int(b, t)) => *a == *b && *s == *t,
            (Lit::Float(a, s), Lit::Float(b, t)) => *a == *b && *s == *t,
            (Lit::FloatUnsuffixed(a), Lit::FloatUnsuffixed(b)) => *a == *b,
            (Lit::Bool(a), Lit::Bool(b)) => *a == *b,
            (Lit::Error(a), Lit::Error(b)) => *a == *b,
            _ => false,
        }
    }
}

/// Whether two sequences of type expressions are equivalent.
pub fn tys_equiv(a: &Vec<Ty>, b: &Vec<Ty>) -> (same: bool)
    ensures
        same == (tys_view(a@) == tys_view(b@)),
    decreases a@,
{
    proof {
        lemma_tys_view(a@);
        lemma_tys_view(b@);
    }
    if a.len() != b.len() {
        return false;
    }
    let mut i: usize = 0;
    while i < a.len()
        invariant
            i <= a.len(),
            a.len() == b.len(),
            tys_view(a@).len() == a@.len(),
            tys_view(b@).len() == b@.len(),
            forall|j: int| 0 <= j < a@.len() ==> (#[trigger] tys_view(a@)[j]) == a@[j]@,
            forall|j: int| 0 <= j < b@.len() ==> (#[trigger] tys_view(b@)[j]) == b@[j]@,
            forall|j: int| 0 <= j < i ==> a@[j]@ == b@[j]@,
        decreases a.len() - i,
    {
        if !a[i].ast_equiv(&b[i]) {
            assert(tys_view(a@)[i as int] != tys_view(b@)[i as int]);
            return false;
        }
        i = i + 1;
    }
    assert(tys_view(a@) =~= tys_view(b@));
    true
}

/// Whether two optional self-type qualifiers are equivalent.
pub fn qself_equiv(a: &Option<QSelf>, b: &Option<QSelf>) -> (same: bool)
    ensures
        same == (qself_view(*a) == qself_view(*b)),
    decreases a,
{
    match (a, b) {
        (Some(p), Some(q)) => p.ast_equiv(q),
        (None, None) => true,
        _ => false,
    }
}

impl AstEquiv for Ty {
    open spec fn equiv(&self, other: &Self) -> bool {
        self@ == other@
    }

    fn ast_equiv(&self, other: &Self) -> (same: bool)
        decreases self,
    {
        match (self, other) {
            (Ty::Path { qself: qa, path: a }, Ty::Path { qself: qb, path: b }) => {
                qself_equiv(qa, qb) && a.ast_equiv(b)
            },
            (Ty::Array { elem: e1, len: l1 }, Ty::Array { elem: e2, len: l2 }) => {
                (&**e1).ast_equiv(&**e2) && (&**l1).ast_equiv(&**l2)
            },
            (Ty::Slice { elem: e1 }, Ty::Slice { elem: e2 }) => (&**e1).ast_equiv(&**e2),
            (Ty::Ptr { mutbl: ma, pointee: a }, Ty::Ptr { mutbl: mb, pointee: b }) => {
                *ma == *mb && (&**a).ast_equiv(&**b)
            },
            (Ty::Ref { mutbl: ma, pointee: a }, Ty::Ref { mutbl: mb, pointee: b }) => {
                *ma == *mb && (&**a).ast_equiv(&**b)
            },
            (Ty::Never, Ty::Never) => true,
            (Ty::Tuple { elems: e1 }, Ty::Tuple { elems: e2 }) => tys_equiv(e1, e2),
            (Ty::Infer, Ty::Infer) => true,
            _ => false,
        }
    }
}

impl AstEquiv for QSelf {
    open spec fn equiv(&self, other: &Self) -> bool {
        self@ == other@
    }

    fn ast_equiv(&self, other: &Self) -> (same: bool)
        decreases self,
    {
        self.position == other.position && (&*self.ty).ast_equiv(&*other.ty)
    }
}

impl AstEquiv for PathSegment {
    open spec fn equiv(&self, other: &Self) -> bool {
        self@ == other@
    }

    fn ast_equiv(&self, other: &Self) -> (same: bool)
        decreases self,
    {
        if !(self.ident == other.ident) {
            return false;
        }
        match (&self.args, &other.args) {
            (Some(a), Some(b)) => tys_equiv(a, b),
            (None, None) => true,
            _ => false,
        }
    }
}

impl AstEquiv for Path {
    open spec fn equiv(&self, other: &Self) -> bool {
        self@ == other@
    }

    fn ast_equiv(&self, other: &Self) -> (same: bool)
        decreases self,
    {
        let a = &self.segments;
        let b = &other.segments;
        proof {
            lemma_segments_view(a@);
            lemma_segments_view(b@);
        }
        if a.len() != b.len() {
            return false;
        }
        let mut i: usize = 0;
        while i < a.len()
            invariant
                i <= a.len(),
                a.len() == b.len(),
                a == &self.segments,
                b == &other.segments,
                segments_view(a@).len() == a@.len(),
                segments_view(b@).len() == b@.len(),
                forall|j: int| 0 <= j < a@.len() ==> (#[trigger] segments_view(a@)[j]) == a@[j]@,
                forall|j: int| 0 <= j < b@.len() ==> (#[trigger] segments_view(b@)[j]) == b@[j]@,
                forall|j: int| 0 <= j < i ==> a@[j]@ == b@[j]@,
            decreases a.len() - i,
        {
            if !a[i].ast_equiv(&b[i]) {
                assert(segments_view(a@)[i as int] != segments_view(b@)[i as int]);
                return false;
            }
            i = i + 1;
        }
        assert(segments_view(a@) =~= segments_view(b@));
        true
    }
}

impl AstEquiv for Expr {
    open spec fn equiv(&self, other: &Self) -> bool {
        self@ == other@
    }

    fn ast_equiv(&self, other: &Self) -> (same: bool)
        decreases self,
    {
        match (self, other) {
            (Expr::Lit { lit: a }, Expr::Lit { lit: b }) => a.ast_equiv(b),
            (Expr::Unary { op: o1, operand: a }, Expr::Unary { op: o2, operand: b }) => {
                *o1 == *o2 && (&**a).ast_equiv(&**b)
            },
            (
                Expr::Binary { op: o1, lhs: l1, rhs: r1 },
                Expr::Binary { op: o2, lhs: l2, rhs: r2 },
            ) => *o1 == *o2 && (&**l1).ast_equiv(&**l2) && (&**r1).ast_equiv(&**r2),
            (Expr::Path { qself: qa, path: a }, Expr::Path { qself: qb, path: b }) => {
                qself_equiv(qa, qb) && a.ast_equiv(b)
            },
            (Expr::Type { expr: e1, ty: t1 }, Expr::Type { expr: e2, ty: t2 }) => {
                (&**e1).ast_equiv(&**e2) && (&**t1).ast_equiv(&**t2)
            },
            _ => false,
        }
    }
}

} // verus!
