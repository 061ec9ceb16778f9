//! Substitution of generic arguments for the parameters of a type, and the
//! proof that reflection under a binding of the parameters does the same.
use crate::ast::PathSegmentView;
use crate::model::{ModelView, NonPrintable, PathComponentView};
use crate::reflect::{
    ascend_spec, emitted_name, named_ty, reflect_def_path_spec, reflect_range_spec, reflect_ty_spec,
    remaining_after, writes_args, ModeView,
};
use crate::semantic::{DefId, SemanticTypeView};
use vstd::prelude::*;

verus! {

/// The type `ty` with each parameter replaced by the argument at the index
/// of the parameter. A parameter without an argument stays.
pub open spec fn subst_spec(ty: SemanticTypeView, args: Seq<SemanticTypeView>) -> SemanticTypeView
    decreases ty,
{
    match ty {
        SemanticTypeView::Adt { def, args: own } => SemanticTypeView::Adt {
            def,
            args: substs_spec(own, args),
        },
        SemanticTypeView::FnDef { def, args: own } => SemanticTypeView::FnDef {
            def,
            args: substs_spec(own, args),
        },
        SemanticTypeView::Array { elem, len } => SemanticTypeView::Array {
            elem: Box::new(subst_spec(*elem, args)),
            len,
        },
        SemanticTypeView::Slice { elem } => SemanticTypeView::Slice {
            elem: Box::new(subst_spec(*elem, args)),
        },
        SemanticTypeView::RawPtr { mutbl, pointee } => SemanticTypeView::RawPtr {
            mutbl,
            pointee: Box::new(subst_spec(*pointee, args)),
        },
        SemanticTypeView::Ref { mutbl, pointee } => SemanticTypeView::Ref {
            mutbl,
            pointee: Box::new(subst_spec(*pointee, args)),
        },
        SemanticTypeView::Tuple { elems } => SemanticTypeView::Tuple {
            elems: substs_spec(elems, args),
        },
        SemanticTypeView::Param { index, .. } => if index < args.len() {
            args[index as int]
        } else {
            ty
        },
        _ => ty,
    }
}

/// Each of `tys` with its parameters replaced by `args`.
pub open spec fn substs_spec(tys: Seq<SemanticTypeView>, args: Seq<SemanticTypeView>) -> Seq<
    SemanticTypeView,
>
    decreases tys,
{
    Seq::new(
        tys.len(),
        |i: int|
            if 0 <= i < tys.len() {
                subst_spec(tys[i], args)
            } else {
                SemanticTypeView::Never
            },
    )
}

/// The binding under which a parameter is written as the reflection of its
/// argument.
pub open spec fn binding(m: ModelView, args: Seq<SemanticTypeView>) -> ModeView {
    ModeView::Bound { env: reflect_range_spec(m, args, 0, args.len(), ModeView::Concrete) }
}

/// The reflections of a range of types stand in the order of the types.
pub proof fn lemma_reflect_range_index(
    m: ModelView,
    tys: Seq<SemanticTypeView>,
    lo: nat,
    hi: nat,
    mode: ModeView,
)
    requires
        lo <= hi <= tys.len(),
    ensures
        reflect_range_spec(m, tys, lo, hi, mode).len() == hi - lo,
        forall|i: int|
            0 <= i < hi - lo ==> (#[trigger] reflect_range_spec(m, tys, lo, hi, mode)[i])
                == reflect_ty_spec(m, tys[lo + i], mode),
    decreases hi - lo,
{
    if lo < hi {
        lemma_reflect_range_index(m, tys, lo, (hi - 1) as nat, mode);
    }
}

/// Substituting arguments for the parameters of a type and reflecting the
/// result is reflecting the type under the binding of the parameters to the
/// reflected arguments.
pub proof fn lemma_reflect_subst(m: ModelView, ty: SemanticTypeView, args: Seq<SemanticTypeView>)
    requires
        m.wf(),
        m.contains_ty(ty),
    ensures
        reflect_ty_spec(m, subst_spec(ty, args), ModeView::Concrete) == reflect_ty_spec(
            m,
            ty,
            binding(m, args),
        ),
    decreases ty, 0nat, 0nat,
{
    match ty {
        SemanticTypeView::Adt { def, args: own } => {
            crate::reflect::lemma_contains_adt(m, def, own);
            lemma_ascend_subst(m, def, own, Some(own.len()), args, Seq::empty());
            let replaced = substs_spec(own, args);
            assert(replaced.len() == own.len());
            assert(reflect_def_path_spec(m, def, Some(replaced), ModeView::Concrete)
                == reflect_def_path_spec(m, def, Some(own), binding(m, args)));
            assert(subst_spec(ty, args) == SemanticTypeView::Adt { def, args: replaced });
            assert(reflect_ty_spec(m, subst_spec(ty, args), ModeView::Concrete) == named_ty(
                reflect_def_path_spec(m, def, Some(replaced), ModeView::Concrete),
            ));
            assert(reflect_ty_spec(m, ty, binding(m, args)) == named_ty(
                reflect_def_path_spec(m, def, Some(own), binding(m, args)),
            ));
        },
        SemanticTypeView::Foreign { def } => {
            lemma_ascend_without_window(
                m,
                def,
                Seq::empty(),
                ModeView::Concrete,
                binding(m, args),
                Seq::empty(),
            );
            assert(reflect_def_path_spec(m, def, None, ModeView::Concrete)
                == reflect_def_path_spec(m, def, None, binding(m, args)));
        },
        SemanticTypeView::Array { elem, .. } => {
            lemma_reflect_subst(m, *elem, args);
        },
        SemanticTypeView::Slice { elem } => {
            lemma_reflect_subst(m, *elem, args);
        },
        SemanticTypeView::RawPtr { pointee, .. } => {
            lemma_reflect_subst(m, *pointee, args);
        },
        SemanticTypeView::Ref { pointee, .. } => {
            lemma_reflect_subst(m, *pointee, args);
        },
        SemanticTypeView::Tuple { elems } => {
            crate::reflect::lemma_contains_tuple(m, elems);
            lemma_range_subst(m, elems, 0, elems.len(), args);
        },
        SemanticTypeView::Param { index, .. } => {
            lemma_reflect_range_index(m, args, 0, args.len(), ModeView::Concrete);
        },
        _ => {},
    }
}

/// Where no generic arguments are written, the ascent does not depend on
/// how they would be written.
pub proof fn lemma_ascend_without_window(
    m: ModelView,
    id: DefId,
    window: Seq<SemanticTypeView>,
    first: ModeView,
    second: ModeView,
    segments: Seq<PathSegmentView>,
)
    requires
        m.wf(),
        m.contains(id),
    ensures
        ascend_spec(m, id, window, None, first, segments) == ascend_spec(
            m,
            id,
            window,
            None,
            second,
            segments,
        ),
    decreases id.index,
{
    let d = m.def(id);
    assert(m.admits_at(m.defs[id.index as int], id.index as nat));
    match d.component {
        PathComponentView::CrateRoot => {},
        PathComponentView::Impl { .. } => {},
        PathComponentView::ValueNs { .. } if segments.len() > 0 => {},
        PathComponentView::NonPrintable { kind: NonPrintable::Ctor } => {
            if let Some(p) = d.parent {
                lemma_ascend_without_window(m, p, window, first, second, segments);
            }
        },
        _ => {
            let name = emitted_name(d.component, segments.len() > 0);
            let longer = match name {
                Some(ident) => segments.push(PathSegmentView { ident, args: None }),
                None => segments,
            };
            if let Some(p) = m.next(id) {
                lemma_ascend_without_window(m, p, window, first, second, longer);
            }
        },
    }
}

/// Reflection of a range of substituted types is reflection of the range
/// under the binding.
pub proof fn lemma_range_subst(
    m: ModelView,
    tys: Seq<SemanticTypeView>,
    lo: nat,
    hi: nat,
    args: Seq<SemanticTypeView>,
)
    requires
        m.wf(),
        m.contains_tys(tys),
    ensures
        reflect_range_spec(m, substs_spec(tys, args), lo, hi, ModeView::Concrete)
            == reflect_range_spec(m, tys, lo, hi, binding(m, args)),
    decreases tys, 0nat, (hi - lo + 1) as nat,
{
    if lo < hi <= tys.len() {
        lemma_range_subst(m, tys, lo, (hi - 1) as nat, args);
        lemma_reflect_subst(m, tys[hi - 1], args);
    }
}

/// The ascent with a window of substituted arguments is the ascent with the
/// window under the binding.
pub proof fn lemma_ascend_subst(
    m: ModelView,
    id: DefId,
    window: Seq<SemanticTypeView>,
    remaining: Option<nat>,
    args: Seq<SemanticTypeView>,
    segments: Seq<PathSegmentView>,
)
    requires
        m.wf(),
        m.contains(id),
        m.contains_tys(window),
    ensures
        ascend_spec(m, id, substs_spec(window, args), remaining, ModeView::Concrete, segments)
            == ascend_spec(m, id, window, remaining, binding(m, args), segments),
    decreases window, 1nat, id.index,
{
    let d = m.def(id);
    let replaced = substs_spec(window, args);
    let bound = binding(m, args);
    assert(m.admits_at(m.defs[id.index as int], id.index as nat));
    match d.component {
        PathComponentView::CrateRoot => {},
        PathComponentView::Impl { self_ty } => {
            if let Some(k) = remaining {
                lemma_range_subst(m, window, 0, k, args);
            }
        },
        PathComponentView::ValueNs { .. } if segments.len() > 0 => {},
        PathComponentView::NonPrintable { kind: NonPrintable::Ctor } => {
            if let Some(p) = d.parent {
                lemma_ascend_subst(m, p, window, remaining, args, segments);
            }
        },
        _ => {
            let name = emitted_name(d.component, segments.len() > 0);
            let left = remaining_after(name, d.kind, d.generics, remaining);
            if writes_args(name, d.kind, remaining) {
                lemma_range_subst(m, window, left->0, remaining->0, args);
            }
            let longer = match name {
                Some(ident) => segments.push(
                    PathSegmentView {
                        ident,
                        args: if writes_args(name, d.kind, remaining) {
                            Some(reflect_range_spec(m, window, left->0, remaining->0, bound))
                        } else {
                            None
                        },
                    },
                ),
                None => segments,
            };
            if let Some(p) = m.next(id) {
                lemma_ascend_subst(m, p, window, left, args, longer);
            }
        },
    }
}

} // verus!
