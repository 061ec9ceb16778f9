//! Resolution: from a path or a type expression back to the definition or
//! semantic type that it denotes, and the proof that it undoes reflection.
use crate::ast::{ExprView, LitIntType, LitView, PathSegmentView, PathView, TyView};
use crate::model::{ModelView, PathComponentView, LOCAL_CRATE};
use crate::reflect::{
    ascend_spec, plain_segment, reflect_def_path_spec, reflect_range_spec, reflect_ty_spec,
    remaining_after, root_segment, self_segment, writes_args, ModeView,
};
use crate::semantic::{
    float_ty_name, int_ty_name, uint_ty_name, ArrayLen, DefId, FloatTy, IntTy, SemanticTypeView,
    UintTy,
};
use vstd::prelude::*;

verus! {

/// The primitive type with the canonical spelling `name`, if there is one.
pub open spec fn primitive_named(name: Seq<char>) -> Option<SemanticTypeView> {
    if name == "bool"@ {
        Some(SemanticTypeView::Bool)
    } else if name == "char"@ {
        Some(SemanticTypeView::Char)
    } else if name == "str"@ {
        Some(SemanticTypeView::Str)
    } else if name == int_ty_name(IntTy::Isize) {
        Some(SemanticTypeView::Int(IntTy::Isize))
    } else if name == int_ty_name(IntTy::I8) {
        Some(SemanticTypeView::Int(IntTy::I8))
    } else if name == int_ty_name(IntTy::I16) {
        Some(SemanticTypeView::Int(IntTy::I16))
    } else if name == int_ty_name(IntTy::I32) {
        Some(SemanticTypeView::Int(IntTy::I32))
    } else if name == int_ty_name(IntTy::I64) {
        Some(SemanticTypeView::Int(IntTy::I64))
    } else if name == int_ty_name(IntTy::I128) {
        Some(SemanticTypeView::Int(IntTy::I128))
    } else if name == uint_ty_name(UintTy::Usize) {
        Some(SemanticTypeView::Uint(UintTy::Usize))
    } else if name == uint_ty_name(UintTy::U8) {
        Some(SemanticTypeView::Uint(UintTy::U8))
    } else if name == uint_ty_name(UintTy::U16) {
        Some(SemanticTypeView::Uint(UintTy::U16))
    } else if name == uint_ty_name(UintTy::U32) {
        Some(SemanticTypeView::Uint(UintTy::U32))
    } else if name == uint_ty_name(UintTy::U64) {
        Some(SemanticTypeView::Uint(UintTy::U64))
    } else if name == uint_ty_name(UintTy::U128) {
        Some(SemanticTypeView::Uint(UintTy::U128))
    } else if name == float_ty_name(FloatTy::F32) {
        Some(SemanticTypeView::Float(FloatTy::F32))
    } else if name == float_ty_name(FloatTy::F64) {
        Some(SemanticTypeView::Float(FloatTy::F64))
    } else {
        None
    }
}

/// Whether `id` is the root of the compilation unit with number `krate`.
pub open spec fn is_root_of(m: ModelView, id: DefId, krate: usize) -> bool {
    m.contains(id) && m.def(id).component is CrateRoot && m.def(id).krate == krate
}

/// Whether `id` is the entry `name` of the type namespace directly under
/// `parent`, as the ascent sees it.
pub open spec fn is_child_named(m: ModelView, id: DefId, parent: DefId, name: Seq<char>) -> bool {
    &&& m.contains(id)
    &&& m.next(id) == Some(parent)
    &&& m.def(id).component == (PathComponentView::TypeNs { name })
}

/// Whether names in the model denote at most one thing: no two units share
/// a name, no unit has two roots, and no definition has two entries of one
/// name in its type namespace.
pub open spec fn unambiguous(m: ModelView) -> bool {
    &&& forall|i: int, j: int|
        0 <= i < m.crates.len() && 0 <= j < m.crates.len() && #[trigger] m.crates[i]
            == #[trigger] m.crates[j] ==> i == j
    &&& forall|a: DefId, b: DefId, krate: usize|
        #[trigger] is_root_of(m, a, krate) && #[trigger] is_root_of(m, b, krate) ==> a == b
    &&& forall|a: DefId, b: DefId, parent: DefId, name: Seq<char>|
        #[trigger] is_child_named(m, a, parent, name) && #[trigger] is_child_named(
            m,
            b,
            parent,
            name,
        ) ==> a == b
}

/// The root of the compilation unit with number `krate`, if the model holds
/// one.
pub open spec fn root_of(m: ModelView, krate: usize) -> Option<DefId> {
    if exists|id: DefId| is_root_of(m, id, krate) {
        Some(choose|id: DefId| is_root_of(m, id, krate))
    } else {
        None
    }
}

/// The number of the compilation unit, other than the local one, with the
/// declared name `name`, if there is one.
pub open spec fn crate_named(m: ModelView, name: Seq<char>) -> Option<usize> {
    if exists|k: usize| k != LOCAL_CRATE && k < m.crates.len() && m.crates[k as int] == name {
        Some(choose|k: usize| k != LOCAL_CRATE && k < m.crates.len() && m.crates[k as int] == name)
    } else {
        None
    }
}

/// The entry `name` of the type namespace under `parent`, if there is one.
pub open spec fn child_named(m: ModelView, parent: DefId, name: Seq<char>) -> Option<DefId> {
    if exists|id: DefId| is_child_named(m, id, parent, name) {
        Some(choose|id: DefId| is_child_named(m, id, parent, name))
    } else {
        None
    }
}

/// The semantic type that a type expression denotes over the model, if it
/// denotes one.
pub open spec fn resolve_ty_spec(m: ModelView, ast: TyView) -> Option<SemanticTypeView>
    decreases ast,
{
    match ast {
        TyView::Path { qself, path } => if qself is Some {
            None
        } else if path.segments.len() == 1 && path.segments[0].args is None && primitive_named(
            path.segments[0].ident,
        ) is Some {
            primitive_named(path.segments[0].ident)
        } else {
            match resolve_segments_spec(m, path.segments) {
                Some((def, args)) => Some(SemanticTypeView::Adt { def, args }),
                None => None,
            }
        },
        TyView::Array { elem, len } => match (resolve_ty_spec(m, *elem), *len) {
            (
                Some(elem_ty),
                ExprView::Lit { lit: LitView::Int(n, LitIntType::Unsigned(UintTy::Usize)) },
            ) => if n <= u64::MAX {
                Some(
                    SemanticTypeView::Array {
                        elem: Box::new(elem_ty),
                        len: ArrayLen::Value(n as u64),
                    },
                )
            } else {
                None
            },
            _ => None,
        },
        TyView::Slice { elem } => match resolve_ty_spec(m, *elem) {
            Some(elem_ty) => Some(SemanticTypeView::Slice { elem: Box::new(elem_ty) }),
            None => None,
        },
        TyView::Ptr { mutbl, pointee } => match resolve_ty_spec(m, *pointee) {
            Some(ty) => Some(SemanticTypeView::RawPtr { mutbl, pointee: Box::new(ty) }),
            None => None,
        },
        TyView::Ref { mutbl, pointee } => match resolve_ty_spec(m, *pointee) {
            Some(ty) => Some(SemanticTypeView::Ref { mutbl, pointee: Box::new(ty) }),
            None => None,
        },
        TyView::Never => Some(SemanticTypeView::Never),
        TyView::Tuple { elems } => match resolve_tys_spec(m, elems) {
            Some(tys) => Some(SemanticTypeView::Tuple { elems: tys }),
            None => None,
        },
        TyView::Infer => None,
    }
}

/// The semantic types that a sequence of type expressions denotes, if each
/// of them denotes one.
pub open spec fn resolve_tys_spec(m: ModelView, asts: Seq<TyView>) -> Option<
    Seq<SemanticTypeView>,
>
    decreases asts,
{
    if asts.len() == 0 {
        Some(Seq::empty())
    } else {
        match (resolve_tys_spec(m, asts.drop_last()), resolve_ty_spec(m, asts.last())) {
            (Some(tys), Some(ty)) => Some(tys.push(ty)),
            _ => None,
        }
    }
}

/// The definition that the segments of a path lead to, outermost first,
/// with the generic arguments written along the path, in the order in which
/// they are written.
pub open spec fn resolve_segments_spec(m: ModelView, segments: Seq<PathSegmentView>) -> Option<
    (DefId, Seq<SemanticTypeView>),
>
    decreases segments,
{
    if segments.len() == 0 {
        None
    } else if segments.len() == 1 && segments[0] == plain_segment(self_segment()) {
        match root_of(m, LOCAL_CRATE) {
            Some(root) => Some((root, Seq::empty())),
            None => None,
        }
    } else if segments.len() == 2 && segments[0] == plain_segment(root_segment())
        && segments[1].args is None {
        match crate_named(m, segments[1].ident) {
            Some(krate) => match root_of(m, krate) {
                Some(root) => Some((root, Seq::empty())),
                None => None,
            },
            None => None,
        }
    } else {
        match resolve_segments_spec(m, segments.drop_last()) {
            Some((parent, outer_args)) => match child_named(m, parent, segments.last().ident) {
                Some(def) => match segments.last().args {
                    Some(asts) => match resolve_tys_spec(m, asts) {
                        Some(tys) => Some((def, outer_args + tys)),
                        None => None,
                    },
                    None => Some((def, outer_args)),
                },
                None => None,
            },
            None => None,
        }
    }
}

/// The definition and the generic arguments that a path denotes.
pub open spec fn resolve_path_spec(m: ModelView, path: PathView) -> Option<
    (DefId, Seq<SemanticTypeView>),
> {
    resolve_segments_spec(m, path.segments)
}

/// Whether the ascent from `id` leads through named entries of the type
/// namespace to the root of a compilation unit.
pub open spec fn reaches_root(m: ModelView, id: DefId) -> bool
    decreases id.index,
    when m.wf() && m.contains(id)
{
    match m.def(id).component {
        PathComponentView::CrateRoot => true,
        PathComponentView::TypeNs { name } => name.len() > 0 && match m.next(id) {
            Some(p) => reaches_root(m, p),
            None => false,
        },
        _ => false,
    }
}

/// How many of `remaining` generic arguments are left unwritten when the
/// ascent from `id` has come to its end.
pub open spec fn left_over(m: ModelView, id: DefId, remaining: nat) -> nat
    decreases id.index,
    when m.wf() && m.contains(id)
{
    match m.def(id).component {
        PathComponentView::TypeNs { name } => match m.next(id) {
            Some(p) => left_over(
                m,
                p,
                remaining_after(Some(name), m.def(id).kind, m.def(id).generics, Some(remaining))->0,
            ),
            None => remaining,
        },
        _ => remaining,
    }
}

/// Whether `ty` can be written in full and read back: it is built from
/// primitives, the never type, arrays of known length, slices, pointers,
/// references, tuples, and aggregates that are named entries of the type
/// namespace, reached from the root of their unit through such entries, with
/// as many generic arguments as are written along their path.
pub open spec fn nameable(m: ModelView, ty: SemanticTypeView) -> bool
    decreases ty,
{
    match ty {
        SemanticTypeView::Bool
        | SemanticTypeView::Char
        | SemanticTypeView::Int(_)
        | SemanticTypeView::Uint(_)
        | SemanticTypeView::Float(_)
        | SemanticTypeView::Str
        | SemanticTypeView::Never => true,
        SemanticTypeView::Adt { def, args } => {
            &&& m.def(def).component is TypeNs
            &&& reaches_root(m, def)
            &&& left_over(m, def, args.len()) == 0
            &&& forall|i: int| 0 <= i < args.len() ==> nameable(m, #[trigger] args[i])
        },
        SemanticTypeView::Array { elem, len } => len is Value && nameable(m, *elem),
        SemanticTypeView::Slice { elem } => nameable(m, *elem),
        SemanticTypeView::RawPtr { pointee, .. } => nameable(m, *pointee),
        SemanticTypeView::Ref { pointee, .. } => nameable(m, *pointee),
        SemanticTypeView::Tuple { elems } => forall|i: int|
            0 <= i < elems.len() ==> nameable(m, #[trigger] elems[i]),
        _ => false,
    }
}

/// A number that tells the canonical spellings apart: it is made of the
/// length and the first three characters of a name.
pub open spec fn spelling_key(name: Seq<char>) -> int {
    name.len() * 0x1000000 + (name[0] as int) * 0x10000 + (name[1] as int) * 0x100 + if name.len()
        > 2 {
        name[2] as int
    } else {
        0
    }
}

/// The canonical spellings and the two special segments have keys of their
/// own.
pub proof fn lemma_spelling_keys()
    ensures
        spelling_key("bool"@) == 0x4626f6f,
        spelling_key("char"@) == 0x4636861,
        spelling_key("str"@) == 0x3737472,
        spelling_key(int_ty_name(IntTy::Isize)) == 0x5697369,
        spelling_key(int_ty_name(IntTy::I8)) == 0x2693800,
        spelling_key(int_ty_name(IntTy::I16)) == 0x3693136,
        spelling_key(int_ty_name(IntTy::I32)) == 0x3693332,
        spelling_key(int_ty_name(IntTy::I64)) == 0x3693634,
        spelling_key(int_ty_name(IntTy::I128)) == 0x4693132,
        spelling_key(uint_ty_name(UintTy::Usize)) == 0x5757369,
        spelling_key(uint_ty_name(UintTy::U8)) == 0x2753800,
        spelling_key(uint_ty_name(UintTy::U16)) == 0x3753136,
        spelling_key(uint_ty_name(UintTy::U32)) == 0x3753332,
        spelling_key(uint_ty_name(UintTy::U64)) == 0x3753634,
        spelling_key(uint_ty_name(UintTy::U128)) == 0x4753132,
        spelling_key(float_ty_name(FloatTy::F32)) == 0x3663332,
        spelling_key(float_ty_name(FloatTy::F64)) == 0x3663634,
        spelling_key(self_segment()) == 0x473656c,
        spelling_key(root_segment()) == 0x87b7b72,
{
    reveal_strlit("bool");
    reveal_strlit("char");
    reveal_strlit("str");
    reveal_strlit("isize");
    reveal_strlit("i8");
    reveal_strlit("i16");
    reveal_strlit("i32");
    reveal_strlit("i64");
    reveal_strlit("i128");
    reveal_strlit("usize");
    reveal_strlit("u8");
    reveal_strlit("u16");
    reveal_strlit("u32");
    reveal_strlit("u64");
    reveal_strlit("u128");
    reveal_strlit("f32");
    reveal_strlit("f64");
    reveal_strlit("self");
    reveal_strlit("{{root}}");
}

/// The canonical spelling of a primitive type names that type.
pub proof fn lemma_primitive_named(ty: SemanticTypeView)
    ensures
        match ty {
            SemanticTypeView::Bool => primitive_named("bool"@) == Some(ty),
            SemanticTypeView::Char => primitive_named("char"@) == Some(ty),
            SemanticTypeView::Str => primitive_named("str"@) == Some(ty),
            SemanticTypeView::Int(kind) => primitive_named(int_ty_name(kind)) == Some(ty),
            SemanticTypeView::Uint(kind) => primitive_named(uint_ty_name(kind)) == Some(ty),
            SemanticTypeView::Float(kind) => primitive_named(float_ty_name(kind)) == Some(ty),
            _ => true,
        },
{
    lemma_spelling_keys();
}

/// Along named entries of the type namespace, what an ascent adds does not
/// depend on what it has collected: the new segments come behind the old,
/// and no self-type qualifier is recorded.
pub proof fn lemma_ascent_appends(
    m: ModelView,
    id: DefId,
    window: Seq<SemanticTypeView>,
    remaining: nat,
    mode: ModeView,
    segments: Seq<PathSegmentView>,
)
    requires
        m.wf(),
        m.contains(id),
        reaches_root(m, id),
    ensures
        ascend_spec(m, id, window, Some(remaining), mode, segments).qself is None,
        ascend_spec(m, id, window, Some(remaining), mode, segments).segments == segments
            + ascend_spec(m, id, window, Some(remaining), mode, Seq::empty()).segments,
        ascend_spec(m, id, window, Some(remaining), mode, Seq::empty()).segments.len() > 0,
    decreases id.index,
{
    let d = m.def(id);
    let none = Seq::<PathSegmentView>::empty();
    let out = ascend_spec(m, id, window, Some(remaining), mode, segments);
    let alone = ascend_spec(m, id, window, Some(remaining), mode, none);
    assert(m.admits_at(m.defs[id.index as int], id.index as nat));
    match d.component {
        PathComponentView::CrateRoot => {
            assert(out.segments =~= segments + alone.segments);
        },
        PathComponentView::TypeNs { name } => {
            let p = m.next(id)->0;
            let left = remaining_after(Some(name), d.kind, d.generics, Some(remaining));
            let args = if writes_args(Some(name), d.kind, Some(remaining)) {
                Some(reflect_range_spec(m, window, left->0, remaining, mode))
            } else {
                None
            };
            let seg = PathSegmentView { ident: name, args };
            lemma_ascent_appends(m, p, window, left->0, mode, segments.push(seg));
            lemma_ascent_appends(m, p, window, left->0, mode, none.push(seg));
            let above = ascend_spec(m, p, window, left, mode, none).segments;
            assert(out.segments == segments.push(seg) + above);
            assert(alone.segments == none.push(seg) + above);
            assert(out.segments =~= segments + alone.segments);
        },
        _ => {},
    }
}

/// Reading back the generic arguments that reflection has written gives
/// the arguments, in their order, where each of them reads back.
pub proof fn lemma_range_round_trip(m: ModelView, tys: Seq<SemanticTypeView>, lo: nat, hi: nat)
    requires
        lo <= hi <= tys.len(),
        forall|i: int|
            lo <= i < hi ==> resolve_ty_spec(
                m,
                reflect_ty_spec(m, #[trigger] tys[i], ModeView::Concrete),
            ) == Some(tys[i]),
    ensures
        resolve_tys_spec(m, reflect_range_spec(m, tys, lo, hi, ModeView::Concrete)) == Some(
            tys.subrange(lo as int, hi as int),
        ),
    decreases hi - lo,
{
    let asts = reflect_range_spec(m, tys, lo, hi, ModeView::Concrete);
    if lo < hi {
        let before = reflect_range_spec(m, tys, lo, (hi - 1) as nat, ModeView::Concrete);
        lemma_range_round_trip(m, tys, lo, (hi - 1) as nat);
        assert(asts == before.push(reflect_ty_spec(m, tys[hi - 1], ModeView::Concrete)));
        assert(asts.drop_last() =~= before);
        assert(asts.last() == reflect_ty_spec(m, tys[hi - 1], ModeView::Concrete));
        assert(tys.subrange(lo as int, hi as int) =~= tys.subrange(lo as int, hi - 1).push(
            tys[hi - 1],
        ));
    } else {
        assert(asts =~= Seq::<TyView>::empty());
        assert(tys.subrange(lo as int, hi as int) =~= Seq::<SemanticTypeView>::empty());
    }
}

/// Resolving the path that reflection writes for a definition leads back to
/// the definition, with the generic arguments that were written, in their
/// order.
pub proof fn lemma_segments_round_trip(
    m: ModelView,
    id: DefId,
    window: Seq<SemanticTypeView>,
    remaining: nat,
    have_segments: bool,
)
    requires
        m.wf(),
        m.contains(id),
        unambiguous(m),
        reaches_root(m, id),
        remaining <= window.len(),
        m.window_fits(id, Some(remaining), have_segments),
        forall|i: int|
            0 <= i < window.len() ==> resolve_ty_spec(
                m,
                reflect_ty_spec(m, #[trigger] window[i], ModeView::Concrete),
            ) == Some(window[i]),
    ensures
        left_over(m, id, remaining) <= remaining,
        resolve_segments_spec(
            m,
            ascend_spec(
                m,
                id,
                window,
                Some(remaining),
                ModeView::Concrete,
                Seq::empty(),
            ).segments.reverse(),
        ) == Some(
            (id, window.subrange(left_over(m, id, remaining) as int, remaining as int)),
        ),
    decreases id.index,
{
    let d = m.def(id);
    let none = Seq::<PathSegmentView>::empty();
    let mode = ModeView::Concrete;
    let out = ascend_spec(m, id, window, Some(remaining), mode, none);
    let path = out.segments.reverse();
    assert(m.admits_at(m.defs[id.index as int], id.index as nat));
    lemma_spelling_keys();
    assert(window.subrange(remaining as int, remaining as int) =~= Seq::<
        SemanticTypeView,
    >::empty());
    match d.component {
        PathComponentView::CrateRoot => {
            if d.krate == LOCAL_CRATE {
                assert(out.segments =~= seq![plain_segment(self_segment())]);
                assert(path =~= seq![plain_segment(self_segment())]);
                assert(is_root_of(m, id, LOCAL_CRATE));
            } else {
                let name = m.crates[d.krate as int];
                assert(out.segments =~= seq![plain_segment(name), plain_segment(root_segment())]);
                assert(path =~= seq![plain_segment(root_segment()), plain_segment(name)]);
                assert(d.krate != LOCAL_CRATE && d.krate < m.crates.len());
                let k = crate_named(m, name)->0;
                assert(m.crates[k as int] == m.crates[d.krate as int]);
                assert(k == d.krate);
                assert(is_root_of(m, id, k));
            }
        },
        PathComponentView::TypeNs { name } => {
            let p = m.next(id)->0;
            let left = remaining_after(Some(name), d.kind, d.generics, Some(remaining))->0;
            let args = if writes_args(Some(name), d.kind, Some(remaining)) {
                Some(reflect_range_spec(m, window, left, remaining, mode))
            } else {
                None
            };
            let seg = PathSegmentView { ident: name, args };
            lemma_ascent_appends(m, p, window, left, mode, none.push(seg));
            lemma_segments_round_trip(m, p, window, left, true);
            let above = ascend_spec(m, p, window, Some(left), mode, none).segments;
            assert(out.segments == none.push(seg) + above);
            assert(path =~= above.reverse().push(seg));
            assert(path.drop_last() =~= above.reverse());
            assert(path.last() == seg);
            assert(path.len() >= 2);
            if path.len() == 2 {
                // The path of a root alone is the one segment of the local unit.
                assert(above.len() == 1);
                assert(m.admits_at(m.defs[p.index as int], p.index as nat));
                lemma_one_segment_is_local_root(m, p, window, left);
                assert(path[0] == above[0]);
                assert(path[0] != plain_segment(root_segment()));
            }
            assert(is_child_named(m, id, p, name));
            let far = left_over(m, p, left);
            assert(left_over(m, id, remaining) == far);
            if writes_args(Some(name), d.kind, Some(remaining)) {
                lemma_range_round_trip(m, window, left, remaining);
                assert(window.subrange(far as int, left as int) + window.subrange(
                    left as int,
                    remaining as int,
                ) =~= window.subrange(far as int, remaining as int));
            }
        },
        _ => {},
    }
}

/// Where the ascent from a definition that reaches a root collects a single
/// segment, that segment is the one that names the local unit.
pub proof fn lemma_one_segment_is_local_root(
    m: ModelView,
    id: DefId,
    window: Seq<SemanticTypeView>,
    remaining: nat,
)
    requires
        m.wf(),
        m.contains(id),
        reaches_root(m, id),
        ascend_spec(
            m,
            id,
            window,
            Some(remaining),
            ModeView::Concrete,
            Seq::empty(),
        ).segments.len() == 1,
    ensures
        ascend_spec(m, id, window, Some(remaining), ModeView::Concrete, Seq::empty()).segments[0]
            == plain_segment(self_segment()),
{
    let d = m.def(id);
    let none = Seq::<PathSegmentView>::empty();
    let mode = ModeView::Concrete;
    assert(m.admits_at(m.defs[id.index as int], id.index as nat));
    match d.component {
        PathComponentView::TypeNs { name } => {
            let p = m.next(id)->0;
            let left = remaining_after(Some(name), d.kind, d.generics, Some(remaining))->0;
            let args = if writes_args(Some(name), d.kind, Some(remaining)) {
                Some(reflect_range_spec(m, window, left, remaining, mode))
            } else {
                None
            };
            let seg = PathSegmentView { ident: name, args };
            lemma_ascent_appends(m, p, window, left, mode, none.push(seg));
        },
        _ => {},
    }
}

/// Reflecting a type that can be written in full, and resolving what was
/// written over the same model, gives the type back.
pub proof fn lemma_ty_round_trip(m: ModelView, ty: SemanticTypeView)
    requires
        m.wf(),
        m.contains_ty(ty),
        unambiguous(m),
        nameable(m, ty),
    ensures
        resolve_ty_spec(m, reflect_ty_spec(m, ty, ModeView::Concrete)) == Some(ty),
    decreases ty,
{
    let mode = ModeView::Concrete;
    let ast = reflect_ty_spec(m, ty, mode);
    lemma_primitive_named(ty);
    match ty {
        SemanticTypeView::Adt { def, args } => {
            crate::reflect::lemma_contains_adt(m, def, args);
            assert forall|i: int| 0 <= i < args.len() implies resolve_ty_spec(
                m,
                reflect_ty_spec(m, #[trigger] args[i], ModeView::Concrete),
            ) == Some(args[i]) by {
                lemma_ty_round_trip(m, args[i]);
            }
            let none = Seq::<PathSegmentView>::empty();
            lemma_ascent_appends(m, def, args, args.len(), mode, none);
            lemma_segments_round_trip(m, def, args, args.len(), false);
            lemma_path_of_entry_is_long(m, def, args, args.len());
            assert(args.subrange(0, args.len() as int) =~= args);
            let out = ascend_spec(m, def, args, Some(args.len()), mode, none);
            assert(reflect_def_path_spec(m, def, Some(args), mode) == (
                out.qself,
                PathView { segments: out.segments.reverse() },
            ));
            assert(out.segments.reverse().len() >= 2);
        },
        SemanticTypeView::Array { elem, len } => {
            lemma_ty_round_trip(m, *elem);
        },
        SemanticTypeView::Slice { elem } => {
            lemma_ty_round_trip(m, *elem);
        },
        SemanticTypeView::RawPtr { pointee, .. } => {
            lemma_ty_round_trip(m, *pointee);
        },
        SemanticTypeView::Ref { pointee, .. } => {
            lemma_ty_round_trip(m, *pointee);
        },
        SemanticTypeView::Tuple { elems } => {
            crate::reflect::lemma_contains_tuple(m, elems);
            assert forall|i: int| 0 <= i < elems.len() implies resolve_ty_spec(
                m,
                reflect_ty_spec(m, #[trigger] elems[i], ModeView::Concrete),
            ) == Some(elems[i]) by {
                lemma_ty_round_trip(m, elems[i]);
            }
            lemma_range_round_trip(m, elems, 0, elems.len());
            assert(elems.subrange(0, elems.len() as int) =~= elems);
        },
        _ => {},
    }
}

/// The path of a named entry that reaches a root has at least two segments.
pub proof fn lemma_path_of_entry_is_long(
    m: ModelView,
    id: DefId,
    window: Seq<SemanticTypeView>,
    remaining: nat,
)
    requires
        m.wf(),
        m.contains(id),
        reaches_root(m, id),
        m.def(id).component is TypeNs,
    ensures
        ascend_spec(m, id, window, Some(remaining), ModeView::Concrete, Seq::empty()).segments.len()
            >= 2,
{
    let d = m.def(id);
    let none = Seq::<PathSegmentView>::empty();
    let mode = ModeView::Concrete;
    assert(m.admits_at(m.defs[id.index as int], id.index as nat));
    match d.component {
        PathComponentView::TypeNs { name } => {
            let p = m.next(id)->0;
            let left = remaining_after(Some(name), d.kind, d.generics, Some(remaining))->0;
            let args = if writes_args(Some(name), d.kind, Some(remaining)) {
                Some(reflect_range_spec(m, window, left, remaining, mode))
            } else {
                None
            };
            let seg = PathSegmentView { ident: name, args };
            lemma_ascent_appends(m, p, window, left, mode, none.push(seg));
        },
        _ => {},
    }
}

/// Reflecting an aggregate type with its generic arguments, and resolving
/// the path that was written over the same model, gives back the definition
/// of the aggregate and its arguments, in their order.
pub proof fn lemma_aggregate_round_trip(m: ModelView, def: DefId, args: Seq<SemanticTypeView>)
    requires
        m.wf(),
        m.contains_ty(SemanticTypeView::Adt { def, args }),
        unambiguous(m),
        nameable(m, SemanticTypeView::Adt { def, args }),
    ensures
        reflect_def_path_spec(m, def, Some(args), ModeView::Concrete).0 is None,
        resolve_path_spec(m, reflect_def_path_spec(m, def, Some(args), ModeView::Concrete).1)
            == Some((def, args)),
        resolve_ty_spec(
            m,
            reflect_ty_spec(m, SemanticTypeView::Adt { def, args }, ModeView::Concrete),
        ) == Some(SemanticTypeView::Adt { def, args }),
{
    let ty = SemanticTypeView::Adt { def, args };
    lemma_ty_round_trip(m, ty);
    crate::reflect::lemma_contains_adt(m, def, args);
    assert forall|i: int| 0 <= i < args.len() implies resolve_ty_spec(
        m,
        reflect_ty_spec(m, #[trigger] args[i], ModeView::Concrete),
    ) == Some(args[i]) by {
        lemma_ty_round_trip(m, args[i]);
    }
    lemma_ascent_appends(m, def, args, args.len(), ModeView::Concrete, Seq::empty());
    lemma_segments_round_trip(m, def, args, args.len(), false);
    assert(args.subrange(0, args.len() as int) =~= args);
}

} // verus!
