//! Reflection: from a semantic type or a definition to the syntax that
//! denotes it.
use crate::ast::{
    lemma_segments_view, lemma_segments_view_push, lemma_tys_view, lemma_tys_view_push, qself_view,
    segments_view, tys_view, Expr, ExprView, Lit, LitIntType, LitView, Path, PathSegment,
    PathSegmentView, PathView, QSelf, QSelfView, Ty, TyView,
};
use crate::model::{
    ConstBody, ConstBodyView, DefKind, GenericParamKind, ModelView, NonPrintable, PathComponent,
    PathComponentView, SemanticModel, LOCAL_CRATE,
};
use crate::semantic::{
    float_ty_name, int_ty_name, lemma_types_view, lemma_tys_bound_index, lemma_tys_size_index,
    ty_bound, ty_size, types_view, tys_bound, tys_size, uint_ty_name, ArrayLen, DefId, SemanticType,
    SemanticTypeView, UintTy,
};
use vstd::prelude::*;

verus! {

/// How the generic arguments of an aggregate and the type parameters are
/// written.
pub enum ModeView {
    /// Arguments are spelled out, and a parameter is written by its name.
    Concrete,
    /// The arguments of the outermost aggregate are written as inference
    /// placeholders, and a parameter at the outermost level is left to
    /// inference.
    Generic,
    /// Arguments are spelled out, and the parameter with index `i` is
    /// written as `env[i]`.
    Bound { env: Seq<TyView> },
}

impl ModeView {
    /// The mode in which the parts of a type are reflected.
    pub open spec fn inner(self) -> ModeView {
        match self {
            ModeView::Generic => ModeView::Concrete,
            _ => self,
        }
    }
}

/// The name of the self segment, by which the current compilation unit
/// denotes itself in a path.
pub open spec fn self_segment() -> Seq<char> {
    "self"@
}

/// The name of the root segment, which stands for the root of all paths
/// and is written as the leading `::` of a path: the marker `{{root}}`.
pub open spec fn root_segment() -> Seq<char> {
    "{{root}}"@
}

/// A segment that is only a name.
pub open spec fn plain_segment(ident: Seq<char>) -> PathSegmentView {
    PathSegmentView { ident, args: None }
}

/// The type that is written as the single name `ident`.
pub open spec fn ident_ty(ident: Seq<char>) -> TyView {
    TyView::Path { qself: None, path: PathView { segments: seq![plain_segment(ident)] } }
}

/// The literal `n` with the suffix of the unsigned size type.
pub open spec fn usize_lit(n: u64) -> ExprView {
    ExprView::Lit { lit: LitView::Int(n as u128, LitIntType::Unsigned(UintTy::Usize)) }
}

/// Whether a definition of this kind can declare generic parameters of
/// its own.
pub open spec fn has_generics(kind: Option<DefKind>) -> bool {
    match kind {
        Some(k) => match k {
            DefKind::Struct
            | DefKind::Union
            | DefKind::Enum
            | DefKind::Variant
            | DefKind::Trait
            | DefKind::OpaqueTy
            | DefKind::TyAlias
            | DefKind::ForeignTy
            | DefKind::TraitAlias
            | DefKind::AssocTy
            | DefKind::AssocOpaqueTy
            | DefKind::TyParam
            | DefKind::Fn
            | DefKind::Method
            | DefKind::Ctor => true,
            _ => false,
        },
        None => false,
    }
}

/// How many of `generics` are type parameters.
pub open spec fn type_param_count(generics: Seq<GenericParamKind>) -> nat
    decreases generics.len(),
{
    if generics.len() == 0 {
        0
    } else {
        type_param_count(generics.drop_last()) + if generics.last() == GenericParamKind::Type {
            1nat
        } else {
            0nat
        }
    }
}

/// The name that a component adds to a path: that of a type-namespace
/// entry, or of a value-namespace entry where the path is still empty; none
/// if the name is empty.
pub open spec fn emitted_name(component: PathComponentView, have_segments: bool) -> Option<
    Seq<char>,
> {
    match component {
        PathComponentView::TypeNs { name } => if name.len() > 0 {
            Some(name)
        } else {
            None
        },
        PathComponentView::ValueNs { name } => if !have_segments && name.len() > 0 {
            Some(name)
        } else {
            None
        },
        _ => None,
    }
}

/// Whether generic arguments are written at a definition: it has just added
/// the segment `name`, its kind can declare generic parameters, and some
/// arguments remain to be written.
pub open spec fn writes_args(
    name: Option<Seq<char>>,
    kind: Option<DefKind>,
    remaining: Option<nat>,
) -> bool {
    name is Some && has_generics(kind) && remaining is Some && remaining->0 > 0
}

/// How many arguments remain to be written above a definition that has
/// added the segment `name`, if it has added one: a definition at which
/// arguments are written takes one for each type parameter that it
/// declares, from the end of the window.
pub open spec fn remaining_after(
    name: Option<Seq<char>>,
    kind: Option<DefKind>,
    generics: Seq<GenericParamKind>,
    remaining: Option<nat>,
) -> Option<nat> {
    if writes_args(name, kind, remaining) {
        Some((remaining->0 - type_param_count(generics)) as nat)
    } else {
        remaining
    }
}

/// The value of an array length.
pub open spec fn eval_len(m: ModelView, len: ArrayLen) -> u64 {
    match len {
        ArrayLen::Value(n) => n,
        ArrayLen::Unevaluated(def) => m.def(def).const_value->0,
    }
}

/// The state in which an ascent ends: the self-type qualifier, if one was
/// recorded, and the segments, innermost first.
pub struct Ascent {
    pub qself: Option<QSelfView>,
    pub segments: Seq<PathSegmentView>,
}

/// The end of an ascent at an `impl` block whose self type reflects to
/// `self_ty`: the segments of a named type continue the path, any other type
/// qualifies it.
pub open spec fn ascent_through_impl(self_ty: TyView, segments: Seq<PathSegmentView>) -> Ascent {
    match self_ty {
        TyView::Path { qself, path } => Ascent {
            qself,
            segments: segments + path.segments.reverse(),
        },
        _ => Ascent {
            qself: Some(QSelfView { ty: Box::new(self_ty), position: 0 }),
            segments,
        },
    }
}

/// How many generic arguments are written at the segment of `id` itself:
/// one for each type parameter that `id` declares, if `id` adds a segment
/// to its path and is of a kind that can declare generic parameters.
pub open spec fn own_args(m: ModelView, id: DefId) -> nat {
    let d = m.def(id);
    if emitted_name(d.component, false) is Some && has_generics(d.kind) {
        type_param_count(d.generics)
    } else {
        0
    }
}

/// `count` inference placeholders.
pub open spec fn infer_tys(count: nat) -> Seq<TyView> {
    Seq::new(count, |i: int| TyView::Infer)
}

/// The path `named` with `count` inference placeholders as the generic
/// arguments of its last segment, which is the segment of the definition
/// that the path denotes. Where there is no placeholder to write, or no
/// segment, the path stays as it is.
pub open spec fn with_placeholders(
    named: (Option<QSelfView>, PathView),
    count: nat,
) -> (Option<QSelfView>, PathView) {
    let segments = named.1.segments;
    if count > 0 && segments.len() > 0 {
        (
            named.0,
            PathView {
                segments: segments.drop_last().push(
                    PathSegmentView { ident: segments.last().ident, args: Some(infer_tys(count)) },
                ),
            },
        )
    } else {
        named
    }
}

/// The named type that a self-type qualifier and a path make.
pub open spec fn named_ty(named: (Option<QSelfView>, PathView)) -> TyView {
    TyView::Path { qself: named.0, path: named.1 }
}

/// The generic arguments of a window, or none where there is no window.
pub open spec fn window_types(window: Option<Seq<SemanticTypeView>>) -> Seq<SemanticTypeView> {
    match window {
        Some(tys) => tys,
        None => Seq::empty(),
    }
}

/// How many generic arguments a window holds, where there is one.
pub open spec fn window_len(window: Option<Seq<SemanticTypeView>>) -> Option<nat> {
    match window {
        Some(tys) => Some(tys.len()),
        None => None,
    }
}

/// Whether the path of `id` can be reflected with the window `window`: the
/// definition has a path, the window holds types over the model, and it fits
/// the ascent from `id`.
pub open spec fn path_reflectable(
    m: ModelView,
    id: DefId,
    window: Option<Seq<SemanticTypeView>>,
) -> bool {
    &&& m.path_bearing(id)
    &&& m.window_fits(id, window_len(window), false)
    &&& window matches Some(tys) ==> m.contains_tys(tys)
}

/// The path that denotes the definition `id`, with the self-type qualifier
/// where the path needs one. `window` holds the generic arguments of `id` and
/// of the definitions above it, outermost first; `mode` says how an argument
/// is written. The segments are collected on the way up and turned round at
/// the end.
pub open spec fn reflect_def_path_spec(
    m: ModelView,
    id: DefId,
    window: Option<Seq<SemanticTypeView>>,
    mode: ModeView,
) -> (Option<QSelfView>, PathView)
    decreases
            vstd::math::max(id.index + 1, tys_bound(window_types(window)) as int),
            tys_size(window_types(window)) + 1,
            id.index + 1,
{
    let out = ascend_spec(
        m,
        id,
        window_types(window),
        window_len(window),
        mode,
        Seq::empty(),
    );
    (out.qself, PathView { segments: out.segments.reverse() })
}

/// The type expression that denotes `ty`.
pub open spec fn reflect_ty_spec(m: ModelView, ty: SemanticTypeView, mode: ModeView) -> TyView
    decreases ty_bound(ty), ty_size(ty), 0nat,
{
    match ty {
        SemanticTypeView::Bool => ident_ty("bool"@),
        SemanticTypeView::Char => ident_ty("char"@),
        SemanticTypeView::Int(kind) => ident_ty(int_ty_name(kind)),
        SemanticTypeView::Uint(kind) => ident_ty(uint_ty_name(kind)),
        SemanticTypeView::Float(kind) => ident_ty(float_ty_name(kind)),
        SemanticTypeView::Str => ident_ty("str"@),
        SemanticTypeView::Never => TyView::Never,
        SemanticTypeView::Adt { def, args } => named_ty(
            match mode {
                ModeView::Generic => with_placeholders(
                    reflect_def_path_spec(m, def, None, mode.inner()),
                    own_args(m, def),
                ),
                _ => reflect_def_path_spec(m, def, Some(args), mode.inner()),
            },
        ),
        SemanticTypeView::Foreign { def } => named_ty(
            reflect_def_path_spec(m, def, None, mode.inner()),
        ),
        SemanticTypeView::Array { elem, len } => TyView::Array {
            elem: Box::new(reflect_ty_spec(m, *elem, mode.inner())),
            len: Box::new(usize_lit(eval_len(m, len))),
        },
        SemanticTypeView::Slice { elem } => TyView::Slice {
            elem: Box::new(reflect_ty_spec(m, *elem, mode.inner())),
        },
        SemanticTypeView::RawPtr { mutbl, pointee } => TyView::Ptr {
            mutbl,
            pointee: Box::new(reflect_ty_spec(m, *pointee, mode.inner())),
        },
        SemanticTypeView::Ref { mutbl, pointee } => TyView::Ref {
            mutbl,
            pointee: Box::new(reflect_ty_spec(m, *pointee, mode.inner())),
        },
        SemanticTypeView::Tuple { elems } => TyView::Tuple {
            elems: reflect_range_spec(m, elems, 0, elems.len(), mode.inner()),
        },
        SemanticTypeView::Param { index, name } => match mode {
            ModeView::Concrete => ident_ty(name),
            ModeView::Generic => TyView::Infer,
            ModeView::Bound { env } => if index < env.len() {
                env[index as int]
            } else {
                ident_ty(name)
            },
        },
        SemanticTypeView::FnDef { .. } | SemanticTypeView::Unsupported(_) => TyView::Infer,
    }
}

/// The type expressions that denote `tys[lo]` to `tys[hi - 1]`, in order.
pub open spec fn reflect_range_spec(
    m: ModelView,
    tys: Seq<SemanticTypeView>,
    lo: nat,
    hi: nat,
    mode: ModeView,
) -> Seq<TyView>
    decreases tys_bound(tys), tys_size(tys), (hi - lo + 1) as nat,
{
    if lo < hi <= tys.len() {
        proof {
            lemma_tys_bound_index(tys, hi - 1);
            lemma_tys_size_index(tys, hi - 1);
        }
        reflect_range_spec(m, tys, lo, (hi - 1) as nat, mode).push(
            reflect_ty_spec(m, tys[hi - 1], mode),
        )
    } else {
        Seq::empty()
    }
}

/// The ascent from `id` through the definitions above it. `window` holds the
/// generic arguments, outermost first, of which the first `remaining` are
/// still to be written (`None`: no arguments are written); `mode` says how
/// an argument is written; `segments` are the segments collected so far,
/// innermost first.
pub open spec fn ascend_spec(
    m: ModelView,
    id: DefId,
    window: Seq<SemanticTypeView>,
    remaining: Option<nat>,
    mode: ModeView,
    segments: Seq<PathSegmentView>,
) -> Ascent
    decreases
            vstd::math::max(id.index + 1, tys_bound(window) as int),
            tys_size(window) + 1,
            id.index,
    when m.wf() && m.contains(id)
{
    let d = m.def(id);
    match d.component {
        PathComponentView::CrateRoot => Ascent {
            qself: None,
            segments: if d.krate == LOCAL_CRATE {
                segments.push(plain_segment(self_segment()))
            } else {
                segments.push(plain_segment(m.crates[d.krate as int])).push(
                    plain_segment(root_segment()),
                )
            },
        },
        PathComponentView::Impl { self_ty } => {
            let ast_ty = match remaining {
                Some(k) if k == d.generics.len() => reflect_ty_spec(
                    m,
                    self_ty,
                    ModeView::Bound { env: reflect_range_spec(m, window, 0, k, mode) },
                ),
                _ => reflect_ty_spec(m, self_ty, ModeView::Generic),
            };
            ascent_through_impl(ast_ty, segments)
        },
        PathComponentView::ValueNs { .. } if segments.len() > 0 => Ascent { qself: None, segments },
        PathComponentView::NonPrintable { kind: NonPrintable::Ctor } => match d.parent {
            Some(p) => ascend_spec(m, p, window, remaining, mode, segments),
            None => Ascent { qself: None, segments },
        },
        _ => {
            let name = emitted_name(d.component, segments.len() > 0);
            let left = remaining_after(name, d.kind, d.generics, remaining);
            let segments1 = match name {
                Some(ident) => segments.push(
                    PathSegmentView {
                        ident,
                        args: if writes_args(name, d.kind, remaining) {
                            Some(reflect_range_spec(m, window, left->0, remaining->0, mode))
                        } else {
                            None
                        },
                    },
                ),
                None => segments,
            };
            match m.next(id) {
                Some(p) => ascend_spec(m, p, window, left, mode, segments1),
                None => Ascent { qself: None, segments: segments1 },
            }
        },
    }
}

/// How the generic arguments of an aggregate and the type parameters are
/// written.
#[derive(Debug, PartialEq, Eq)]
pub enum Mode {
    /// Arguments are spelled out, and a parameter is written by its name.
    Concrete,
    /// The arguments of the outermost aggregate are written as inference
    /// placeholders, and a parameter at the outermost level is left to
    /// inference.
    Generic,
    /// Arguments are spelled out, and the parameter with index `i` is
    /// written as `env[i]`.
    Bound { env: Vec<Ty> },
}

impl View for Mode {
    type V = ModeView;

    open spec fn view(&self) -> ModeView {
        match self {
            Mode::Concrete => ModeView::Concrete,
            Mode::Generic => ModeView::Generic,
            Mode::Bound { env } => ModeView::Bound { env: tys_view(env@) },
        }
    }
}

/// The view of an optional window of generic arguments.
pub open spec fn window_view(window: Option<&Vec<SemanticType>>) -> Option<Seq<SemanticTypeView>> {
    match window {
        Some(tys) => Some(types_view(tys@)),
        None => None,
    }
}

/// A segment that is only a name.
fn path_segment(ident: String) -> (segment: PathSegment)
    ensures
        segment@ == plain_segment(ident@),
{
    PathSegment { ident, args: None }
}

/// The type that is written as the single name `ident`.
fn mk_ident_ty(ident: String) -> (ty: Ty)
    ensures
        ty@ == ident_ty(ident@),
{
    let mut segments: Vec<PathSegment> = Vec::new();
    segments.push(path_segment(ident));
    proof {
        lemma_segments_view(segments@);
        assert(segments_view(segments@) =~= seq![plain_segment(ident@)]);
    }
    let path = Path { segments };
    assert(path@ == PathView { segments: seq![plain_segment(ident@)] });
    assert(qself_view(None) is None);
    Ty::Path { qself: None, path }
}

/// The literal `n` with the suffix of the unsigned size type.
fn mk_usize_lit(n: u64) -> (lit: Expr)
    ensures
        lit@ == usize_lit(n),
{
    Expr::Lit { lit: Lit::Int(n as u128, LitIntType::Unsigned(UintTy::Usize)) }
}

/// Whether a definition of this kind can declare generic parameters of
/// its own.
pub fn kind_has_generics(kind: Option<DefKind>) -> (generic: bool)
    ensures
        generic == has_generics(kind),
{
    match kind {
        Some(k) => match k {
            DefKind::Struct
            | DefKind::Union
            | DefKind::Enum
            | DefKind::Variant
            | DefKind::Trait
            | DefKind::OpaqueTy
            | DefKind::TyAlias
            | DefKind::ForeignTy
            | DefKind::TraitAlias
            | DefKind::AssocTy
            | DefKind::AssocOpaqueTy
            | DefKind::TyParam
            | DefKind::Fn
            | DefKind::Method
            | DefKind::Ctor => true,
            _ => false,
        },
        None => false,
    }
}

/// How many of `generics` are type parameters.
pub fn count_type_params(generics: &Vec<GenericParamKind>) -> (count: usize)
    ensures
        count == type_param_count(generics@),
{
    let mut count: usize = 0;
    let mut i: usize = 0;
    while i < generics.len()
        invariant
            i <= generics.len(),
            count <= i,
            count == type_param_count(generics@.subrange(0, i as int)),
        decreases generics.len() - i,
    {
        proof {
            assert(generics@.subrange(0, i + 1).drop_last() =~= generics@.subrange(0, i as int));
        }
        match generics[i] {
            GenericParamKind::Type => {
                count = count + 1;
            },
            _ => {},
        }
        i = i + 1;
    }
    proof {
        assert(generics@.subrange(0, i as int) =~= generics@);
    }
    count
}

/// The name that a component adds to a path.
fn component_name(component: &PathComponent, have_segments: bool) -> (name: Option<String>)
    ensures
        match name {
            Some(n) => emitted_name(component@, have_segments) == Some(n@),
            None => emitted_name(component@, have_segments) is None,
        },
{
    match component {
        PathComponent::TypeNs { name } => {
            if name.as_str().unicode_len() > 0 {
                Some(name.clone())
            } else {
                None
            }
        },
        PathComponent::ValueNs { name } => {
            if !have_segments && name.as_str().unicode_len() > 0 {
                Some(name.clone())
            } else {
                None
            }
        },
        _ => None,
    }
}

/// Turns a sequence of segments round.
fn reverse_segments(segments: Vec<PathSegment>) -> (reversed: Vec<PathSegment>)
    ensures
        segments_view(reversed@) == segments_view(segments@).reverse(),
{
    let mut rest = segments;
    let mut reversed: Vec<PathSegment> = Vec::new();
    move_reversed(&mut reversed, &mut rest);
    proof {
        lemma_segments_view(segments@);
        lemma_segments_view(reversed@);
        assert(segments_view(reversed@) =~= segments_view(segments@).reverse());
    }
    reversed
}

/// Moves the segments of `from` to the end of `to`, the last one first.
fn move_reversed(to: &mut Vec<PathSegment>, from: &mut Vec<PathSegment>)
    ensures
        final(from)@.len() == 0,
        segments_view(final(to)@) == segments_view(old(to)@) + segments_view(old(from)@).reverse(),
{
    let ghost to0 = to@;
    let ghost from0 = from@;
    proof {
        lemma_segments_view(to0);
        lemma_segments_view(from0);
    }
    while from.len() > 0
        invariant
            from@.len() <= from0.len(),
            from@ == from0.subrange(0, from@.len() as int),
            to@.len() == to0.len() + from0.len() - from@.len(),
            forall|i: int| 0 <= i < to0.len() ==> to@[i] == to0[i],
            forall|k: int|
                to0.len() <= k < to@.len() ==> (#[trigger] to@[k]) == from0[from0.len() - 1 - (k
                    - to0.len())],
        decreases from.len(),
    {
        let seg = from.pop().unwrap();
        to.push(seg);
    }
    proof {
        lemma_segments_view(to@);
        assert(segments_view(to@) =~= segments_view(to0) + segments_view(from0).reverse());
    }
}

/// How many generic arguments are written at the segment of `id` itself.
fn count_own_args(model: &SemanticModel, id: DefId) -> (count: usize)
    requires
        model@.contains(id),
    ensures
        count == own_args(model@, id),
{
    let data = model.def(id);
    if component_name(&data.component, false).is_some() && kind_has_generics(data.kind) {
        count_type_params(&data.generics)
    } else {
        0
    }
}

/// Writes `count` inference placeholders as the generic arguments of the
/// last segment of `path`.
fn write_placeholders(path: Path, count: usize) -> (written: Path)
    ensures
        forall|qself: Option<QSelfView>|
            (qself, written@) == #[trigger] with_placeholders((qself, path@), count as nat),
{
    let mut segments = path.segments;
    proof {
        lemma_segments_view(segments@);
    }
    if count == 0 || segments.len() == 0 {
        return Path { segments };
    }
    let ghost before = segments@;
    let last = segments.pop().unwrap();
    let mut holes: Vec<Ty> = Vec::new();
    let mut i: usize = 0;
    while i < count
        invariant
            i <= count,
            holes.len() == i,
            forall|j: int| 0 <= j < i ==> holes@[j]@ == TyView::Infer,
        decreases count - i,
    {
        holes.push(Ty::Infer);
        i = i + 1;
    }
    let seg = PathSegment { ident: last.ident, args: Some(holes) };
    proof {
        lemma_tys_view(holes@);
        assert(tys_view(holes@) =~= infer_tys(count as nat));
        assert(seg@ == PathSegmentView {
            ident: before.last()@.ident,
            args: Some(infer_tys(count as nat)),
        });
        lemma_segments_view(segments@);
        lemma_segments_view_push(segments@, seg);
        assert(segments_view(segments@) =~= segments_view(before).drop_last());
    }
    segments.push(seg);
    Path { segments }
}

/// Build an AST representing a semantic type.
pub fn reflect_tcx_ty(model: &SemanticModel, ty: &SemanticType) -> (ast: Ty)
    requires
        model.wf(),
        model@.contains_ty(ty@),
    ensures
        ast@ == reflect_ty_spec(model@, ty@, ModeView::Concrete),
{
    reflect_tcx_ty_inner(model, ty, &Mode::Concrete)
}

/// Build an AST representing a semantic type, with its generic arguments
/// and type parameters written as `mode` says.
pub fn reflect_tcx_ty_inner(model: &SemanticModel, ty: &SemanticType, mode: &Mode) -> (ast: Ty)
    requires
        model.wf(),
        model@.contains_ty(ty@),
    ensures
        ast@ == reflect_ty_spec(model@, ty@, mode@),
    decreases ty_bound(ty@), ty_size(ty@), 0nat,
{
    let concrete = Mode::Concrete;
    let inner: &Mode = match mode {
        Mode::Generic => &concrete,
        _ => mode,
    };
    assert(inner@ == mode@.inner());
    match ty {
        SemanticType::Bool => mk_ident_ty("bool".to_owned()),
        SemanticType::Char => mk_ident_ty("char".to_owned()),
        SemanticType::Int(kind) => mk_ident_ty(kind.ty_to_string()),
        SemanticType::Uint(kind) => mk_ident_ty(kind.ty_to_string()),
        SemanticType::Float(kind) => mk_ident_ty(kind.ty_to_string()),
        SemanticType::Str => mk_ident_ty("str".to_owned()),
        SemanticType::Never => Ty::Never,
        SemanticType::Adt { def, args } => {
            proof {
                lemma_contains_adt(model@, *def, types_view(args@));
                lemma_types_view(args@);
                lemma_no_window_fits(model@, *def, false);
            }
            let (qself, path) = match mode {
                Mode::Generic => {
                    let (qself, path) = reflect_def_path_in(model, *def, None, inner);
                    (qself, write_placeholders(path, count_own_args(model, *def)))
                },
                _ => reflect_def_path_in(model, *def, Some(args), inner),
            };
            Ty::Path { qself, path }
        },
        SemanticType::Foreign { def } => {
            proof {
                lemma_no_window_fits(model@, *def, false);
            }
            let (qself, path) = reflect_def_path_in(model, *def, None, inner);
            Ty::Path { qself, path }
        },
        SemanticType::Array { elem, len } => {
            let n: u64 = match len {
                ArrayLen::Value(n) => *n,
                ArrayLen::Unevaluated(def) => model.eval_usize(*def),
            };
            Ty::Array {
                elem: Box::new(reflect_tcx_ty_inner(model, elem, inner)),
                len: Box::new(mk_usize_lit(n)),
            }
        },
        SemanticType::Slice { elem } => Ty::Slice {
            elem: Box::new(reflect_tcx_ty_inner(model, elem, inner)),
        },
        SemanticType::RawPtr { mutbl, pointee } => Ty::Ptr {
            mutbl: *mutbl,
            pointee: Box::new(reflect_tcx_ty_inner(model, pointee, inner)),
        },
        SemanticType::Ref { mutbl, pointee } => Ty::Ref {
            mutbl: *mutbl,
            pointee: Box::new(reflect_tcx_ty_inner(model, pointee, inner)),
        },
        SemanticType::Tuple { elems } => {
            proof {
                lemma_contains_tuple(model@, types_view(elems@));
                lemma_types_view(elems@);
            }
            Ty::Tuple { elems: reflect_range(model, elems, 0, elems.len(), inner) }
        },
        SemanticType::Param { index, name } => match mode {
            Mode::Concrete => mk_ident_ty(name.clone()),
            Mode::Generic => Ty::Infer,
            Mode::Bound { env } => {
                proof {
                    lemma_tys_view(env@);
                }
                if *index < env.len() {
                    env[*index].clone()
                } else {
                    mk_ident_ty(name.clone())
                }
            },
        },
        // These types cannot be named.
        SemanticType::FnDef { .. } | SemanticType::Unsupported(_) => Ty::Infer,
    }
}

/// Builds the ASTs of `tys[lo]` to `tys[hi - 1]`, in order.
pub fn reflect_range(
    model: &SemanticModel,
    tys: &Vec<SemanticType>,
    lo: usize,
    hi: usize,
    mode: &Mode,
) -> (asts: Vec<Ty>)
    requires
        model.wf(),
        model@.contains_tys(types_view(tys@)),
        lo <= hi <= tys@.len(),
    ensures
        tys_view(asts@) == reflect_range_spec(
            model@,
            types_view(tys@),
            lo as nat,
            hi as nat,
            mode@,
        ),
    decreases tys_bound(types_view(tys@)), tys_size(types_view(tys@)), (hi - lo + 1) as nat,
{
    let ghost views = types_view(tys@);
    proof {
        lemma_types_view(tys@);
    }
    let mut asts: Vec<Ty> = Vec::new();
    let mut i: usize = lo;
    proof {
        assert(tys_view(asts@) =~= reflect_range_spec(model@, views, lo as nat, lo as nat, mode@));
    }
    while i < hi
        invariant
            model.wf(),
            model@.contains_tys(views),
            views == types_view(tys@),
            views.len() == tys@.len(),
            forall|j: int| 0 <= j < tys@.len() ==> (#[trigger] views[j]) == tys@[j]@,
            lo <= i <= hi <= tys@.len(),
            tys_view(asts@) == reflect_range_spec(model@, views, lo as nat, i as nat, mode@),
        decreases hi - i,
    {
        proof {
            lemma_tys_bound_index(views, i as int);
            lemma_tys_size_index(views, i as int);
        }
        let ast = reflect_tcx_ty_inner(model, &tys[i], mode);
        proof {
            lemma_tys_view_push(asts@, ast);
        }
        asts.push(ast);
        i = i + 1;
    }
    asts
}

/// Build a path referring to a specific def.
pub fn reflect_def_path(model: &SemanticModel, id: DefId) -> (named: (Option<QSelf>, Path))
    requires
        model.wf(),
        model@.path_bearing(id),
    ensures
        (qself_view(named.0), named.1@) == reflect_def_path_spec(
            model@,
            id,
            None,
            ModeView::Concrete,
        ),
{
    proof {
        lemma_no_window_fits(model@, id, false);
    }
    reflect_def_path_in(model, id, None, &Mode::Concrete)
}

/// Build a path referring to a specific def, with the generic arguments
/// `opt_substs` of the def and of the defs above it, outermost first.
pub fn reflect_def_path_inner(
    model: &SemanticModel,
    id: DefId,
    opt_substs: Option<&Vec<SemanticType>>,
) -> (named: (Option<QSelf>, Path))
    requires
        model.wf(),
        path_reflectable(model@, id, window_view(opt_substs)),
    ensures
        (qself_view(named.0), named.1@) == reflect_def_path_spec(
            model@,
            id,
            window_view(opt_substs),
            ModeView::Concrete,
        ),
{
    reflect_def_path_in(model, id, opt_substs, &Mode::Concrete)
}

/// Build a path referring to a specific def, with its generic arguments
/// written as `mode` says.
pub fn reflect_def_path_in(
    model: &SemanticModel,
    id: DefId,
    opt_substs: Option<&Vec<SemanticType>>,
    mode: &Mode,
) -> (named: (Option<QSelf>, Path))
    requires
        model.wf(),
        path_reflectable(model@, id, window_view(opt_substs)),
    ensures
        (qself_view(named.0), named.1@) == reflect_def_path_spec(
            model@,
            id,
            window_view(opt_substs),
            mode@,
        ),
    decreases
            vstd::math::max(id.index + 1, tys_bound(window_types(window_view(opt_substs))) as int),
            tys_size(window_types(window_view(opt_substs))) + 1,
            id.index + 1,
{
    let (qself, segments) = ascend(model, id, opt_substs, mode);
    // Build the path in reverse order.  The name of the def comes first, then the name of
    // its parent, and so on.  We flip the path around at the end.
    let segments = reverse_segments(segments);
    (qself, Path { segments })
}

/// Ascends from `id` and collects the segments of its path, innermost first.
fn ascend(
    model: &SemanticModel,
    id: DefId,
    opt_substs: Option<&Vec<SemanticType>>,
    mode: &Mode,
) -> (out: (Option<QSelf>, Vec<PathSegment>))
    requires
        model.wf(),
        path_reflectable(model@, id, window_view(opt_substs)),
    ensures
        (Ascent { qself: qself_view(out.0), segments: segments_view(out.1@) }) == ascend_spec(
            model@,
            id,
            window_types(window_view(opt_substs)),
            window_len(window_view(opt_substs)),
            mode@,
            Seq::empty(),
        ),
    decreases
            vstd::math::max(id.index + 1, tys_bound(window_types(window_view(opt_substs))) as int),
            tys_size(window_types(window_view(opt_substs))) + 1,
            id.index,
{
    let no_substs: Vec<SemanticType> = Vec::new();
    let has_window = opt_substs.is_some();
    let window: &Vec<SemanticType> = match opt_substs {
        Some(tys) => tys,
        None => &no_substs,
    };
    let ghost views = types_view(window@);
    proof {
        lemma_types_view(window@);
        assert(views =~= window_types(window_view(opt_substs)));
    }
    let mut segments: Vec<PathSegment> = Vec::new();
    let mut remaining: usize = window.len();
    let mut cur = id;
    proof {
        lemma_segments_view(segments@);
        assert(segments_view(segments@) =~= Seq::<PathSegmentView>::empty());
    }
    loop
        invariant
            model.wf(),
            model@.contains(cur),
            cur.index <= id.index,
            views == types_view(window@),
            views == window_types(window_view(opt_substs)),
            model@.contains_tys(views),
            remaining <= window@.len(),
            has_window == (opt_substs is Some),
            model@.window_fits(
                cur,
                if has_window {
                    Some(remaining as nat)
                } else {
                    None
                },
                segments@.len() > 0,
            ),
            ascend_spec(
                model@,
                id,
                views,
                window_len(window_view(opt_substs)),
                mode@,
                Seq::empty(),
            ) == ascend_spec(
                model@,
                cur,
                views,
                if has_window {
                    Some(remaining as nat)
                } else {
                    None
                },
                mode@,
                segments_view(segments@),
            ),
        decreases cur.index,
    {
        let data = model.def(cur);
        let ghost segs = segments_view(segments@);
        assert(model@.admits_at(model@.defs[cur.index as int], cur.index as nat));
        proof {
            lemma_segments_view(segments@);
        }
        match &data.component {
            PathComponent::CrateRoot => {
                if data.krate == LOCAL_CRATE {
                    // The self segment.
                    let seg = path_segment("self".to_owned());
                    proof {
                        lemma_segments_view_push(segments@, seg);
                    }
                    segments.push(seg);
                } else {
                    // Write `::crate_name` as the name of the crate: the root segment
                    // comes in front of the name when the path is turned round.
                    let seg = path_segment(model.crate_name(data.krate).clone());
                    proof {
                        lemma_segments_view_push(segments@, seg);
                    }
                    segments.push(seg);
                    let root = path_segment("{{root}}".to_owned());
                    proof {
                        lemma_segments_view_push(segments@, root);
                    }
                    segments.push(root);
                }
                return (None, segments);
            },
            PathComponent::Impl { self_ty } => {
                assert(model@.contains_ty(self_ty@));
                // Reflect the type.  If we have substs available, bind them to the
                // parameters of the type first.
                let ast_ty = if has_window && remaining == data.generics.len() {
                    let env = reflect_range(model, window, 0, remaining, mode);
                    reflect_tcx_ty_inner(model, self_ty, &Mode::Bound { env })
                } else {
                    reflect_tcx_ty_inner(model, self_ty, &Mode::Generic)
                };
                match ast_ty {
                    Ty::Path { qself, path } => {
                        assert(path@.segments == segments_view(path.segments@));
                        assert(ast_ty@ == TyView::Path { qself: qself_view(qself), path: path@ });
                        let mut path_segments = path.segments;
                        move_reversed(&mut segments, &mut path_segments);
                        return (qself, segments);
                    },
                    other => {
                        return (Some(QSelf { ty: Box::new(other), position: 0 }), segments);
                    },
                }
            },
            PathComponent::NonPrintable { kind: NonPrintable::Ctor } => {
                // The parent of the struct ctor in the reachability table is the parent of
                // the struct.  But we want to visit the struct first, so we can add its name.
                match data.parent {
                    Some(parent_id) => {
                        cur = parent_id;
                    },
                    None => {
                        return (None, segments);
                    },
                }
            },
            component => {
                let have_segments = segments.len() > 0;
                if have_segments {
                    if let PathComponent::ValueNs { .. } = component {
                        // This is a function, which the def we started from is inside
                        // of.  `::f::g` is not a valid path if `f` is a function.  Instead,
                        // we stop now, leaving `g` as the path.  This is not an absolute
                        // path, but it should be valid inside of `f`, which is the only
                        // place `g` is visible.
                        return (None, segments);
                    }
                }
                match component_name(component, have_segments) {
                    Some(ident) => {
                        let attach = has_window && remaining > 0 && kind_has_generics(data.kind);
                        let args = if attach {
                            let num_params: usize = count_type_params(&data.generics);
                            let start: usize = remaining - num_params;
                            let tys = reflect_range(model, window, start, remaining, mode);
                            remaining = start;
                            Some(tys)
                        } else {
                            None
                        };
                        let seg = PathSegment { ident, args };
                        proof {
                            lemma_segments_view_push(segments@, seg);
                        }
                        segments.push(seg);
                    },
                    None => {},
                }
                match model.next(cur) {
                    Some(parent_id) => {
                        cur = parent_id;
                    },
                    None => {
                        return (None, segments);
                    },
                }
            },
        }
    }
}

/// The parts of an aggregate over a model are over that model.
pub proof fn lemma_contains_adt(m: ModelView, def: DefId, args: Seq<SemanticTypeView>)
    requires
        m.contains_ty(SemanticTypeView::Adt { def, args }),
    ensures
        m.contains(def),
        m.contains_tys(args),
{
    assert forall|i: int| 0 <= i < args.len() implies m.contains_ty(#[trigger] args[i]) by {
        lemma_tys_bound_index(args, i);
    }
}

/// The members of a tuple over a model are over that model.
pub proof fn lemma_contains_tuple(m: ModelView, elems: Seq<SemanticTypeView>)
    requires
        m.contains_ty(SemanticTypeView::Tuple { elems }),
    ensures
        m.contains_tys(elems),
{
    assert forall|i: int| 0 <= i < elems.len() implies m.contains_ty(#[trigger] elems[i]) by {
        lemma_tys_bound_index(elems, i);
    }
}

/// Whether the body of a constant is within the grammar that can be
/// reflected: a literal, or a unary or binary operation on such bodies.
pub open spec fn const_supported(body: ConstBodyView) -> bool
    decreases body,
{
    match body {
        ConstBodyView::Lit { .. } => true,
        ConstBodyView::Unary { operand, .. } => const_supported(*operand),
        ConstBodyView::Binary { lhs, rhs, .. } => const_supported(*lhs) && const_supported(*rhs),
        ConstBodyView::Other => false,
    }
}

/// The expression that is written for the body of a constant.
pub open spec fn const_expr_spec(body: ConstBodyView) -> ExprView
    recommends
        const_supported(body),
    decreases body,
{
    match body {
        ConstBodyView::Lit { lit } => ExprView::Lit { lit },
        ConstBodyView::Unary { op, operand } => ExprView::Unary {
            op,
            operand: Box::new(const_expr_spec(*operand)),
        },
        ConstBodyView::Binary { op, lhs, rhs } => ExprView::Binary {
            op,
            lhs: Box::new(const_expr_spec(*lhs)),
            rhs: Box::new(const_expr_spec(*rhs)),
        },
        ConstBodyView::Other => arbitrary(),
    }
}

/// Whether `id` is an anonymous constant of the local compilation unit
/// whose body the model holds, and the body is within the grammar that can
/// be reflected.
pub open spec fn const_reflectable(m: ModelView, id: DefId) -> bool {
    &&& m.contains(id)
    &&& m.def(id).krate == LOCAL_CRATE
    &&& m.def(id).component == (PathComponentView::NonPrintable { kind: NonPrintable::AnonConst })
    &&& m.def(id).const_body matches Some(body) && const_supported(body)
}

impl ConstBody {
    /// Whether the body is within the grammar that can be reflected.
    pub fn is_supported(&self) -> (supported: bool)
        ensures
            supported == const_supported(self@),
        decreases self,
    {
        match self {
            ConstBody::Lit { .. } => true,
            ConstBody::Unary { operand, .. } => operand.is_supported(),
            ConstBody::Binary { lhs, rhs, .. } => lhs.is_supported() && rhs.is_supported(),
            ConstBody::Other => false,
        }
    }
}

/// Whether `anon_const_to_expr` can be asked for the definition `id`.
pub fn can_reflect_anon_const(model: &SemanticModel, id: DefId) -> (can: bool)
    ensures
        can == const_reflectable(model@, id),
{
    if !model.contains(id) {
        return false;
    }
    let data = model.def(id);
    let anon_const = match &data.component {
        PathComponent::NonPrintable { kind: NonPrintable::AnonConst } => true,
        _ => false,
    };
    if data.krate != LOCAL_CRATE || !anon_const {
        return false;
    }
    match &data.const_body {
        Some(body) => body.is_supported(),
        None => false,
    }
}

/// Build the expression of an anonymous constant from its body.
pub fn anon_const_to_expr(model: &SemanticModel, def_id: DefId) -> (expr: Expr)
    requires
        const_reflectable(model@, def_id),
    ensures
        expr@ == const_expr_spec(model@.def(def_id).const_body->0),
{
    match &model.def(def_id).const_body {
        Some(body) => hir_expr_to_expr(body),
        None => vstd::pervasive::unreached(),
    }
}

/// Build the expression of the body of a constant.
pub fn hir_expr_to_expr(e: &ConstBody) -> (expr: Expr)
    requires
        const_supported(e@),
    ensures
        expr@ == const_expr_spec(e@),
    decreases e,
{
    match e {
        ConstBody::Binary { op, lhs, rhs } => Expr::Binary {
            op: *op,
            lhs: Box::new(hir_expr_to_expr(lhs)),
            rhs: Box::new(hir_expr_to_expr(rhs)),
        },
        ConstBody::Unary { op, operand } => Expr::Unary {
            op: *op,
            operand: Box::new(hir_expr_to_expr(operand)),
        },
        ConstBody::Lit { lit } => Expr::Lit { lit: lit.clone() },
        ConstBody::Other => vstd::pervasive::unreached(),
    }
}

/// The expression that refers to a definition by the path `named`.
pub open spec fn path_expr(named: (Option<QSelfView>, PathView)) -> ExprView {
    ExprView::Path { qself: named.0, path: named.1 }
}

/// What an optional resolution of an expression is, as values.
pub open spec fn resolution_view(resolved: Option<(DefId, &Vec<SemanticType>)>) -> Option<
    (DefId, Seq<SemanticTypeView>),
> {
    match resolved {
        Some((def, substs)) => Some((def, types_view(substs@))),
        None => None,
    }
}

/// The expression `e` of type `ty`, rewritten with what reflection gives
/// for it: in place of `e` stands the path of the function item that `ty` is
/// the type of, else the path of the definition that `e` resolves to, else
/// `e` itself; and the whole is ascribed the reflection of `ty`.
pub open spec fn test_reflect_spec(
    m: ModelView,
    e: ExprView,
    ty: SemanticTypeView,
    resolved: Option<(DefId, Seq<SemanticTypeView>)>,
) -> ExprView {
    let new_expr = match ty {
        SemanticTypeView::FnDef { def, args } => path_expr(
            reflect_def_path_spec(m, def, Some(args), ModeView::Concrete),
        ),
        _ => match resolved {
            Some((def, substs)) => path_expr(
                reflect_def_path_spec(m, def, Some(substs), ModeView::Concrete),
            ),
            None => e,
        },
    };
    ExprView::Type {
        expr: Box::new(new_expr),
        ty: Box::new(reflect_ty_spec(m, ty, ModeView::Concrete)),
    }
}

/// Whether the path that `test_reflect_expr` writes can be reflected: that
/// of the function item that `ty` is the type of, else that of the
/// definition that the expression resolves to.
pub open spec fn test_reflectable(
    m: ModelView,
    ty: SemanticTypeView,
    resolved: Option<(DefId, Seq<SemanticTypeView>)>,
) -> bool {
    match ty {
        SemanticTypeView::FnDef { def, args } => path_reflectable(m, def, Some(args)),
        _ => match resolved {
            Some((def, substs)) => path_reflectable(m, def, Some(substs)),
            None => true,
        },
    }
}

/// Whether `test_reflect_expr` can be asked for an expression of type `ty`
/// that resolves to `resolved`.
pub fn can_test_reflect(
    model: &SemanticModel,
    ty: &SemanticType,
    resolved: Option<(DefId, &Vec<SemanticType>)>,
) -> (can: bool)
    ensures
        can == (model@.contains_ty(ty@) && test_reflectable(
            model@,
            ty@,
            resolution_view(resolved),
        )),
{
    if !model.has_type(ty) {
        return false;
    }
    match ty {
        SemanticType::FnDef { def, args } => can_reflect_def_path(model, *def, Some(args)),
        _ => match resolved {
            Some((def, substs)) => can_reflect_def_path(model, def, Some(substs)),
            None => true,
        },
    }
}

/// Applies path and ty reflection on an expr: `ty` is the type of `e`, and
/// `resolved` is the definition that `e` resolves to, with the generic
/// arguments of the reference, where it resolves to one.
pub fn test_reflect_expr(
    model: &SemanticModel,
    e: Expr,
    ty: &SemanticType,
    resolved: Option<(DefId, &Vec<SemanticType>)>,
) -> (ascribed: Expr)
    requires
        model.wf(),
        model@.contains_ty(ty@),
        test_reflectable(model@, ty@, resolution_view(resolved)),
    ensures
        ascribed@ == test_reflect_spec(model@, e@, ty@, resolution_view(resolved)),
{
    let ghost expected = test_reflect_spec(model@, e@, ty@, resolution_view(resolved));
    let new_expr = match ty {
        SemanticType::FnDef { def, args } => {
            proof {
                lemma_contains_fn_def(model@, *def, types_view(args@));
            }
            let (qself, path) = reflect_def_path_inner(model, *def, Some(args));
            let new_expr = Expr::Path { qself, path };
            assert(new_expr@ == ExprView::Path { qself: qself_view(qself), path: path@ });
            new_expr
        },
        _ => match resolved {
            Some((def, substs)) => {
                let (qself, path) = reflect_def_path_inner(model, def, Some(substs));
                let new_expr = Expr::Path { qself, path };
                assert(new_expr@ == ExprView::Path { qself: qself_view(qself), path: path@ });
                new_expr
            },
            None => e,
        },
    };
    assert(expected->expr == new_expr@);
    let ast_ty = reflect_tcx_ty(model, ty);
    let ascribed = Expr::Type { expr: Box::new(new_expr), ty: Box::new(ast_ty) };
    assert(ascribed@ == ExprView::Type { expr: Box::new(new_expr@), ty: Box::new(ast_ty@) });
    ascribed
}

/// The parts of the type of a function item over a model are over that
/// model.
pub proof fn lemma_contains_fn_def(m: ModelView, def: DefId, args: Seq<SemanticTypeView>)
    requires
        m.contains_ty(SemanticTypeView::FnDef { def, args }),
    ensures
        m.contains(def),
        m.contains_tys(args),
{
    assert forall|i: int| 0 <= i < args.len() implies m.contains_ty(#[trigger] args[i]) by {
        lemma_tys_bound_index(args, i);
    }
}

/// Where no generic arguments are written, every ascent through a
/// well-formed model is fitted.
pub proof fn lemma_no_window_fits(m: ModelView, id: DefId, have_segments: bool)
    requires
        m.wf(),
        m.contains(id),
    ensures
        m.window_fits(id, None, have_segments),
    decreases id.index,
{
    let d = m.def(id);
    assert(m.admits_at(m.defs[id.index as int], id.index as nat));
    match d.component {
        PathComponentView::CrateRoot => {},
        PathComponentView::Impl { .. } => {},
        PathComponentView::ValueNs { .. } if have_segments => {},
        PathComponentView::NonPrintable { kind: NonPrintable::Ctor } => {
            if let Some(p) = d.parent {
                lemma_no_window_fits(m, p, have_segments);
            }
        },
        _ => {
            let name = emitted_name(d.component, have_segments);
            if let Some(p) = m.next(id) {
                lemma_no_window_fits(m, p, have_segments || name is Some);
            }
        },
    }
}

/// Whether `reflect_def_path_inner` can be asked for the definition `id`
/// with the window `opt_substs`.
pub fn can_reflect_def_path(
    model: &SemanticModel,
    id: DefId,
    opt_substs: Option<&Vec<SemanticType>>,
) -> (can: bool)
    ensures
        can == path_reflectable(model@, id, window_view(opt_substs)),
{
    if !model.path_bearing(id) {
        return false;
    }
    match opt_substs {
        Some(tys) => {
            proof {
                lemma_types_view(tys@);
            }
            model.window_fits(id, Some(tys.len()), false) && model.has_types(tys)
        },
        None => model.window_fits(id, None, false),
    }
}

} // verus!
