//! What holds of reflection over every model.
use crate::ast::{ExprView, LitIntType, LitView, PathSegmentView, PathView, QSelfView, TyView};
use crate::model::{ModelView, NonPrintable, PathComponentView, LOCAL_CRATE};
use crate::nodes::{can_reflect_path_spec, NodeId, NodeKind};
use crate::reflect::{
    ascend_spec, ascent_through_impl, emitted_name, has_generics, ident_ty, infer_tys, own_args,
    plain_segment, reflect_def_path_spec, reflect_range_spec, reflect_ty_spec, remaining_after,
    root_segment, self_segment, type_param_count, window_len, window_types, writes_args, ModeView,
};
use crate::resolve::{left_over, reaches_root};
use crate::semantic::{
    float_ty_name, int_ty_name, ty_bound, uint_ty_name, ArrayLen, DefId, FloatTy, IntTy,
    SemanticTypeView, UintTy,
};
use crate::subst::{lemma_reflect_subst, subst_spec};
use vstd::prelude::*;

verus! {

/// The canonical spelling of a primitive type; none for any other type.
pub open spec fn primitive_name(ty: SemanticTypeView) -> Option<Seq<char>> {
    match ty {
        SemanticTypeView::Bool => Some("bool"@),
        SemanticTypeView::Char => Some("char"@),
        SemanticTypeView::Int(kind) => Some(int_ty_name(kind)),
        SemanticTypeView::Uint(kind) => Some(uint_ty_name(kind)),
        SemanticTypeView::Float(kind) => Some(float_ty_name(kind)),
        SemanticTypeView::Str => Some("str"@),
        _ => None,
    }
}

/// A primitive type is written as its canonical spelling and nothing else,
/// over every model and in every mode. It is never left to inference.
pub proof fn lemma_primitive_spelling(m: ModelView, ty: SemanticTypeView, mode: ModeView)
    requires
        primitive_name(ty) is Some,
    ensures
        reflect_ty_spec(m, ty, mode) == ident_ty(primitive_name(ty)->0),
        reflect_ty_spec(m, ty, mode) != TyView::Infer,
{
}

/// The canonical spellings, character by character.
pub proof fn lemma_spellings()
    ensures
        primitive_name(SemanticTypeView::Bool) == Some(seq!['b', 'o', 'o', 'l']),
        primitive_name(SemanticTypeView::Char) == Some(seq!['c', 'h', 'a', 'r']),
        primitive_name(SemanticTypeView::Str) == Some(seq!['s', 't', 'r']),
        int_ty_name(IntTy::Isize) == seq!['i', 's', 'i', 'z', 'e'],
        int_ty_name(IntTy::I8) == seq!['i', '8'],
        int_ty_name(IntTy::I16) == seq!['i', '1', '6'],
        int_ty_name(IntTy::I32) == seq!['i', '3', '2'],
        int_ty_name(IntTy::I64) == seq!['i', '6', '4'],
        int_ty_name(IntTy::I128) == seq!['i', '1', '2', '8'],
        uint_ty_name(UintTy::Usize) == seq!['u', 's', 'i', 'z', 'e'],
        uint_ty_name(UintTy::U8) == seq!['u', '8'],
        uint_ty_name(UintTy::U16) == seq!['u', '1', '6'],
        uint_ty_name(UintTy::U32) == seq!['u', '3', '2'],
        uint_ty_name(UintTy::U64) == seq!['u', '6', '4'],
        uint_ty_name(UintTy::U128) == seq!['u', '1', '2', '8'],
        float_ty_name(FloatTy::F32) == seq!['f', '3', '2'],
        float_ty_name(FloatTy::F64) == seq!['f', '6', '4'],
{
    reveal_strlit("bool");
    reveal_strlit("char");
    reveal_strlit("str");
    reveal_strlit("isize");
    reveal_strlit("i8");
    reveal_strlit("i16");
    reveal_strlit("i32");
    reveal_strlit("i64");
    reveal_strlit("i128");
    reveal_strlit("usize");
    reveal_strlit("u8");
    reveal_strlit("u16");
    reveal_strlit("u32");
    reveal_strlit("u64");
    reveal_strlit("u128");
    reveal_strlit("f32");
    reveal_strlit("f64");
    assert("bool"@ =~= seq!['b', 'o', 'o', 'l']);
    assert("char"@ =~= seq!['c', 'h', 'a', 'r']);
    assert("str"@ =~= seq!['s', 't', 'r']);
    assert("isize"@ =~= seq!['i', 's', 'i', 'z', 'e']);
    assert("i8"@ =~= seq!['i', '8']);
    assert("i16"@ =~= seq!['i', '1', '6']);
    assert("i32"@ =~= seq!['i', '3', '2']);
    assert("i64"@ =~= seq!['i', '6', '4']);
    assert("i128"@ =~= seq!['i', '1', '2', '8']);
    assert("usize"@ =~= seq!['u', 's', 'i', 'z', 'e']);
    assert("u8"@ =~= seq!['u', '8']);
    assert("u16"@ =~= seq!['u', '1', '6']);
    assert("u32"@ =~= seq!['u', '3', '2']);
    assert("u64"@ =~= seq!['u', '6', '4']);
    assert("u128"@ =~= seq!['u', '1', '2', '8']);
    assert("f32"@ =~= seq!['f', '3', '2']);
    assert("f64"@ =~= seq!['f', '6', '4']);
}

/// No two primitive types share a spelling.
pub proof fn lemma_spelling_names_one_type(a: SemanticTypeView, b: SemanticTypeView)
    requires
        primitive_name(a) is Some,
        primitive_name(a) == primitive_name(b),
    ensures
        a == b,
{
    lemma_spellings();
    let x = primitive_name(a)->0;
    let y = primitive_name(b)->0;
    assert(x.len() == y.len());
    assert(x[0] == y[0]);
    assert(x[1] == y[1]);
    if x.len() > 2 {
        assert(x[2] == y[2]);
    }
}

/// Whether a type is of a kind that has no surface syntax: the type of a
/// function item, or one of the other kinds that cannot be written.
pub open spec fn has_no_spelling(ty: SemanticTypeView) -> bool {
    ty is FnDef || ty is Unsupported
}

/// A type without surface syntax is left to inference, over every model and
/// in every mode.
pub proof fn lemma_unsupported_is_inferred(m: ModelView, ty: SemanticTypeView, mode: ModeView)
    requires
        has_no_spelling(ty),
    ensures
        reflect_ty_spec(m, ty, mode) == TyView::Infer,
{
}

/// The root of the local compilation unit is written as the one segment
/// that names that unit, without a qualifier, whatever the window and mode.
pub proof fn lemma_local_crate_root(
    m: ModelView,
    id: DefId,
    window: Option<Seq<SemanticTypeView>>,
    mode: ModeView,
)
    requires
        m.wf(),
        m.contains(id),
        m.def(id).component is CrateRoot,
        m.def(id).krate == LOCAL_CRATE,
    ensures
        reflect_def_path_spec(m, id, window, mode) == (
            None::<QSelfView>,
            PathView { segments: seq![plain_segment(self_segment())] },
        ),
{
    let out = ascend_spec(m, id, window_types(window), window_len(window), mode, Seq::empty());
    assert(out.segments =~= seq![plain_segment(self_segment())]);
    assert(out.segments.reverse() =~= seq![plain_segment(self_segment())]);
}

/// The root of another compilation unit is written as the root segment
/// followed by the declared name of that unit, without a qualifier.
pub proof fn lemma_extern_crate_root(
    m: ModelView,
    id: DefId,
    window: Option<Seq<SemanticTypeView>>,
    mode: ModeView,
)
    requires
        m.wf(),
        m.contains(id),
        m.def(id).component is CrateRoot,
        m.def(id).krate != LOCAL_CRATE,
    ensures
        reflect_def_path_spec(m, id, window, mode) == (
            None::<QSelfView>,
            PathView {
                segments: seq![
                    plain_segment(root_segment()),
                    plain_segment(m.crates[m.def(id).krate as int]),
                ],
            },
        ),
{
    let out = ascend_spec(m, id, window_types(window), window_len(window), mode, Seq::empty());
    let name = plain_segment(m.crates[m.def(id).krate as int]);
    assert(out.segments =~= seq![name, plain_segment(root_segment())]);
    assert(out.segments.reverse() =~= seq![plain_segment(root_segment()), name]);
}

/// Reflection has no state: whatever two reflections of one definition over
/// one model return, with no window or with an empty one, is the same path.
pub proof fn lemma_reflect_def_path_again(
    m: ModelView,
    id: DefId,
    window: Option<Seq<SemanticTypeView>>,
    first: (Option<QSelfView>, PathView),
    second: (Option<QSelfView>, PathView),
)
    requires
        window_types(window).len() == 0,
        first == reflect_def_path_spec(m, id, window, ModeView::Concrete),
        second == reflect_def_path_spec(m, id, window, ModeView::Concrete),
    ensures
        first == second,
{
}

/// How many of `segments` have the name `ident`.
pub open spec fn count_ident(segments: Seq<PathSegmentView>, ident: Seq<char>) -> nat
    decreases segments.len(),
{
    if segments.len() == 0 {
        0
    } else {
        count_ident(segments.drop_last(), ident) + if segments.last().ident == ident {
            1nat
        } else {
            0nat
        }
    }
}

/// The segments that an ascent has collected stay where they are: what the
/// ascent adds comes behind them.
pub proof fn lemma_ascent_keeps_segments(
    m: ModelView,
    id: DefId,
    window: Seq<SemanticTypeView>,
    remaining: Option<nat>,
    mode: ModeView,
    segments: Seq<PathSegmentView>,
)
    requires
        m.wf(),
        m.contains(id),
    ensures
        segments.is_prefix_of(ascend_spec(m, id, window, remaining, mode, segments).segments),
    decreases id.index,
{
    let d = m.def(id);
    assert(m.admits_at(m.defs[id.index as int], id.index as nat));
    match d.component {
        PathComponentView::CrateRoot => {},
        PathComponentView::Impl { .. } => {},
        PathComponentView::ValueNs { .. } if segments.len() > 0 => {},
        PathComponentView::NonPrintable { kind: NonPrintable::Ctor } => {
            if let Some(p) = d.parent {
                lemma_ascent_keeps_segments(m, p, window, remaining, mode, segments);
            }
        },
        _ => {
            if let Some(p) = m.next(id) {
                let name = emitted_name(d.component, segments.len() > 0);
                let left = remaining_after(name, d.kind, d.generics, remaining);
                match name {
                    Some(ident) => {
                        let args = if writes_args(name, d.kind, remaining) {
                            Some(reflect_range_spec(m, window, left->0, remaining->0, mode))
                        } else {
                            None
                        };
                        let longer = segments.push(PathSegmentView { ident, args });
                        lemma_ascent_keeps_segments(m, p, window, left, mode, longer);
                    },
                    None => {
                        lemma_ascent_keeps_segments(m, p, window, left, mode, segments);
                    },
                }
            }
        },
    }
}

/// The path of a constructor is the path of the struct or variant that owns
/// it: the ascent goes from the constructor to its owner before anything is
/// written.
pub proof fn lemma_ctor_path_is_owner_path(
    m: ModelView,
    ctor: DefId,
    owner: DefId,
    window: Option<Seq<SemanticTypeView>>,
    mode: ModeView,
)
    requires
        m.wf(),
        m.contains(ctor),
        m.def(ctor).component == (PathComponentView::NonPrintable { kind: NonPrintable::Ctor }),
        m.def(ctor).parent == Some(owner),
    ensures
        reflect_def_path_spec(m, ctor, window, mode) == reflect_def_path_spec(
            m,
            owner,
            window,
            mode,
        ),
{
}

/// The segments that the ascent from `owner` collects above `owner`.
pub open spec fn segments_above(
    m: ModelView,
    owner: DefId,
    window: Option<Seq<SemanticTypeView>>,
    mode: ModeView,
) -> Seq<PathSegmentView> {
    ascend_spec(
        m,
        owner,
        window_types(window),
        window_len(window),
        mode,
        Seq::empty(),
    ).segments.skip(1)
}

/// The path of a constructor ends in the name of the struct or variant that
/// owns it, however deep the owner is nested, and holds that name once more
/// than the segments above the owner do: exactly once where they do not
/// hold it.
pub proof fn lemma_ctor_path_names_owner(
    m: ModelView,
    ctor: DefId,
    owner: DefId,
    name: Seq<char>,
    window: Option<Seq<SemanticTypeView>>,
    mode: ModeView,
)
    requires
        m.wf(),
        m.contains(ctor),
        m.def(ctor).component == (PathComponentView::NonPrintable { kind: NonPrintable::Ctor }),
        m.def(ctor).parent == Some(owner),
        m.def(owner).component == (PathComponentView::TypeNs { name }),
        name.len() > 0,
    ensures
        reflect_def_path_spec(m, ctor, window, mode).1.segments.len() > 0,
        reflect_def_path_spec(m, ctor, window, mode).1.segments.last().ident == name,
        count_ident(reflect_def_path_spec(m, ctor, window, mode).1.segments, name) == 1
            + count_ident(segments_above(m, owner, window, mode), name),
        count_ident(segments_above(m, owner, window, mode), name) == 0 ==> count_ident(
            reflect_def_path_spec(m, ctor, window, mode).1.segments,
            name,
        ) == 1,
{
    let w = window_types(window);
    let r = window_len(window);
    assert(m.admits_at(m.defs[ctor.index as int], ctor.index as nat));
    assert(m.admits_at(m.defs[owner.index as int], owner.index as nat));
    let d = m.def(owner);
    let out = ascend_spec(m, owner, w, r, mode, Seq::empty());
    let left = remaining_after(Some(name), d.kind, d.generics, r);
    let args = if writes_args(Some(name), d.kind, r) {
        Some(reflect_range_spec(m, w, left->0, r->0, mode))
    } else {
        None
    };
    let first = Seq::<PathSegmentView>::empty().push(PathSegmentView { ident: name, args });
    match m.next(owner) {
        Some(p) => {
            lemma_ascent_keeps_segments(m, p, w, left, mode, first);
        },
        None => {},
    }
    assert(first.is_prefix_of(out.segments));
    assert(out.segments[0] == first[0]);
    let path = out.segments.reverse();
    assert(path.last() == out.segments[0]);
    lemma_count_ident_reverse(out.segments, name);
    lemma_count_ident_first(out.segments, name);
}

/// Turning a sequence of segments round does not change how often it holds
/// a name.
pub proof fn lemma_count_ident_reverse(segments: Seq<PathSegmentView>, ident: Seq<char>)
    ensures
        count_ident(segments.reverse(), ident) == count_ident(segments, ident),
    decreases segments.len(),
{
    if segments.len() > 0 {
        let rest = segments.skip(1);
        lemma_count_ident_reverse(rest, ident);
        lemma_count_ident_first(segments, ident);
        assert(segments.reverse().drop_last() =~= rest.reverse());
        assert(segments.reverse().last() == segments[0]);
    } else {
        assert(segments.reverse() =~= segments);
    }
}

/// A sequence of segments holds a name as often as the segments after its
/// first do, and once more if the first has that name.
pub proof fn lemma_count_ident_first(segments: Seq<PathSegmentView>, ident: Seq<char>)
    requires
        segments.len() > 0,
    ensures
        count_ident(segments, ident) == count_ident(segments.skip(1), ident) + if segments[0].ident
            == ident {
            1nat
        } else {
            0nat
        },
    decreases segments.len(),
{
    if segments.len() == 1 {
        assert(segments.drop_last() =~= Seq::<PathSegmentView>::empty());
        assert(segments.skip(1) =~= Seq::<PathSegmentView>::empty());
    } else {
        lemma_count_ident_first(segments.drop_last(), ident);
        assert(segments.drop_last().skip(1) =~= segments.skip(1).drop_last());
        assert(segments.skip(1).last() == segments.last());
    }
}

/// The path of an `impl` block with a window of as many arguments as the
/// block declares generic parameters is made from the self type of the
/// block with the arguments substituted for its parameters, reflected with
/// everything spelled out.
pub proof fn lemma_impl_path_substitutes(
    m: ModelView,
    id: DefId,
    self_ty: SemanticTypeView,
    window: Seq<SemanticTypeView>,
)
    requires
        m.wf(),
        m.contains(id),
        m.def(id).component == (PathComponentView::Impl { self_ty }),
        window.len() == m.def(id).generics.len(),
    ensures
        ascend_spec(m, id, window, Some(window.len()), ModeView::Concrete, Seq::empty())
            == ascent_through_impl(
            reflect_ty_spec(m, subst_spec(self_ty, window), ModeView::Concrete),
            Seq::empty(),
        ),
{
    assert(m.admits_at(m.defs[id.index as int], id.index as nat));
    assert(ty_bound(self_ty) <= m.defs.len());
    lemma_reflect_subst(m, self_ty, window);
}

/// How many generic arguments the ascent from `id` writes if it has enough
/// of them: the sum of the type-parameter counts of the definitions from
/// `id` upward at which arguments are written, and of the `impl` block that
/// the ascent ends in, if it ends in one. `have_segments` says whether a
/// segment has been collected below `id`.
pub open spec fn params_above(m: ModelView, id: DefId, have_segments: bool) -> nat
    decreases id.index,
    when m.wf() && m.contains(id)
{
    let d = m.def(id);
    match d.component {
        PathComponentView::CrateRoot => 0,
        PathComponentView::Impl { .. } => type_param_count(d.generics),
        PathComponentView::ValueNs { .. } if have_segments => 0,
        PathComponentView::NonPrintable { kind: NonPrintable::Ctor } => match d.parent {
            Some(p) => params_above(m, p, have_segments),
            None => 0,
        },
        _ => {
            let name = emitted_name(d.component, have_segments);
            let own = if name is Some && has_generics(d.kind) {
                type_param_count(d.generics)
            } else {
                0
            };
            own + match m.next(id) {
                Some(p) => params_above(m, p, have_segments || name is Some),
                None => 0,
            }
        },
    }
}

/// A window that holds as many arguments as the definitions above still
/// take keeps doing so on the way up: a definition at which arguments are
/// written takes exactly as many as it declares type parameters, from the
/// end of the window, and what remains is what the definitions above it
/// take.
pub proof fn lemma_window_keeps_fitting(
    m: ModelView,
    id: DefId,
    above: DefId,
    remaining: nat,
    have_segments: bool,
)
    requires
        m.wf(),
        m.contains(id),
        !(m.def(id).component is CrateRoot),
        !(m.def(id).component is Impl),
        !(m.def(id).component is ValueNs && have_segments),
        m.def(id).component != (PathComponentView::NonPrintable { kind: NonPrintable::Ctor }),
        m.next(id) == Some(above),
        remaining == params_above(m, id, have_segments),
    ensures
        ({
            let d = m.def(id);
            let name = emitted_name(d.component, have_segments);
            &&& writes_args(name, d.kind, Some(remaining)) ==> type_param_count(d.generics)
                <= remaining
            &&& remaining_after(name, d.kind, d.generics, Some(remaining)) == Some(
                params_above(m, above, have_segments || name is Some),
            )
        }),
{
    assert(m.admits_at(m.defs[id.index as int], id.index as nat));
}

/// Where a window holds as many arguments as the definitions above take,
/// and the ascent leads through named entries of the type namespace to a
/// root, no argument is left unwritten at the end.
pub proof fn lemma_fitting_window_is_used_up(m: ModelView, id: DefId, have_segments: bool)
    requires
        m.wf(),
        m.contains(id),
        reaches_root(m, id),
    ensures
        left_over(m, id, params_above(m, id, have_segments)) == 0,
    decreases id.index,
{
    assert(m.admits_at(m.defs[id.index as int], id.index as nat));
    let d = m.def(id);
    match d.component {
        PathComponentView::TypeNs { name } => {
            let p = m.next(id)->0;
            lemma_window_keeps_fitting(m, id, p, params_above(m, id, have_segments), have_segments);
            lemma_fitting_window_is_used_up(m, p, true);
        },
        _ => {},
    }
}

/// An array type of known length is written as the array of its reflected
/// element type, with the length as a literal of the unsigned size type.
pub proof fn lemma_array_length_literal(
    m: ModelView,
    elem: SemanticTypeView,
    len: u64,
    mode: ModeView,
)
    ensures
        reflect_ty_spec(
            m,
            SemanticTypeView::Array { elem: Box::new(elem), len: ArrayLen::Value(len) },
            mode,
        ) == (TyView::Array {
            elem: Box::new(reflect_ty_spec(m, elem, mode.inner())),
            len: Box::new(
                ExprView::Lit {
                    lit: LitView::Int(len as u128, LitIntType::Unsigned(UintTy::Usize)),
                },
            ),
        }),
{
}

/// A node that denotes an expression has no path, whatever its identifier
/// and whatever else the table holds.
pub proof fn lemma_expression_has_no_path(nodes: Map<u32, NodeKind>, id: NodeId)
    requires
        nodes.contains_key(id.index),
        nodes[id.index] == NodeKind::Expr,
    ensures
        !can_reflect_path_spec(nodes, id),
{
}

/// A node that denotes the declaration of a field has a path, whatever its
/// identifier and whatever else the table holds.
pub proof fn lemma_field_has_a_path(nodes: Map<u32, NodeKind>, id: NodeId)
    requires
        nodes.contains_key(id.index),
        nodes[id.index] == NodeKind::Field,
    ensures
        can_reflect_path_spec(nodes, id),
{
}

/// In generic mode an aggregate is written independently of its generic
/// arguments: whatever they are, and however many, the type expression is
/// the same.
pub proof fn lemma_generic_mode_ignores_arguments(
    m: ModelView,
    def: DefId,
    first: Seq<SemanticTypeView>,
    second: Seq<SemanticTypeView>,
)
    ensures
        reflect_ty_spec(m, SemanticTypeView::Adt { def, args: first }, ModeView::Generic)
            == reflect_ty_spec(m, SemanticTypeView::Adt { def, args: second }, ModeView::Generic),
{
}

/// In generic mode the own generic arguments of an aggregate are written as
/// inference placeholders: the last segment of its path is the name of the
/// aggregate with one placeholder for each type parameter that the
/// aggregate declares.
pub proof fn lemma_generic_mode_writes_placeholders(
    m: ModelView,
    def: DefId,
    name: Seq<char>,
    args: Seq<SemanticTypeView>,
)
    requires
        m.wf(),
        m.contains(def),
        m.def(def).component == (PathComponentView::TypeNs { name }),
        name.len() > 0,
        has_generics(m.def(def).kind),
        type_param_count(m.def(def).generics) > 0,
    ensures
        reflect_ty_spec(m, SemanticTypeView::Adt { def, args }, ModeView::Generic) is Path,
        reflect_ty_spec(
            m,
            SemanticTypeView::Adt { def, args },
            ModeView::Generic,
        )->path.segments.len() > 0,
        reflect_ty_spec(
            m,
            SemanticTypeView::Adt { def, args },
            ModeView::Generic,
        )->path.segments.last() == (PathSegmentView {
            ident: name,
            args: Some(infer_tys(type_param_count(m.def(def).generics))),
        }),
{
    let d = m.def(def);
    let none = Seq::<PathSegmentView>::empty();
    assert(m.admits_at(m.defs[def.index as int], def.index as nat));
    let window = Seq::<SemanticTypeView>::empty();
    let out = ascend_spec(m, def, window, None, ModeView::Concrete, none);
    let first = none.push(PathSegmentView { ident: name, args: None });
    match m.next(def) {
        Some(p) => {
            lemma_ascent_keeps_segments(m, p, window, None, ModeView::Concrete, first);
        },
        None => {},
    }
    assert(first.is_prefix_of(out.segments));
    assert(out.segments[0] == first[0]);
    let named = reflect_def_path_spec(m, def, None, ModeView::Concrete);
    assert(named.1.segments == out.segments.reverse());
    assert(named.1.segments.last() == out.segments[0]);
    assert(own_args(m, def) == type_param_count(d.generics));
}

/// A window that holds exactly as many arguments as the definitions from
/// `id` upward take fits the ascent from `id`.
pub proof fn lemma_full_window_fits(m: ModelView, id: DefId, have_segments: bool)
    requires
        m.wf(),
        m.contains(id),
    ensures
        m.window_fits(id, Some(params_above(m, id, have_segments)), have_segments),
    decreases id.index,
{
    assert(m.admits_at(m.defs[id.index as int], id.index as nat));
    let d = m.def(id);
    match d.component {
        PathComponentView::CrateRoot => {},
        PathComponentView::Impl { .. } => {},
        PathComponentView::ValueNs { .. } if have_segments => {},
        PathComponentView::NonPrintable { kind: NonPrintable::Ctor } => {
            if let Some(p) = d.parent {
                lemma_full_window_fits(m, p, have_segments);
            }
        },
        _ => {
            let name = emitted_name(d.component, have_segments);
            if let Some(p) = m.next(id) {
                lemma_window_keeps_fitting(
                    m,
                    id,
                    p,
                    params_above(m, id, have_segments),
                    have_segments,
                );
                lemma_full_window_fits(m, p, have_segments || name is Some);
            }
        },
    }
}

} // verus!
