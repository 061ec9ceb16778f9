//! The semantic model: the definitions of a program and of the units it
//! depends on, with what is known of each.
use crate::ast::{BinOpKind, Lit, LitView, UnOp};
use crate::semantic::{
    lemma_types_view, lemma_tys_bound_index, lemma_tys_bound_le, ty_bound, types_view, tys_bound,
    ArrayLen, DefId, SemanticType, SemanticTypeView,
};
use crate::reflect::{
    count_type_params, emitted_name, kind_has_generics, remaining_after, type_param_count,
    writes_args,
};
use vstd::prelude::*;

verus! {

/// The number of the compilation unit that is being worked on. The units it
/// depends on have other numbers.
pub const LOCAL_CRATE: usize = 0;

/// What a definition is.
#[derive(Clone, Copy, Debug, PartialEq, Eq, Hash, Structural)]
pub enum DefKind {
    Mod,
    Struct,
    Union,
    Enum,
    Variant,
    Trait,
    OpaqueTy,
    TyAlias,
    ForeignTy,
    TraitAlias,
    AssocTy,
    AssocOpaqueTy,
    TyParam,
    Fn,
    Const,
    ConstParam,
    Static,
    Ctor,
    Method,
    AssocConst,
    Macro,
}

/// The kind of one generic parameter that a definition declares.
#[derive(Clone, Copy, Debug, PartialEq, Eq, Hash, Structural)]
pub enum GenericParamKind {
    Lifetime,
    Type,
    Const,
}

/// The path components that are never written in a path.
#[derive(Clone, Copy, Debug, PartialEq, Eq, Hash, Structural)]
pub enum NonPrintable {
    Misc,
    Lifetime,
    Macro,
    ClosureExpr,
    Ctor,
    AnonConst,
    ImplTrait,
}

/// The mathematical value of a path component.
pub enum PathComponentView {
    CrateRoot,
    Impl { self_ty: SemanticTypeView },
    ValueNs { name: Seq<char> },
    TypeNs { name: Seq<char> },
    NonPrintable { kind: NonPrintable },
}

/// What a definition contributes to the paths that lead through it.
#[derive(Debug, PartialEq, Eq)]
pub enum PathComponent {
    /// The root of a compilation unit.
    CrateRoot,
    /// An `impl` block, with the type that it implements.
    Impl { self_ty: SemanticType },
    /// A named entry of the value namespace.
    ValueNs { name: String },
    /// A named entry of the type namespace.
    TypeNs { name: String },
    /// A component without a name in paths.
    NonPrintable { kind: NonPrintable },
}

impl View for PathComponent {
    type V = PathComponentView;

    open spec fn view(&self) -> PathComponentView {
        match self {
            PathComponent::CrateRoot => PathComponentView::CrateRoot,
            PathComponent::Impl { self_ty } => PathComponentView::Impl { self_ty: self_ty@ },
            PathComponent::ValueNs { name } => PathComponentView::ValueNs { name: name@ },
            PathComponent::TypeNs { name } => PathComponentView::TypeNs { name: name@ },
            PathComponent::NonPrintable { kind } => PathComponentView::NonPrintable { kind: *kind },
        }
    }
}

/// The mathematical value of the body of a constant.
#[allow(inconsistent_fields)]
pub enum ConstBodyView {
    Lit { lit: LitView },
    Unary { op: UnOp, operand: Box<ConstBodyView> },
    Binary { op: BinOpKind, lhs: Box<ConstBodyView>, rhs: Box<ConstBodyView> },
    Other,
}

/// The body of a constant, as far as its shape matters: a literal, an
/// operation on such bodies, or anything else.
#[allow(inconsistent_fields)]
#[derive(Debug, PartialEq, Eq)]
pub enum ConstBody {
    Lit { lit: Lit },
    Unary { op: UnOp, operand: Box<ConstBody> },
    Binary { op: BinOpKind, lhs: Box<ConstBody>, rhs: Box<ConstBody> },
    Other,
}

/// The value of the body of a constant.
pub open spec fn const_body_view(body: ConstBody) -> ConstBodyView
    decreases body,
{
    match body {
        ConstBody::Lit { lit } => ConstBodyView::Lit { lit: lit@ },
        ConstBody::Unary { op, operand } => ConstBodyView::Unary {
            op,
            operand: Box::new(const_body_view(*operand)),
        },
        ConstBody::Binary { op, lhs, rhs } => ConstBodyView::Binary {
            op,
            lhs: Box::new(const_body_view(*lhs)),
            rhs: Box::new(const_body_view(*rhs)),
        },
        ConstBody::Other => ConstBodyView::Other,
    }
}

impl View for ConstBody {
    type V = ConstBodyView;

    open spec fn view(&self) -> ConstBodyView {
        const_body_view(*self)
    }
}

/// The mathematical value of what is known of one definition.
pub struct DefView {
    pub krate: usize,
    pub component: PathComponentView,
    pub kind: Option<DefKind>,
    pub parent: Option<DefId>,
    pub visible_parent: Option<DefId>,
    pub generics: Seq<GenericParamKind>,
    pub const_value: Option<u64>,
    pub const_body: Option<ConstBodyView>,
}

/// What is known of one definition.
#[derive(Debug, PartialEq, Eq)]
pub struct DefData {
    /// The number of the compilation unit that owns the definition.
    pub krate: usize,
    /// What the definition contributes to a path.
    pub component: PathComponent,
    /// What the definition is, where that is known.
    pub kind: Option<DefKind>,
    /// The definition that this one is nested in.
    pub parent: Option<DefId>,
    /// The nearest ancestor through which this definition is visible from
    /// outside, where the reachability table has an entry for it.
    pub visible_parent: Option<DefId>,
    /// The generic parameters that the definition itself declares, in order.
    pub generics: Vec<GenericParamKind>,
    /// The value of the definition, where it is a constant that evaluates
    /// to an unsigned number.
    pub const_value: Option<u64>,
    /// The body of the definition, where it is an anonymous constant.
    pub const_body: Option<ConstBody>,
}

impl View for DefData {
    type V = DefView;

    open spec fn view(&self) -> DefView {
        DefView {
            krate: self.krate,
            component: self.component@,
            kind: self.kind,
            parent: self.parent,
            visible_parent: self.visible_parent,
            generics: self.generics@,
            const_value: self.const_value,
            const_body: match self.const_body {
                Some(body) => Some(body@),
                None => None,
            },
        }
    }
}

/// The mathematical value of a semantic model.
pub struct ModelView {
    /// The declared names of the compilation units, by number.
    pub crates: Seq<Seq<char>>,
    /// The definitions, by the index of their identifier.
    pub defs: Seq<DefView>,
}

impl ModelView {
    /// Whether `id` names a definition of this model.
    pub open spec fn contains(self, id: DefId) -> bool {
        id.index < self.defs.len()
    }

    /// What the model knows of `id`.
    pub open spec fn def(self, id: DefId) -> DefView {
        self.defs[id.index as int]
    }

    /// Whether the definition behind `id` is a constant with a known value.
    pub open spec fn evaluates(self, id: DefId) -> bool {
        self.contains(id) && self.def(id).const_value is Some
    }

    /// Whether `id` names a definition of this model that has a path: one
    /// that is no closure, no anonymous constant and no `impl Trait` type.
    pub open spec fn path_bearing(self, id: DefId) -> bool {
        self.contains(id) && match self.def(id).component {
            PathComponentView::NonPrintable { kind } => kind != NonPrintable::ClosureExpr && kind
                != NonPrintable::AnonConst && kind != NonPrintable::ImplTrait,
            _ => true,
        }
    }

    /// Whether a window of which `remaining` generic arguments are still to
    /// be written fits the ascent from `id`: every definition at which
    /// arguments are written finds at least as many as it declares type
    /// parameters. `have_segments` says whether a segment has been collected
    /// below `id`.
    pub open spec fn window_fits(
        self,
        id: DefId,
        remaining: Option<nat>,
        have_segments: bool,
    ) -> bool
        decreases id.index,
    {
        if !self.contains(id) {
            false
        } else {
            let d = self.def(id);
            match d.component {
                PathComponentView::CrateRoot => true,
                PathComponentView::Impl { .. } => true,
                PathComponentView::ValueNs { .. } if have_segments => true,
                PathComponentView::NonPrintable { kind: NonPrintable::Ctor } => match d.parent {
                    Some(p) => p.index < id.index && self.window_fits(p, remaining, have_segments),
                    None => true,
                },
                _ => {
                    let name = emitted_name(d.component, have_segments);
                    (writes_args(name, d.kind, remaining) ==> type_param_count(d.generics)
                        <= remaining->0) && match self.next(id) {
                        Some(p) => p.index < id.index && self.window_fits(
                            p,
                            remaining_after(name, d.kind, d.generics, remaining),
                            have_segments || name is Some,
                        ),
                        None => true,
                    }
                },
            }
        }
    }

    /// Whether `ty` is sound over the model: every aggregate in it names a
    /// definition that has a path and has generic arguments that fit the
    /// ascent from that definition, every foreign type names a definition
    /// that has a path, and every array length is a number or a constant
    /// that the model can evaluate.
    pub open spec fn ty_sound(self, ty: SemanticTypeView) -> bool
        decreases ty,
    {
        match ty {
            SemanticTypeView::Adt { def, args } => {
                &&& self.path_bearing(def)
                &&& self.window_fits(def, Some(args.len()), false)
                &&& forall|i: int| 0 <= i < args.len() ==> self.ty_sound(#[trigger] args[i])
            },
            SemanticTypeView::Foreign { def } => self.path_bearing(def),
            SemanticTypeView::FnDef { args, .. } => forall|i: int|
                0 <= i < args.len() ==> self.ty_sound(#[trigger] args[i]),
            SemanticTypeView::Array { elem, len } => self.ty_sound(*elem) && match len {
                ArrayLen::Value(_) => true,
                ArrayLen::Unevaluated(def) => self.evaluates(def),
            },
            SemanticTypeView::Slice { elem } => self.ty_sound(*elem),
            SemanticTypeView::RawPtr { pointee, .. } => self.ty_sound(*pointee),
            SemanticTypeView::Ref { pointee, .. } => self.ty_sound(*pointee),
            SemanticTypeView::Tuple { elems } => forall|i: int|
                0 <= i < elems.len() ==> self.ty_sound(#[trigger] elems[i]),
            _ => true,
        }
    }

    /// Whether `ty` names only definitions with an index under `limit`, and
    /// is sound over the model.
    pub open spec fn ty_below(self, ty: SemanticTypeView, limit: nat) -> bool {
        ty_bound(ty) <= limit && self.ty_sound(ty)
    }

    /// Whether `ty` is a type over this model: it names only definitions of
    /// the model, and is sound over it.
    pub open spec fn contains_ty(self, ty: SemanticTypeView) -> bool {
        self.ty_below(ty, self.defs.len())
    }

    /// Whether every one of `tys` is a type over this model.
    pub open spec fn contains_tys(self, tys: Seq<SemanticTypeView>) -> bool {
        forall|i: int| 0 <= i < tys.len() ==> self.contains_ty(#[trigger] tys[i])
    }

    /// Where the ascent goes from `id`: to the nearest ancestor through which
    /// it is visible, else to the definition it is nested in.
    pub open spec fn next(self, id: DefId) -> Option<DefId> {
        match self.def(id).visible_parent {
            Some(p) => Some(p),
            None => self.def(id).parent,
        }
    }

    /// Whether `data` can stand at index `at`: what it refers to stands
    /// before it.
    pub open spec fn admits_at(self, data: DefView, at: nat) -> bool {
        &&& data.krate < self.crates.len()
        &&& data.parent matches Some(p) ==> p.index < at
        &&& data.visible_parent matches Some(p) ==> p.index < at
        &&& data.component matches PathComponentView::Impl { self_ty } ==> self.ty_below(
            self_ty,
            at,
        )
    }

    /// Whether `data` can be added to the model as its next definition.
    pub open spec fn admits(self, data: DefView) -> bool {
        self.admits_at(data, self.defs.len())
    }

    /// The invariant of a model: it has a local unit, and every definition
    /// refers only to units of the model and to definitions that stand
    /// before it, so that no chain of references returns to where it began.
    pub open spec fn wf(self) -> bool {
        &&& self.crates.len() > LOCAL_CRATE
        &&& forall|i: int|
            0 <= i < self.defs.len() ==> self.admits_at(#[trigger] self.defs[i], i as nat)
    }
}

/// How many generic arguments are still to be written, as a number of the
/// specification.
pub open spec fn remaining_view(remaining: Option<usize>) -> Option<nat> {
    match remaining {
        Some(k) => Some(k as nat),
        None => None,
    }
}

/// Whether `later` holds all of `earlier`, at the same places.
pub open spec fn extends(later: ModelView, earlier: ModelView) -> bool {
    &&& earlier.crates.len() <= later.crates.len()
    &&& earlier.defs.len() <= later.defs.len()
    &&& forall|i: int| 0 <= i < earlier.crates.len() ==> later.crates[i] == earlier.crates[i]
    &&& forall|i: int| 0 <= i < earlier.defs.len() ==> later.defs[i] == earlier.defs[i]
}

/// A window that fits an ascent still fits it when the model grows.
pub proof fn lemma_window_fits_extends(
    later: ModelView,
    earlier: ModelView,
    id: DefId,
    remaining: Option<nat>,
    have_segments: bool,
)
    requires
        extends(later, earlier),
        earlier.window_fits(id, remaining, have_segments),
    ensures
        later.window_fits(id, remaining, have_segments),
    decreases id.index,
{
    let d = earlier.def(id);
    assert(later.def(id) == d);
    match d.component {
        PathComponentView::CrateRoot => {},
        PathComponentView::Impl { .. } => {},
        PathComponentView::ValueNs { .. } if have_segments => {},
        PathComponentView::NonPrintable { kind: NonPrintable::Ctor } => {
            if let Some(p) = d.parent {
                lemma_window_fits_extends(later, earlier, p, remaining, have_segments);
            }
        },
        _ => {
            let name = emitted_name(d.component, have_segments);
            if let Some(p) = earlier.next(id) {
                lemma_window_fits_extends(
                    later,
                    earlier,
                    p,
                    remaining_after(name, d.kind, d.generics, remaining),
                    have_segments || name is Some,
                );
            }
        },
    }
}

/// A type that is sound over a model stays so when the model grows.
pub proof fn lemma_ty_sound_extends(later: ModelView, earlier: ModelView, ty: SemanticTypeView)
    requires
        extends(later, earlier),
        earlier.ty_sound(ty),
    ensures
        later.ty_sound(ty),
    decreases ty,
{
    match ty {
        SemanticTypeView::Adt { def, args } => {
            lemma_window_fits_extends(later, earlier, def, Some(args.len()), false);
            assert forall|i: int| 0 <= i < args.len() implies later.ty_sound(
                #[trigger] args[i],
            ) by {
                lemma_ty_sound_extends(later, earlier, args[i]);
            }
        },
        SemanticTypeView::FnDef { args, .. } => {
            assert forall|i: int| 0 <= i < args.len() implies later.ty_sound(
                #[trigger] args[i],
            ) by {
                lemma_ty_sound_extends(later, earlier, args[i]);
            }
        },
        SemanticTypeView::Array { elem, .. } => {
            lemma_ty_sound_extends(later, earlier, *elem);
        },
        SemanticTypeView::Slice { elem } => {
            lemma_ty_sound_extends(later, earlier, *elem);
        },
        SemanticTypeView::RawPtr { pointee, .. } => {
            lemma_ty_sound_extends(later, earlier, *pointee);
        },
        SemanticTypeView::Ref { pointee, .. } => {
            lemma_ty_sound_extends(later, earlier, *pointee);
        },
        SemanticTypeView::Tuple { elems } => {
            assert forall|i: int| 0 <= i < elems.len() implies later.ty_sound(
                #[trigger] elems[i],
            ) by {
                lemma_ty_sound_extends(later, earlier, elems[i]);
            }
        },
        _ => {},
    }
}

/// A well-formed model stays well-formed when a definition that it admits
/// is added.
pub proof fn lemma_wf_push(m: ModelView, data: DefView)
    requires
        m.wf(),
        m.admits(data),
    ensures
        (ModelView { crates: m.crates, defs: m.defs.push(data) }).wf(),
{
    let later = ModelView { crates: m.crates, defs: m.defs.push(data) };
    assert(extends(later, m));
    assert forall|i: int| 0 <= i < later.defs.len() implies later.admits_at(
        #[trigger] later.defs[i],
        i as nat,
    ) by {
        let d = later.defs[i];
        if i < m.defs.len() {
            assert(m.admits_at(m.defs[i], i as nat));
        }
        if let PathComponentView::Impl { self_ty } = d.component {
            lemma_ty_sound_extends(later, m, self_ty);
        }
    }
}

/// A well-formed model stays well-formed when a compilation unit is added.
pub proof fn lemma_wf_push_crate(m: ModelView, name: Seq<char>)
    requires
        m.wf(),
    ensures
        (ModelView { crates: m.crates.push(name), defs: m.defs }).wf(),
{
    let later = ModelView { crates: m.crates.push(name), defs: m.defs };
    assert(extends(later, m));
    assert forall|i: int| 0 <= i < later.defs.len() implies later.admits_at(
        #[trigger] later.defs[i],
        i as nat,
    ) by {
        assert(m.admits_at(m.defs[i], i as nat));
        if let PathComponentView::Impl { self_ty } = later.defs[i].component {
            lemma_ty_sound_extends(later, m, self_ty);
        }
    }
}

/// A semantic model: the compilation units by number, the local one first,
/// and the definitions by the index of their identifier.
#[derive(Debug)]
pub struct SemanticModel {
    crates: Vec<String>,
    defs: Vec<DefData>,
}

impl View for SemanticModel {
    type V = ModelView;

    closed spec fn view(&self) -> ModelView {
        ModelView {
            crates: Seq::new(self.crates@.len(), |i: int| self.crates@[i]@),
            defs: Seq::new(self.defs@.len(), |i: int| self.defs@[i]@),
        }
    }
}

impl SemanticModel {
    /// The invariant of the model.
    pub open spec fn wf(&self) -> bool {
        self@.wf()
    }

    /// A model of the local compilation unit alone, without definitions.
    pub fn new(local_name: String) -> (model: Self)
        ensures
            model.wf(),
            model@.crates == seq![local_name@],
            model@.defs == Seq::<DefView>::empty(),
    {
        let mut crates: Vec<String> = Vec::new();
        crates.push(local_name);
        let model = SemanticModel { crates, defs: Vec::new() };
        assert(model@.crates =~= seq![local_name@]);
        assert(model@.defs =~= Seq::<DefView>::empty());
        model
    }

    /// Adds a compilation unit that the local one depends on, and returns
    /// its number.
    pub fn add_crate(&mut self, name: String) -> (krate: usize)
        requires
            old(self).wf(),
        ensures
            final(self).wf(),
            krate == old(self)@.crates.len(),
            final(self)@.crates == old(self)@.crates.push(name@),
            final(self)@.defs == old(self)@.defs,
    {
        let krate: usize = self.crates.len();
        proof {
            lemma_wf_push_crate(self@, name@);
        }
        self.crates.push(name);
        assert(self@.crates =~= old(self)@.crates.push(name@));
        assert(self@.defs =~= old(self)@.defs);
        krate
    }

    /// The number of compilation units.
    pub fn num_crates(&self) -> (n: usize)
        ensures
            n == self@.crates.len(),
    {
        self.crates.len()
    }

    /// The number of definitions.
    pub fn num_defs(&self) -> (n: usize)
        ensures
            n == self@.defs.len(),
    {
        self.defs.len()
    }

    /// Whether `id` names a definition of this model.
    pub fn contains(&self, id: DefId) -> (found: bool)
        ensures
            found == self@.contains(id),
    {
        id.index < self.defs.len()
    }

    /// What the model knows of `id`.
    pub fn def(&self, id: DefId) -> (data: &DefData)
        requires
            self@.contains(id),
        ensures
            data@ == self@.def(id),
    {
        &self.defs[id.index]
    }

    /// The declared name of the compilation unit with number `krate`.
    pub fn crate_name(&self, krate: usize) -> (name: &String)
        requires
            krate < self@.crates.len(),
        ensures
            name@ == self@.crates[krate as int],
    {
        &self.crates[krate]
    }

    /// Where the ascent goes from `id`: to the nearest ancestor through
    /// which it is visible, else to the definition it is nested in.
    pub fn next(&self, id: DefId) -> (up: Option<DefId>)
        requires
            self@.contains(id),
        ensures
            up == self@.next(id),
    {
        let data = &self.defs[id.index];
        match data.visible_parent {
            Some(p) => Some(p),
            None => data.parent,
        }
    }

    /// The value of the constant behind `id`, if the model knows one.
    pub fn eval_const(&self, id: DefId) -> (value: Option<u64>)
        ensures
            value is Some <==> self@.evaluates(id),
            value is Some ==> value == self@.def(id).const_value,
    {
        if id.index < self.defs.len() {
            self.defs[id.index].const_value
        } else {
            None
        }
    }

    /// The value of the constant behind `id`.
    pub fn eval_usize(&self, id: DefId) -> (value: u64)
        requires
            self@.evaluates(id),
        ensures
            Some(value) == self@.def(id).const_value,
    {
        self.defs[id.index].const_value.unwrap()
    }

    /// Whether `id` names a definition of this model that has a path.
    pub fn path_bearing(&self, id: DefId) -> (bearing: bool)
        ensures
            bearing == self@.path_bearing(id),
    {
        if id.index >= self.defs.len() {
            return false;
        }
        match &self.defs[id.index].component {
            PathComponent::NonPrintable { kind } => match kind {
                NonPrintable::ClosureExpr | NonPrintable::AnonConst | NonPrintable::ImplTrait => {
                    false
                },
                _ => true,
            },
            _ => true,
        }
    }

    /// Whether a window of which `remaining` generic arguments are still to
    /// be written fits the ascent from `id`.
    pub fn window_fits(&self, id: DefId, remaining: Option<usize>, have_segments: bool) -> (fits:
        bool)
        ensures
            fits == self@.window_fits(id, remaining_view(remaining), have_segments),
    {
        let mut cur = id;
        let mut left = remaining;
        let mut have = have_segments;
        let ghost goal = self@.window_fits(id, remaining_view(remaining), have_segments);
        loop
            invariant
                goal == self@.window_fits(id, remaining_view(remaining), have_segments),
                goal == self@.window_fits(cur, remaining_view(left), have),
            decreases cur.index,
        {
            if cur.index >= self.defs.len() {
                return false;
            }
            let data = &self.defs[cur.index];
            assert(data@ == self@.def(cur));
            let up = match &data.component {
                PathComponent::CrateRoot => {
                    return true;
                },
                PathComponent::Impl { .. } => {
                    return true;
                },
                PathComponent::NonPrintable { kind: NonPrintable::Ctor } => data.parent,
                component => {
                    let named = match component {
                        PathComponent::TypeNs { name } => name.as_str().unicode_len() > 0,
                        PathComponent::ValueNs { name } => {
                            if have {
                                return true;
                            }
                            name.as_str().unicode_len() > 0
                        },
                        _ => false,
                    };
                    let ghost name = emitted_name(data@.component, have);
                    assert(named == (name is Some));
                    let ghost before = remaining_view(left);
                    if named && kind_has_generics(data.kind) {
                        match left {
                            Some(k) => {
                                if k > 0 {
                                    let num_params: usize = count_type_params(&data.generics);
                                    if num_params > k {
                                        return false;
                                    }
                                    left = Some(k - num_params);
                                }
                            },
                            None => {},
                        }
                    }
                    assert(remaining_view(left) == remaining_after(
                        name,
                        data@.kind,
                        data@.generics,
                        before,
                    ));
                    have = have || named;
                    match data.visible_parent {
                        Some(p) => Some(p),
                        None => data.parent,
                    }
                },
            };
            match up {
                Some(p) => {
                    if p.index >= cur.index {
                        return false;
                    }
                    cur = p;
                },
                None => {
                    return true;
                },
            }
        }
    }

    /// Whether `ty` names only definitions with an index under `limit`, and
    /// is sound over the model.
    pub fn ty_below(&self, ty: &SemanticType, limit: usize) -> (below: bool)
        ensures
            below == self@.ty_below(ty@, limit as nat),
        decreases ty,
    {
        match ty {
            SemanticType::Adt { def, args } => {
                proof {
                    lemma_types_view(args@);
                }
                if def.index >= limit || !self.path_bearing(*def) || !self.window_fits(
                    *def,
                    Some(args.len()),
                    false,
                ) {
                    return false;
                }
                self.tys_below(args, limit)
            },
            SemanticType::FnDef { def, args } => {
                if def.index >= limit {
                    return false;
                }
                self.tys_below(args, limit)
            },
            SemanticType::Foreign { def } => def.index < limit && self.path_bearing(*def),
            SemanticType::Array { elem, len } => {
                let len_known = match len {
                    ArrayLen::Value(_) => true,
                    ArrayLen::Unevaluated(def) => {
                        def.index < limit && self.eval_const(*def).is_some()
                    },
                };
                len_known && self.ty_below(elem, limit)
            },
            SemanticType::Slice { elem } => self.ty_below(elem, limit),
            SemanticType::RawPtr { pointee, .. } => self.ty_below(pointee, limit),
            SemanticType::Ref { pointee, .. } => self.ty_below(pointee, limit),
            SemanticType::Tuple { elems } => self.tys_below(elems, limit),
            _ => true,
        }
    }

    /// Whether each of `tys` names only definitions with an index under
    /// `limit`, and is sound over the model.
    pub fn tys_below(&self, tys: &Vec<SemanticType>, limit: usize) -> (below: bool)
        ensures
            below == (tys_bound(types_view(tys@)) <= limit && forall|i: int|
                0 <= i < tys@.len() ==> self@.ty_sound(#[trigger] types_view(tys@)[i])),
            below == (forall|i: int|
                0 <= i < tys@.len() ==> self@.ty_below(
                    #[trigger] types_view(tys@)[i],
                    limit as nat,
                )),
        decreases tys,
    {
        let ghost views = types_view(tys@);
        proof {
            lemma_types_view(tys@);
        }
        let mut i: usize = 0;
        while i < tys.len()
            invariant
                i <= tys.len(),
                views == types_view(tys@),
                views.len() == tys@.len(),
                forall|j: int| 0 <= j < tys@.len() ==> (#[trigger] views[j]) == tys@[j]@,
                forall|j: int| 0 <= j < i ==> self@.ty_below(#[trigger] views[j], limit as nat),
            decreases tys.len() - i,
        {
            if !self.ty_below(&tys[i], limit) {
                proof {
                    lemma_tys_bound_index(views, i as int);
                    assert(!self@.ty_below(views[i as int], limit as nat));
                }
                return false;
            }
            i = i + 1;
        }
        proof {
            lemma_tys_bound_le(views, limit as nat);
        }
        true
    }

    /// Whether `ty` is a type over this model.
    pub fn has_type(&self, ty: &SemanticType) -> (found: bool)
        ensures
            found == self@.contains_ty(ty@),
    {
        self.ty_below(ty, self.defs.len())
    }

    /// Whether every one of `tys` is a type over this model.
    pub fn has_types(&self, tys: &Vec<SemanticType>) -> (found: bool)
        ensures
            found == self@.contains_tys(types_view(tys@)),
    {
        self.tys_below(tys, self.defs.len())
    }

    /// Whether `data` can be added to the model as its next definition.
    pub fn admits(&self, data: &DefData) -> (ok: bool)
        ensures
            ok == self@.admits(data@),
    {
        let n: usize = self.defs.len();
        let parent_ok = match data.parent {
            Some(p) => p.index < n,
            None => true,
        };
        let visible_ok = match data.visible_parent {
            Some(p) => p.index < n,
            None => true,
        };
        let component_ok = match &data.component {
            PathComponent::Impl { self_ty } => self.ty_below(self_ty, n),
            _ => true,
        };
        data.krate < self.crates.len() && parent_ok && visible_ok && component_ok
    }

    /// Adds `data` as the next definition and returns its identifier, if
    /// the model admits it; else leaves the model as it is.
    pub fn add_def(&mut self, data: DefData) -> (id: Option<DefId>)
        requires
            old(self).wf(),
        ensures
            final(self).wf(),
            final(self)@.crates == old(self)@.crates,
            id is Some <==> old(self)@.admits(data@),
            id matches Some(i) ==> i.index == old(self)@.defs.len() && final(self)@.defs == old(
                self,
            )@.defs.push(data@),
            id is None ==> final(self)@.defs == old(self)@.defs,
    {
        if !self.admits(&data) {
            return None;
        }
        let index: usize = self.defs.len();
        proof {
            lemma_wf_push(self@, data@);
        }
        self.defs.push(data);
        assert(self@.crates =~= old(self)@.crates);
        assert(self@.defs =~= old(self)@.defs.push(data@));
        Some(DefId { index })
    }
}

} // verus!
