//! Miscellaneous utility functions.
use crate::ast::{
    lemma_segments_view, lemma_segments_view_push, segments_view, Expr, Lit, Path, PathSegmentView,
    PathView, Ty,
};
use crate::ast_manip::ast_equiv::AstEquiv;
use crate::items::{
    lemma_use_trees_view, BindingMode, CrateSugar, Ident, ImplItem, ImplItemKind, Item, ItemKind,
    ItemKindView, ItemView, Label, Mac, Namespace, Pat, PatKind, Res, Stmt, StmtKind, TraitItem,
    TraitItemKind, UseTree, UseTreeKind, UseTreeKindView, UseTreeView, VisibilityKind,
    VisibilityKindView,
};
use crate::model::DefKind;
use crate::nodes::NodeId;
use crate::semantic::Mutability;
use crate::span::{dummy_span, span_between, Attribute, Span};
use smallvec::SmallVec;
use vstd::prelude::*;
use vstd::string::StringSliceAdditionalSpecFns;
use vstd::utf8::is_char_boundary;

verus! {

/// Extract the symbol from a pattern-like AST.
pub trait PatternSymbol {
    /// The symbol that the node stands for, if it is nothing but a symbol.
    spec fn symbol(&self) -> Option<Seq<char>>;

    fn pattern_symbol(&self) -> (sym: Option<String>)
        ensures
            match sym {
                Some(s) => self.symbol() == Some(s@),
                None => self.symbol() is None,
            },
    ;
}

impl PatternSymbol for Ident {
    open spec fn symbol(&self) -> Option<Seq<char>> {
        Some(self.name@)
    }

    fn pattern_symbol(&self) -> (sym: Option<String>) {
        Some(self.name.clone())
    }
}

impl PatternSymbol for Lit {
    open spec fn symbol(&self) -> Option<Seq<char>> {
        match self {
            Lit::Error(sym) => Some(sym@),
            _ => None,
        }
    }

    fn pattern_symbol(&self) -> (sym: Option<String>) {
        match self {
            Lit::Error(sym) => Some(sym.clone()),
            _ => None,
        }
    }
}

impl PatternSymbol for Label {
    open spec fn symbol(&self) -> Option<Seq<char>> {
        self.ident.symbol()
    }

    fn pattern_symbol(&self) -> (sym: Option<String>) {
        self.ident.pattern_symbol()
    }
}

impl PatternSymbol for Path {
    open spec fn symbol(&self) -> Option<Seq<char>> {
        if self.segments@.len() == 1 && self.segments@[0].args is None {
            Some(self.segments@[0].ident@)
        } else {
            None
        }
    }

    fn pattern_symbol(&self) -> (sym: Option<String>) {
        if self.segments.len() != 1 {
            return None;
        }
        let seg = &self.segments[0];
        if seg.args.is_some() {
            return None;
        }
        Some(seg.ident.clone())
    }
}

impl PatternSymbol for Expr {
    open spec fn symbol(&self) -> Option<Seq<char>> {
        match self {
            Expr::Path { qself: None, path } => path.symbol(),
            _ => None,
        }
    }

    fn pattern_symbol(&self) -> (sym: Option<String>) {
        match self {
            Expr::Path { qself: None, path } => path.pattern_symbol(),
            _ => None,
        }
    }
}

impl PatternSymbol for Stmt {
    open spec fn symbol(&self) -> Option<Seq<char>> {
        match self.kind {
            StmtKind::Semi(e) => e.symbol(),
            _ => None,
        }
    }

    fn pattern_symbol(&self) -> (sym: Option<String>) {
        match &self.kind {
            StmtKind::Semi(e) => e.pattern_symbol(),
            _ => None,
        }
    }
}

impl PatternSymbol for Pat {
    open spec fn symbol(&self) -> Option<Seq<char>> {
        match self.kind {
            PatKind::Ident(BindingMode::ByValue(Mutability::Immutable), i, None) => i.symbol(),
            _ => None,
        }
    }

    fn pattern_symbol(&self) -> (sym: Option<String>) {
        match &self.kind {
            PatKind::Ident(BindingMode::ByValue(Mutability::Immutable), i, None) => {
                i.pattern_symbol()
            },
            _ => None,
        }
    }
}

impl PatternSymbol for Ty {
    open spec fn symbol(&self) -> Option<Seq<char>> {
        match self {
            Ty::Path { qself: None, path } => path.symbol(),
            _ => None,
        }
    }

    fn pattern_symbol(&self) -> (sym: Option<String>) {
        match self {
            Ty::Path { qself: None, path } => path.pattern_symbol(),
            _ => None,
        }
    }
}

impl PatternSymbol for Mac {
    open spec fn symbol(&self) -> Option<Seq<char>> {
        if self.tts.tokens@.len() != 0 {
            None
        } else {
            self.path.symbol()
        }
    }

    fn pattern_symbol(&self) -> (sym: Option<String>) {
        if self.tts.tokens.len() != 0 {
            return None;
        }
        self.path.pattern_symbol()
    }
}

impl PatternSymbol for Item {
    open spec fn symbol(&self) -> Option<Seq<char>> {
        match self.kind {
            ItemKind::Mac(m) => m.symbol(),
            _ => None,
        }
    }

    fn pattern_symbol(&self) -> (sym: Option<String>) {
        match &self.kind {
            ItemKind::Mac(m) => m.pattern_symbol(),
            _ => None,
        }
    }
}

impl PatternSymbol for ImplItem {
    open spec fn symbol(&self) -> Option<Seq<char>> {
        match self.kind {
            ImplItemKind::Macro(m) => m.symbol(),
            _ => None,
        }
    }

    fn pattern_symbol(&self) -> (sym: Option<String>) {
        match &self.kind {
            ImplItemKind::Macro(m) => m.pattern_symbol(),
            _ => None,
        }
    }
}

impl PatternSymbol for TraitItem {
    open spec fn symbol(&self) -> Option<Seq<char>> {
        match self.kind {
            TraitItemKind::Macro(m) => m.symbol(),
            _ => None,
        }
    }

    fn pattern_symbol(&self) -> (sym: Option<String>) {
        match &self.kind {
            TraitItemKind::Macro(m) => m.pattern_symbol(),
            _ => None,
        }
    }
}

/// Whether the span of `attr` is taken into a span that so far is `s`: it
/// stands for source text, belongs to the same expansion context, and
/// begins before `s`.
pub open spec fn attr_extends(s: Span, attr: Attribute) -> bool {
    attr.span != dummy_span() && attr.span.ctxt == s.ctxt && attr.span.lo < s.lo
}

/// The span `s` extended backward over those of the first `n` of `attrs`
/// that begin before it, one after the other.
pub open spec fn extend_span_spec(s: Span, attrs: Seq<Attribute>, n: nat) -> Span
    decreases n,
{
    if n == 0 || n > attrs.len() {
        s
    } else {
        let before = extend_span_spec(s, attrs, (n - 1) as nat);
        if attr_extends(before, attrs[n - 1]) {
            span_between(attrs[n - 1].span.lo, before.hi, before.ctxt)
        } else {
            before
        }
    }
}

/// Extend a node span to cover its attributes.  (By default, item spans cover only the item body,
/// not the preceding attrs.)
pub fn extend_span_attrs(s: Span, attrs: &Vec<Attribute>) -> (extended: Span)
    ensures
        extended == extend_span_spec(s, attrs@, attrs@.len()),
        s.lo <= s.hi ==> {
            &&& extended.hi == s.hi
            &&& extended.ctxt == s.ctxt
            &&& extended.lo <= s.lo
            &&& forall|i: int|
                0 <= i < attrs@.len() && attrs@[i].span != dummy_span() && attrs@[i].span.ctxt
                    == s.ctxt ==> extended.lo <= (#[trigger] attrs@[i]).span.lo
            &&& extended.lo == s.lo || exists|i: int|
                0 <= i < attrs@.len() && attrs@[i].span.ctxt == s.ctxt && extended.lo
                    == (#[trigger] attrs@[i]).span.lo
        },
{
    let mut cur = s;
    let mut i: usize = 0;
    // Extend `s` backward to cover all the attrs
    while i < attrs.len()
        invariant
            i <= attrs.len(),
            cur == extend_span_spec(s, attrs@, i as nat),
            s.lo <= s.hi ==> {
                &&& cur.hi == s.hi
                &&& cur.ctxt == s.ctxt
                &&& cur.lo <= s.lo
                &&& forall|j: int|
                    0 <= j < i && attrs@[j].span != dummy_span() && attrs@[j].span.ctxt == s.ctxt
                        ==> cur.lo <= (#[trigger] attrs@[j]).span.lo
                &&& cur.lo == s.lo || exists|j: int|
                    0 <= j < i && attrs@[j].span.ctxt == s.ctxt && cur.lo
                        == (#[trigger] attrs@[j]).span.lo
            },
        decreases attrs.len() - i,
    {
        let attr = attrs[i];
        if attr.span != Span::dummy() && attr.span.ctxt() == cur.ctxt() && attr.span.lo()
            < cur.lo() {
            cur = cur.with_lo(attr.span.lo());
        }
        i = i + 1;
    }
    cur
}

/// Get the name of a macro invocation.
pub fn macro_name(mac: &Mac) -> (name: String)
    requires
        mac.path.segments@.len() > 0,
    ensures
        name@ == mac.path.segments@.last().ident@,
{
    let p = &mac.path;
    p.segments[p.segments.len() - 1].ident.clone()
}

/// Whether a path begins with the segment of the current module or with
/// that of the module above it.
pub open spec fn is_relative_path_spec(path: Path) -> bool {
    path.segments@.len() > 0 && (path.segments@[0].ident@ == "self"@ || path.segments@[0].ident@
        == "super"@)
}

/// Is a path relative to the current module?
pub fn is_relative_path(path: &Path) -> (relative: bool)
    ensures
        relative == is_relative_path_spec(*path),
{
    if path.segments.len() == 0 {
        return false;
    }
    let lower = "self".to_owned();
    let upper = "super".to_owned();
    path.segments[0].ident == lower || path.segments[0].ident == upper
}

/// The namespace that a resolution is looked up in, if it is in one.
pub open spec fn namespace_spec(res: Res) -> Option<Namespace> {
    match res {
        Res::Def(kind, _) => match kind {
            DefKind::Mod
            | DefKind::Struct
            | DefKind::Union
            | DefKind::Enum
            | DefKind::Variant
            | DefKind::Trait
            | DefKind::OpaqueTy
            | DefKind::TyAlias
            | DefKind::ForeignTy
            | DefKind::TraitAlias
            | DefKind::AssocTy
            | DefKind::AssocOpaqueTy
            | DefKind::TyParam => Some(Namespace::TypeNS),
            DefKind::Fn
            | DefKind::Const
            | DefKind::ConstParam
            | DefKind::Static
            | DefKind::Ctor
            | DefKind::Method
            | DefKind::AssocConst => Some(Namespace::ValueNS),
            DefKind::Macro => Some(Namespace::MacroNS),
        },
        Res::PrimTy | Res::SelfTy | Res::ToolMod => Some(Namespace::TypeNS),
        Res::SelfCtor | Res::Local => Some(Namespace::ValueNS),
        Res::NonMacroAttr => Some(Namespace::MacroNS),
        Res::Error => None,
    }
}

/// Return the namespace the given Def is defined in.
pub fn namespace(res: &Res) -> (ns: Option<Namespace>)
    ensures
        ns == namespace_spec(*res),
{
    match res {
        Res::Def(kind, _) => match kind {
            DefKind::Mod
            | DefKind::Struct
            | DefKind::Union
            | DefKind::Enum
            | DefKind::Variant
            | DefKind::Trait
            | DefKind::OpaqueTy
            | DefKind::TyAlias
            | DefKind::ForeignTy
            | DefKind::TraitAlias
            | DefKind::AssocTy
            | DefKind::AssocOpaqueTy
            | DefKind::TyParam => Some(Namespace::TypeNS),
            DefKind::Fn
            | DefKind::Const
            | DefKind::ConstParam
            | DefKind::Static
            | DefKind::Ctor
            | DefKind::Method
            | DefKind::AssocConst => Some(Namespace::ValueNS),
            DefKind::Macro => Some(Namespace::MacroNS),
        },
        Res::PrimTy | Res::SelfTy | Res::ToolMod => Some(Namespace::TypeNS),
        Res::SelfCtor | Res::Local => Some(Namespace::ValueNS),
        Res::NonMacroAttr => Some(Namespace::MacroNS),
        Res::Error => None,
    }
}

/// The wider of two visibilities: public if one of them is; else visible
/// in the whole unit if one of them is, or if they are restricted to two
/// different paths; else the restricted one, if one is restricted; else
/// inherited.
pub open spec fn join_visibility_spec(
    vis1: VisibilityKindView,
    vis2: VisibilityKindView,
) -> VisibilityKindView {
    match (vis1, vis2) {
        (VisibilityKindView::Public, _) | (_, VisibilityKindView::Public) => {
            VisibilityKindView::Public
        },
        (VisibilityKindView::Crate(_), _) | (_, VisibilityKindView::Crate(_)) => {
            VisibilityKindView::Crate(CrateSugar::PubCrate)
        },
        (
            VisibilityKindView::Restricted { path: path1, .. },
            VisibilityKindView::Restricted { path: path2, .. },
        ) => {
            if path1 == path2 {
                vis1
            } else {
                VisibilityKindView::Crate(CrateSugar::PubCrate)
            }
        },
        (VisibilityKindView::Restricted { .. }, VisibilityKindView::Inherited) => vis1,
        (VisibilityKindView::Inherited, VisibilityKindView::Restricted { .. }) => vis2,
        _ => VisibilityKindView::Inherited,
    }
}

/// Select the wider of the two given visibilities
pub fn join_visibility(vis1: &VisibilityKind, vis2: &VisibilityKind) -> (joined: VisibilityKind)
    ensures
        joined@ == join_visibility_spec(vis1@, vis2@),
{
    match (vis1, vis2) {
        (VisibilityKind::Public, _) | (_, VisibilityKind::Public) => VisibilityKind::Public,
        (VisibilityKind::Crate(_), _) | (_, VisibilityKind::Crate(_)) => {
            VisibilityKind::Crate(CrateSugar::PubCrate)
        },
        (
            VisibilityKind::Restricted { path: path1, .. },
            VisibilityKind::Restricted { path: path2, .. },
        ) => {
            if path1.ast_equiv(path2) {
                vis1.clone()
            } else {
                VisibilityKind::Crate(CrateSugar::PubCrate)
            }
        },
        (VisibilityKind::Restricted { .. }, VisibilityKind::Inherited) => vis1.clone(),
        (VisibilityKind::Inherited, VisibilityKind::Restricted { .. }) => vis2.clone(),
        _ => VisibilityKind::Inherited,
    }
}

/// Whether `lo` and `hi` mark a piece of a text of these bytes: they lie in
/// the text, in this order, and each between two characters.
pub open spec fn span_in_text(src: Seq<u8>, lo: usize, hi: usize) -> bool {
    &&& lo <= hi <= src.len()
    &&& is_char_boundary(src, lo as int)
    &&& is_char_boundary(src, hi as int)
}

/// Whether `lo` and `hi` mark a piece of the text `file_src`.
pub fn span_is_text(file_src: &str, lo: usize, hi: usize) -> (ok: bool)
    ensures
        ok == span_in_text(file_src.spec_bytes(), lo, hi),
{
    proof {
        vstd::utf8::encode_utf8_valid_utf8(file_src@);
    }
    lo <= hi && file_src.is_char_boundary(lo) && file_src.is_char_boundary(hi)
}

/// The piece of the text `file_src` from the byte offset `lo` up to `hi`.
pub fn span_text<'a>(file_src: &'a str, lo: usize, hi: usize) -> (node_src: &'a str)
    requires
        span_in_text(file_src.spec_bytes(), lo, hi),
    ensures
        node_src.spec_bytes() == file_src.spec_bytes().subrange(lo as int, hi as int),
{
    let ghost bytes = file_src.spec_bytes();
    proof {
        vstd::utf8::encode_utf8_valid_utf8(file_src@);
        vstd::utf8::valid_utf8_split(bytes, hi as int);
    }
    let (head, _) = file_src.split_at(hi);
    proof {
        let front = bytes.subrange(0, hi as int);
        assert(head.spec_bytes() == front);
        if lo < hi {
            vstd::utf8::is_char_boundary_iff_not_is_continuation_byte(bytes, lo as int);
            vstd::utf8::is_char_boundary_iff_not_is_continuation_byte(front, lo as int);
        } else {
            vstd::utf8::is_char_boundary_start_end_of_seq(front);
        }
    }
    let (_, node_src) = head.split_at(lo);
    assert(node_src.spec_bytes() =~= bytes.subrange(lo as int, hi as int));
    node_src
}

/// Get the text of a span, and pass it to a callback.  Returns `false` if the span text isn't
/// available. `file_src` is the text of the file that the span lies in, and
/// `lo` and `hi` are the byte offsets of the span in it.
pub fn with_span_text<F: FnOnce(&str)>(
    file_src: Option<&str>,
    lo: usize,
    hi: usize,
    callback: F,
) -> (found: bool)
    requires
        file_src matches Some(src) ==> {
            &&& span_in_text(src.spec_bytes(), lo, hi)
            &&& forall|text: &str|
                text.spec_bytes() == src.spec_bytes().subrange(lo as int, hi as int)
                    ==> call_requires(callback, (text,))
        },
    ensures
        found == (file_src is Some),
        file_src matches Some(src) ==> exists|text: &str|
            text.spec_bytes() == src.spec_bytes().subrange(lo as int, hi as int) && call_ensures(
                callback,
                (text,),
                (),
            ),
{
    let file_src = match file_src {
        Some(x) => x,
        None => return false,
    };
    let node_src = span_text(file_src, lo, hi);
    callback(node_src);
    true
}

/// The names of a sequence of identifiers, in order.
pub open spec fn idents_view(idents: Seq<Ident>) -> Seq<Seq<char>> {
    Seq::new(idents.len(), |i: int| idents[i]@)
}

/// Whether the identifiers that a use tree defines can be listed: it holds
/// no glob import, and every simple import without a new name has a path.
pub open spec fn use_tree_listable(tree: UseTreeView) -> bool
    decreases tree,
{
    match tree.kind {
        UseTreeKindView::Simple(Some(_)) => true,
        UseTreeKindView::Simple(None) => tree.prefix.segments.len() > 0,
        UseTreeKindView::Glob => false,
        UseTreeKindView::Nested(children) => forall|i: int|
            0 <= i < children.len() ==> use_tree_listable((#[trigger] children[i]).0),
    }
}

/// The identifiers that a use tree defines: the new name of a simple
/// import, or the last name of its path; for a nested tree those of its
/// children, in order.
pub open spec fn use_idents_spec(tree: UseTreeView) -> Seq<Seq<char>>
    decreases tree, 0nat,
{
    match tree.kind {
        UseTreeKindView::Simple(Some(rename)) => seq![rename],
        UseTreeKindView::Simple(None) => seq![tree.prefix.segments.last().ident],
        UseTreeKindView::Glob => Seq::empty(),
        UseTreeKindView::Nested(children) => children_idents_spec(children, children.len()),
    }
}

/// The identifiers that the first `n` of the children of a nested use tree
/// define, in order.
pub open spec fn children_idents_spec(children: Seq<(UseTreeView, NodeId)>, n: nat) -> Seq<
    Seq<char>,
>
    decreases children, n,
{
    if n == 0 || n > children.len() {
        Seq::empty()
    } else {
        children_idents_spec(children, (n - 1) as nat) + use_idents_spec(children[n - 1].0)
    }
}

/// Whether the identifiers that a use tree defines can be listed.
pub fn can_list_use_idents(tree: &UseTree) -> (ok: bool)
    ensures
        ok == use_tree_listable(tree@),
    decreases tree,
{
    match &tree.kind {
        UseTreeKind::Simple(Some(_)) => true,
        UseTreeKind::Simple(None) => {
            proof {
                lemma_segments_view(tree.prefix.segments@);
            }
            tree.prefix.segments.len() > 0
        },
        UseTreeKind::Glob => false,
        UseTreeKind::Nested(children) => {
            let ok = children_listable(children);
            proof {
                lemma_use_trees_view(children@);
                let views = crate::items::use_trees_view(children@);
                let tv = tree@;
                assert(tv.kind == UseTreeKindView::Nested(views));
                assert(tv.kind->Nested_0 == views);
                assert(use_tree_listable(tv) == (forall|i: int|
                    0 <= i < views.len() ==> use_tree_listable((#[trigger] views[i]).0)));
                if ok {
                    assert forall|i: int| 0 <= i < views.len() implies use_tree_listable(
                        (#[trigger] views[i]).0,
                    ) by {
                        assert(use_tree_listable(children@[i].0@));
                    }
                } else {
                    let bad = choose|i: int|
                        0 <= i < children@.len() && !use_tree_listable(
                            (#[trigger] children@[i]).0@,
                        );
                    assert(!use_tree_listable(views[bad].0));
                }
            }
            ok
        },
    }
}

/// Whether the identifiers of each child of a nested use tree can be
/// listed.
fn children_listable(children: &Vec<(UseTree, NodeId)>) -> (ok: bool)
    ensures
        ok == (forall|i: int|
            0 <= i < children@.len() ==> use_tree_listable((#[trigger] children@[i]).0@)),
    decreases children@,
{
    let mut i: usize = 0;
    while i < children.len()
        invariant
            i <= children.len(),
            forall|j: int| 0 <= j < i ==> use_tree_listable((#[trigger] children@[j]).0@),
        decreases children.len() - i,
    {
        let child = &children[i];
        proof {
            assert(decreases_to!(children@ => children@[i as int]));
            assert(decreases_to!(children@[i as int] => children@[i as int].0));
        }
        if !can_list_use_idents(&child.0) {
            return false;
        }
        i = i + 1;
    }
    true
}

/// Retrieve the list of Idents defined by the given UseTree
pub fn use_idents(tree: &UseTree) -> (idents: Vec<Ident>)
    requires
        use_tree_listable(tree@),
    ensures
        idents_view(idents@) == use_idents_spec(tree@),
    decreases tree,
{
    match &tree.kind {
        UseTreeKind::Simple(rename) => {
            let ident = match rename {
                Some(rename) => rename.clone(),
                None => {
                    proof {
                        lemma_segments_view(tree.prefix.segments@);
                    }
                    let last = &tree.prefix.segments[tree.prefix.segments.len() - 1];
                    Ident { name: last.ident.clone() }
                },
            };
            let mut idents: Vec<Ident> = Vec::new();
            idents.push(ident);
            assert(idents_view(idents@) =~= use_idents_spec(tree@));
            idents
        },
        UseTreeKind::Glob => vstd::pervasive::unreached(),
        UseTreeKind::Nested(children) => {
            proof {
                lemma_use_trees_view(children@);
                let views = crate::items::use_trees_view(children@);
                let tv = tree@;
                assert(tv.kind == UseTreeKindView::Nested(views));
                assert(tv.kind->Nested_0 == views);
                assert(use_tree_listable(tv) == (forall|i: int|
                    0 <= i < views.len() ==> use_tree_listable((#[trigger] views[i]).0)));
                assert forall|i: int| 0 <= i < children@.len() implies use_tree_listable(
                    (#[trigger] children@[i]).0@,
                ) by {
                    assert(use_tree_listable(views[i].0));
                }
            }
            children_idents(children)
        },
    }
}

/// The identifiers that the children of a nested use tree define.
fn children_idents(children: &Vec<(UseTree, NodeId)>) -> (idents: Vec<Ident>)
    requires
        forall|i: int|
            0 <= i < children@.len() ==> use_tree_listable((#[trigger] children@[i]).0@),
    ensures
        idents_view(idents@) == children_idents_spec(
            crate::items::use_trees_view(children@),
            children@.len(),
        ),
    decreases children@,
{
    let ghost views = crate::items::use_trees_view(children@);
    proof {
        lemma_use_trees_view(children@);
    }
    let mut idents: Vec<Ident> = Vec::new();
    let mut i: usize = 0;
    assert(idents_view(idents@) =~= children_idents_spec(views, 0));
    while i < children.len()
        invariant
            i <= children.len(),
            views == crate::items::use_trees_view(children@),
            views.len() == children@.len(),
            forall|j: int|
                0 <= j < children@.len() ==> (#[trigger] views[j]) == (
                    children@[j].0@,
                    children@[j].1,
                ),
            forall|j: int|
                0 <= j < children@.len() ==> use_tree_listable((#[trigger] children@[j]).0@),
            idents_view(idents@) == children_idents_spec(views, i as nat),
        decreases children.len() - i,
    {
        let child = &children[i];
        proof {
            assert(decreases_to!(children@ => children@[i as int]));
            assert(decreases_to!(children@[i as int] => children@[i as int].0));
        }
        let mut more = use_idents(&child.0);
        let ghost before = idents@;
        let ghost added = more@;
        idents.append(&mut more);
        proof {
            assert(idents@ == before + added);
            assert(idents_view(idents@) =~= idents_view(before) + idents_view(added));
        }
        i = i + 1;
    }
    idents
}

/// The simple `use` items that a use tree splits into. `item` is the item
/// that each of them takes its span and attributes from, `path` holds the
/// segments above the tree, and `id` is the node of the tree.
pub open spec fn split_uses_spec(
    item: ItemView,
    path: Seq<PathSegmentView>,
    id: NodeId,
    tree: UseTreeView,
) -> Seq<ItemView>
    decreases tree, 0nat,
{
    let full = path + tree.prefix.segments;
    match tree.kind {
        UseTreeKindView::Nested(children) => split_children_spec(
            item,
            full,
            children,
            children.len(),
        ),
        kind => seq![
            ItemView {
                id,
                span: item.span,
                attrs: item.attrs,
                kind: ItemKindView::Use(UseTreeView { prefix: PathView { segments: full }, kind }),
            },
        ],
    }
}

/// The simple `use` items that the first `n` of the children of a nested
/// use tree split into, in order.
pub open spec fn split_children_spec(
    item: ItemView,
    path: Seq<PathSegmentView>,
    children: Seq<(UseTreeView, NodeId)>,
    n: nat,
) -> Seq<ItemView>
    decreases children, n,
{
    if n == 0 || n > children.len() {
        Seq::empty()
    } else {
        split_children_spec(item, path, children, (n - 1) as nat) + split_uses_spec(
            item,
            path,
            children[n - 1].1,
            children[n - 1].0,
        )
    }
}

/// A small vector of items.
#[verifier::external_body]
pub struct ItemVec {
    items: SmallVec<[Item; 1]>,
}

/// The items that a small vector holds, in order.
pub uninterp spec fn items_of(v: ItemVec) -> Seq<ItemView>;

/// The values of a sequence of items, in order.
pub open spec fn items_view(items: Seq<Item>) -> Seq<ItemView> {
    Seq::new(items.len(), |i: int| items[i]@)
}

/// `SmallVec::new`: a small vector that holds nothing.
#[verifier::external_body]
fn item_vec_new() -> (v: ItemVec)
    ensures
        items_of(v) == Seq::<ItemView>::empty(),
{
    ItemVec { items: SmallVec::new() }
}

/// `SmallVec::push`: the item comes behind those that the vector holds.
#[verifier::external_body]
fn item_vec_push(v: &mut ItemVec, item: Item)
    ensures
        items_of(*final(v)) == items_of(*old(v)).push(item@),
{
    v.items.push(item)
}

/// `SmallVec::into_vec`: the items that the vector holds, in their order.
#[verifier::external_body]
fn item_vec_into_vec(v: ItemVec) -> (items: Vec<Item>)
    ensures
        items_view(items@) == items_of(v),
{
    v.items.into_vec()
}

/// Adds copies of the segments of `more` to the end of `path`.
fn extend_path(path: &mut Path, more: &Path)
    ensures
        final(path)@.segments == old(path)@.segments + more@.segments,
{
    let ghost start = path.segments@;
    let mut i: usize = 0;
    proof {
        lemma_segments_view(start);
        lemma_segments_view(more.segments@);
        assert(segments_view(path.segments@) =~= segments_view(start) + segments_view(
            more.segments@,
        ).subrange(0, 0));
    }
    while i < more.segments.len()
        invariant
            i <= more.segments.len(),
            segments_view(more.segments@).len() == more.segments@.len(),
            forall|j: int|
                0 <= j < more.segments@.len() ==> (#[trigger] segments_view(more.segments@)[j])
                    == more.segments@[j]@,
            segments_view(path.segments@) == segments_view(start) + segments_view(
                more.segments@,
            ).subrange(0, i as int),
        decreases more.segments.len() - i,
    {
        let seg = more.segments[i].clone();
        proof {
            lemma_segments_view_push(path.segments@, seg);
            assert(segments_view(more.segments@).subrange(0, i + 1) =~= segments_view(
                more.segments@,
            ).subrange(0, i as int).push(seg@));
        }
        path.segments.push(seg);
        i = i + 1;
    }
    proof {
        assert(segments_view(more.segments@).subrange(0, i as int) =~= segments_view(
            more.segments@,
        ));
    }
}

/// Helper function to recursively split nested uses into simple ones
fn split_uses_impl(item: Item, path: Path, id: NodeId, tree: &UseTree, out: &mut ItemVec)
    ensures
        items_of(*final(out)) == items_of(*old(out)) + split_uses_spec(
            item@,
            path@.segments,
            id,
            tree@,
        ),
    decreases tree, 0nat,
{
    let ghost above = path@.segments;
    let mut path = path;
    extend_path(&mut path, &tree.prefix);
    match &tree.kind {
        UseTreeKind::Nested(children) => {
            proof {
                lemma_use_trees_view(children@);
            }
            split_children(&item, &path, children, out);
        },
        kind => {
            let kind = match kind {
                UseTreeKind::Simple(rename) => UseTreeKind::Simple(
                    match rename {
                        Some(ident) => Some(ident.clone()),
                        None => None,
                    },
                ),
                _ => UseTreeKind::Glob,
            };
            let simple = Item {
                id,
                span: item.span,
                attrs: item.attrs,
                kind: ItemKind::Use(UseTree { prefix: path, kind }),
            };
            let ghost before = items_of(*out);
            item_vec_push(out, simple);
            assert(split_uses_spec(item@, above, id, tree@) =~= seq![simple@]);
            assert(items_of(*out) =~= before + split_uses_spec(item@, above, id, tree@));
        },
    }
}

/// Splits each of the children of a nested use tree.
fn split_children(
    item: &Item,
    path: &Path,
    children: &Vec<(UseTree, NodeId)>,
    out: &mut ItemVec,
)
    ensures
        items_of(*final(out)) == items_of(*old(out)) + split_children_spec(
            item@,
            path@.segments,
            crate::items::use_trees_view(children@),
            children@.len(),
        ),
    decreases children@, 0nat,
{
    let ghost views = crate::items::use_trees_view(children@);
    let ghost before = items_of(*out);
    proof {
        lemma_use_trees_view(children@);
        assert(items_of(*out) =~= before + split_children_spec(item@, path@.segments, views, 0));
    }
    let mut i: usize = 0;
    while i < children.len()
        invariant
            i <= children.len(),
            views == crate::items::use_trees_view(children@),
            views.len() == children@.len(),
            forall|j: int|
                0 <= j < children@.len() ==> (#[trigger] views[j]) == (
                    children@[j].0@,
                    children@[j].1,
                ),
            items_of(*out) == before + split_children_spec(
                item@,
                path@.segments,
                views,
                i as nat,
            ),
        decreases children.len() - i,
    {
        let child = &children[i];
        proof {
            assert(decreases_to!(children@ => children@[i as int]));
            assert(decreases_to!(children@[i as int] => children@[i as int].0));
        }
        let ghost sofar = items_of(*out);
        split_uses_impl(item.clone(), path.clone(), child.1, &child.0, out);
        proof {
            let step = split_uses_spec(item@, path@.segments, child.1, child.0@);
            assert(items_of(*out) == sofar + step);
            assert(split_children_spec(item@, path@.segments, views, (i + 1) as nat)
                == split_children_spec(item@, path@.segments, views, i as nat) + step);
            assert(sofar + step =~= before + split_children_spec(
                item@,
                path@.segments,
                views,
                (i + 1) as nat,
            ));
        }
        i = i + 1;
    }
}

/// Split a use statement which may have nesting into one or more simple use
/// statements without nesting.
pub fn split_uses(item: Item) -> (out: ItemVec)
    requires
        item.kind is Use,
    ensures
        items_of(out) == split_uses_spec(item@, Seq::empty(), item.id, item.kind->Use_0@),
{
    let use_tree = match &item.kind {
        ItemKind::Use(u) => u.clone(),
        _ => vstd::pervasive::unreached(),
    };
    let mut out = item_vec_new();
    let initial_path = Path { segments: Vec::new() };
    proof {
        lemma_segments_view(initial_path.segments@);
        assert(initial_path@.segments =~= Seq::<PathSegmentView>::empty());
    }
    let id = item.id;
    split_uses_impl(item, initial_path, id, &use_tree, &mut out);
    assert(items_of(out) =~= split_uses_spec(item@, Seq::empty(), item.id, use_tree@));
    out
}

/// Split a use statement as `split_uses` does, and hand the simple use
/// statements out as a vector.
pub fn split_uses_to_vec(item: Item) -> (items: Vec<Item>)
    requires
        item.kind is Use,
    ensures
        items_view(items@) == split_uses_spec(item@, Seq::empty(), item.id, item.kind->Use_0@),
{
    item_vec_into_vec(split_uses(item))
}

} // verus!
