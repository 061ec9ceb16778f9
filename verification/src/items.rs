//! Items, statements, patterns and the other syntax around types and paths.
use crate::ast::{path_view, Expr, Path, PathView};
use crate::model::DefKind;
use crate::nodes::NodeId;
use crate::semantic::{DefId, Mutability};
use crate::span::{Attribute, Span};
use vstd::prelude::*;

verus! {

/// An identifier.
#[derive(Debug, PartialEq, Eq)]
pub struct Ident {
    pub name: String,
}

impl View for Ident {
    type V = Seq<char>;

    open spec fn view(&self) -> Seq<char> {
        self.name@
    }
}

impl Clone for Ident {
    fn clone(&self) -> (res: Self)
        ensures
            res@ == self@,
    {
        Ident { name: self.name.clone() }
    }
}

/// The label of a loop or block.
#[derive(Debug, PartialEq, Eq)]
pub struct Label {
    pub ident: Ident,
}

/// A sequence of tokens, each as it is written.
#[derive(Debug, PartialEq, Eq)]
pub struct TokenStream {
    pub tokens: Vec<String>,
}

impl View for TokenStream {
    type V = Seq<Seq<char>>;

    open spec fn view(&self) -> Seq<Seq<char>> {
        Seq::new(self.tokens@.len(), |i: int| self.tokens@[i]@)
    }
}

impl Clone for TokenStream {
    fn clone(&self) -> (res: Self)
        ensures
            res@ == self@,
    {
        let mut tokens: Vec<String> = Vec::new();
        let mut i: usize = 0;
        while i < self.tokens.len()
            invariant
                i <= self.tokens.len(),
                tokens.len() == i,
                forall|j: int| 0 <= j < i ==> tokens@[j]@ == self.tokens@[j]@,
            decreases self.tokens.len() - i,
        {
            tokens.push(self.tokens[i].clone());
            i = i + 1;
        }
        let res = TokenStream { tokens };
        assert(res@ =~= self@);
        res
    }
}

/// The mathematical value of a macro invocation.
pub struct MacView {
    pub path: PathView,
    pub tts: Seq<Seq<char>>,
}

/// A macro invocation: the path of the macro and the tokens handed to it.
#[derive(Debug, PartialEq, Eq)]
pub struct Mac {
    pub path: Path,
    pub tts: TokenStream,
}

impl View for Mac {
    type V = MacView;

    open spec fn view(&self) -> MacView {
        MacView { path: self.path@, tts: self.tts@ }
    }
}

impl Clone for Mac {
    fn clone(&self) -> (res: Self)
        ensures
            res@ == self@,
    {
        Mac { path: self.path.clone(), tts: self.tts.clone() }
    }
}

/// What a statement is, as far as it matters here.
#[derive(Debug, PartialEq, Eq)]
pub enum StmtKind {
    /// An expression without a trailing semicolon.
    Expr(Expr),
    /// An expression with a trailing semicolon.
    Semi(Expr),
    /// Any other statement.
    Other,
}

/// A statement.
#[derive(Debug, PartialEq, Eq)]
pub struct Stmt {
    pub kind: StmtKind,
}

/// How a pattern binds a name.
#[derive(Clone, Copy, Debug, PartialEq, Eq, Hash, Structural)]
pub enum BindingMode {
    ByRef(Mutability),
    ByValue(Mutability),
}

/// What a pattern is, as far as it matters here.
#[derive(Debug, PartialEq, Eq)]
pub enum PatKind {
    /// `_`
    Wild,
    /// A name, with the pattern after `@` if there is one.
    Ident(BindingMode, Ident, Option<Box<Pat>>),
    /// Any other pattern.
    Other,
}

/// A pattern.
#[derive(Debug, PartialEq, Eq)]
pub struct Pat {
    pub kind: PatKind,
}

/// The mathematical value of a use tree.
pub struct UseTreeView {
    pub prefix: PathView,
    pub kind: UseTreeKindView,
}

/// The mathematical value of what a use tree ends in.
pub enum UseTreeKindView {
    Simple(Option<Seq<char>>),
    Glob,
    Nested(Seq<(UseTreeView, NodeId)>),
}

/// A tree of imports: a path prefix and what follows it.
#[derive(Debug, PartialEq, Eq)]
pub struct UseTree {
    pub prefix: Path,
    pub kind: UseTreeKind,
}

/// What a use tree ends in.
#[derive(Debug, PartialEq, Eq)]
pub enum UseTreeKind {
    /// `use prefix` or `use prefix as rename`
    Simple(Option<Ident>),
    /// `use prefix::*`
    Glob,
    /// `use prefix::{..}`, each tree with the node that it would be as an
    /// item of its own.
    Nested(Vec<(UseTree, NodeId)>),
}

/// The value of a use tree.
pub open spec fn use_tree_view(tree: UseTree) -> UseTreeView
    decreases tree,
{
    UseTreeView {
        prefix: path_view(tree.prefix),
        kind: match tree.kind {
            UseTreeKind::Simple(rename) => UseTreeKindView::Simple(
                match rename {
                    Some(ident) => Some(ident.name@),
                    None => None,
                },
            ),
            UseTreeKind::Glob => UseTreeKindView::Glob,
            UseTreeKind::Nested(children) => UseTreeKindView::Nested(use_trees_view(children@)),
        },
    }
}

/// The values of the children of a nested use tree, in order.
pub open spec fn use_trees_view(children: Seq<(UseTree, NodeId)>) -> Seq<(UseTreeView, NodeId)>
    decreases children,
{
    Seq::new(
        children.len(),
        |i: int|
            if 0 <= i < children.len() {
                (use_tree_view(children[i].0), children[i].1)
            } else {
                (
                    UseTreeView {
                        prefix: PathView { segments: Seq::empty() },
                        kind: UseTreeKindView::Glob,
                    },
                    NodeId { index: 0 },
                )
            },
    )
}

impl View for UseTree {
    type V = UseTreeView;

    open spec fn view(&self) -> UseTreeView {
        use_tree_view(*self)
    }
}

/// The values of the children of a nested use tree are the values of its
/// members.
pub proof fn lemma_use_trees_view(children: Seq<(UseTree, NodeId)>)
    ensures
        use_trees_view(children).len() == children.len(),
        forall|i: int|
            0 <= i < children.len() ==> (#[trigger] use_trees_view(children)[i]) == (
                children[i].0@,
                children[i].1,
            ),
{
}

/// Copies the children of a nested use tree.
pub fn clone_use_trees(children: &Vec<(UseTree, NodeId)>) -> (res: Vec<(UseTree, NodeId)>)
    ensures
        use_trees_view(res@) == use_trees_view(children@),
    decreases children@,
{
    let mut copies: Vec<(UseTree, NodeId)> = Vec::new();
    let mut i: usize = 0;
    while i < children.len()
        invariant
            i <= children.len(),
            copies.len() == i,
            forall|j: int|
                0 <= j < i ==> copies@[j].0@ == children@[j].0@ && copies@[j].1 == children@[j].1,
        decreases children.len() - i,
    {
        let child = &children[i];
        proof {
            assert(decreases_to!(children@ => children@[i as int]));
            assert(decreases_to!(children@[i as int] => children@[i as int].0));
        }
        let copy = child.0.clone();
        copies.push((copy, child.1));
        i = i + 1;
    }
    proof {
        lemma_use_trees_view(copies@);
        lemma_use_trees_view(children@);
        assert(use_trees_view(copies@) =~= use_trees_view(children@));
    }
    copies
}

impl Clone for UseTree {
    fn clone(&self) -> (res: Self)
        ensures
            res@ == self@,
        decreases self,
    {
        let kind = match &self.kind {
            UseTreeKind::Simple(rename) => UseTreeKind::Simple(
                match rename {
                    Some(ident) => Some(ident.clone()),
                    None => None,
                },
            ),
            UseTreeKind::Glob => UseTreeKind::Glob,
            UseTreeKind::Nested(children) => UseTreeKind::Nested(clone_use_trees(children)),
        };
        UseTree { prefix: self.prefix.clone(), kind }
    }
}

/// The mathematical value of what an item is.
pub enum ItemKindView {
    Use(UseTreeView),
    Mac(MacView),
    Other,
}

/// The mathematical value of an item.
pub struct ItemView {
    pub id: NodeId,
    pub span: Span,
    pub attrs: Seq<Attribute>,
    pub kind: ItemKindView,
}

/// What an item is, as far as it matters here.
#[derive(Debug, PartialEq, Eq)]
pub enum ItemKind {
    /// A `use` declaration.
    Use(UseTree),
    /// A macro invocation in item position.
    Mac(Mac),
    /// Any other item.
    Other,
}

/// An item.
#[derive(Debug, PartialEq, Eq)]
pub struct Item {
    pub id: NodeId,
    pub span: Span,
    pub attrs: Vec<Attribute>,
    pub kind: ItemKind,
}

impl View for ItemKind {
    type V = ItemKindView;

    open spec fn view(&self) -> ItemKindView {
        match self {
            ItemKind::Use(tree) => ItemKindView::Use(tree@),
            ItemKind::Mac(mac) => ItemKindView::Mac(mac@),
            ItemKind::Other => ItemKindView::Other,
        }
    }
}

impl View for Item {
    type V = ItemView;

    open spec fn view(&self) -> ItemView {
        ItemView { id: self.id, span: self.span, attrs: self.attrs@, kind: self.kind@ }
    }
}

impl Clone for ItemKind {
    fn clone(&self) -> (res: Self)
        ensures
            res@ == self@,
    {
        match self {
            ItemKind::Use(tree) => ItemKind::Use(tree.clone()),
            ItemKind::Mac(mac) => ItemKind::Mac(mac.clone()),
            ItemKind::Other => ItemKind::Other,
        }
    }
}

impl Clone for Item {
    fn clone(&self) -> (res: Self)
        ensures
            res@ == self@,
    {
        let mut attrs: Vec<Attribute> = Vec::new();
        let mut i: usize = 0;
        while i < self.attrs.len()
            invariant
                i <= self.attrs.len(),
                attrs@ == self.attrs@.subrange(0, i as int),
            decreases self.attrs.len() - i,
        {
            attrs.push(self.attrs[i]);
            assert(attrs@ =~= self.attrs@.subrange(0, i + 1));
            i = i + 1;
        }
        assert(attrs@ =~= self.attrs@);
        Item { id: self.id, span: self.span, attrs, kind: self.kind.clone() }
    }
}

/// What an item of an `impl` block is, as far as it matters here.
#[derive(Debug, PartialEq, Eq)]
pub enum ImplItemKind {
    Macro(Mac),
    Other,
}

/// An item of an `impl` block.
#[derive(Debug, PartialEq, Eq)]
pub struct ImplItem {
    pub kind: ImplItemKind,
}

/// What an item of a trait is, as far as it matters here.
#[derive(Debug, PartialEq, Eq)]
pub enum TraitItemKind {
    Macro(Mac),
    Other,
}

/// An item of a trait.
#[derive(Debug, PartialEq, Eq)]
pub struct TraitItem {
    pub kind: TraitItemKind,
}

/// How visibility within the unit is written.
#[derive(Clone, Copy, Debug, PartialEq, Eq, Hash, Structural)]
pub enum CrateSugar {
    /// `pub(crate)`
    PubCrate,
    /// `crate`
    JustCrate,
}

/// The mathematical value of a visibility.
pub enum VisibilityKindView {
    Public,
    Crate(CrateSugar),
    Restricted { path: PathView, id: NodeId },
    Inherited,
}

/// A visibility.
#[derive(Debug, PartialEq, Eq)]
pub enum VisibilityKind {
    /// `pub`
    Public,
    /// Visible in the whole unit.
    Crate(CrateSugar),
    /// `pub(in path)`
    Restricted { path: Path, id: NodeId },
    /// No visibility is written.
    Inherited,
}

impl View for VisibilityKind {
    type V = VisibilityKindView;

    open spec fn view(&self) -> VisibilityKindView {
        match self {
            VisibilityKind::Public => VisibilityKindView::Public,
            VisibilityKind::Crate(sugar) => VisibilityKindView::Crate(*sugar),
            VisibilityKind::Restricted { path, id } => VisibilityKindView::Restricted {
                path: path@,
                id: *id,
            },
            VisibilityKind::Inherited => VisibilityKindView::Inherited,
        }
    }
}

impl Clone for VisibilityKind {
    fn clone(&self) -> (res: Self)
        ensures
            res@ == self@,
    {
        match self {
            VisibilityKind::Public => VisibilityKind::Public,
            VisibilityKind::Crate(sugar) => VisibilityKind::Crate(*sugar),
            VisibilityKind::Restricted { path, id } => VisibilityKind::Restricted {
                path: path.clone(),
                id: *id,
            },
            VisibilityKind::Inherited => VisibilityKind::Inherited,
        }
    }
}

/// The namespaces in which names are looked up.
#[derive(Clone, Copy, Debug, PartialEq, Eq, Hash, Structural)]
pub enum Namespace {
    TypeNS,
    ValueNS,
    MacroNS,
}

/// What a path resolves to.
#[derive(Clone, Copy, Debug, PartialEq, Eq, Hash, Structural)]
pub enum Res {
    /// A definition of the given kind.
    Def(DefKind, DefId),
    /// A primitive type.
    PrimTy,
    /// The `Self` type.
    SelfTy,
    /// A tool module of an attribute.
    ToolMod,
    /// The constructor of the `Self` type.
    SelfCtor,
    /// A local variable.
    Local,
    /// An attribute that is no macro.
    NonMacroAttr,
    /// Nothing: resolution failed.
    Error,
}

} // verus!
