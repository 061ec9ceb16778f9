//! Syntax nodes by identifier, and whether what a node denotes has a path.
use std::collections::HashMap;
use vstd::prelude::*;

verus! {

/// The identifier of a syntax node.
#[derive(Clone, Copy, Debug, PartialEq, Eq, Hash, Structural)]
pub struct NodeId {
    pub index: u32,
}

/// The syntactic category of a node.
#[derive(Clone, Copy, Debug, PartialEq, Eq, Hash, Structural)]
pub enum NodeKind {
    Item,
    ForeignItem,
    TraitItem,
    ImplItem,
    Variant,
    Field,
    Binding,
    Local,
    MacroDef,
    Ctor,
    GenericParam,
    AnonConst,
    Expr,
    Stmt,
    PathSegment,
    Ty,
    TraitRef,
    Pat,
    Arm,
    Param,
    Block,
    Lifetime,
    Visibility,
    Crate,
}

/// Whether a node of this category denotes something that has a path:
/// item-like declarations, variants, fields, bindings, locals, macro
/// definitions, constructors and generic parameters do; expressions,
/// statements, types in use, patterns and the like, and the program root,
/// do not.
pub open spec fn kind_has_path(kind: NodeKind) -> bool {
    match kind {
        NodeKind::Item
        | NodeKind::ForeignItem
        | NodeKind::TraitItem
        | NodeKind::ImplItem
        | NodeKind::Variant
        | NodeKind::Field
        | NodeKind::Binding
        | NodeKind::Local
        | NodeKind::MacroDef
        | NodeKind::Ctor
        | NodeKind::GenericParam => true,
        NodeKind::AnonConst
        | NodeKind::Expr
        | NodeKind::Stmt
        | NodeKind::PathSegment
        | NodeKind::Ty
        | NodeKind::TraitRef
        | NodeKind::Pat
        | NodeKind::Arm
        | NodeKind::Param
        | NodeKind::Block
        | NodeKind::Lifetime
        | NodeKind::Visibility
        | NodeKind::Crate => false,
    }
}

impl NodeKind {
    /// Whether a node of this category denotes something that has a path.
    pub fn has_path(&self) -> (has: bool)
        ensures
            has == kind_has_path(*self),
    {
        match self {
            NodeKind::Item
            | NodeKind::ForeignItem
            | NodeKind::TraitItem
            | NodeKind::ImplItem
            | NodeKind::Variant
            | NodeKind::Field
            | NodeKind::Binding
            | NodeKind::Local
            | NodeKind::MacroDef
            | NodeKind::Ctor
            | NodeKind::GenericParam => true,
            NodeKind::AnonConst
            | NodeKind::Expr
            | NodeKind::Stmt
            | NodeKind::PathSegment
            | NodeKind::Ty
            | NodeKind::TraitRef
            | NodeKind::Pat
            | NodeKind::Arm
            | NodeKind::Param
            | NodeKind::Block
            | NodeKind::Lifetime
            | NodeKind::Visibility
            | NodeKind::Crate => false,
        }
    }
}

/// The table that finds the category of a node by its identifier.
pub struct NodeTable {
    kinds: HashMap<u32, NodeKind>,
}

impl View for NodeTable {
    type V = Map<u32, NodeKind>;

    closed spec fn view(&self) -> Map<u32, NodeKind> {
        self.kinds@
    }
}

impl NodeTable {
    /// A table without nodes.
    pub fn new() -> (table: Self)
        ensures
            table@ == Map::<u32, NodeKind>::empty(),
    {
        NodeTable { kinds: HashMap::new() }
    }

    /// Records that the node `id` has the category `kind`.
    pub fn insert(&mut self, id: NodeId, kind: NodeKind)
        ensures
            final(self)@ == old(self)@.insert(id.index, kind),
    {
        self.kinds.insert(id.index, kind);
    }

    /// The category of the node `id`, if the table holds the node.
    pub fn find(&self, id: NodeId) -> (kind: Option<NodeKind>)
        ensures
            kind == if self@.contains_key(id.index) {
                Some(self@[id.index])
            } else {
                None
            },
    {
        match self.kinds.get(&id.index) {
            Some(kind) => Some(*kind),
            None => None,
        }
    }
}

/// Whether what the node `id` denotes has a path. A node that the table does
/// not hold has none.
pub open spec fn can_reflect_path_spec(nodes: Map<u32, NodeKind>, id: NodeId) -> bool {
    nodes.contains_key(id.index) && kind_has_path(nodes[id.index])
}

/// Checks that the node is the sort of def that has a path. Reflecting the
/// path of anything else is an error of the caller.
pub fn can_reflect_path(cx: &NodeTable, id: NodeId) -> (can: bool)
    ensures
        can == can_reflect_path_spec(cx@, id),
{
    let node = match cx.find(id) {
        Some(x) => x,
        None => return false,
    };
    node.has_path()
}

} // verus!
