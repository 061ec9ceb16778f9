use reflect::ast::{Expr, Lit, LitIntType, Path, PathSegment, QSelf, Ty};
use reflect::ast_manip::ast_equiv::{qself_equiv, tys_equiv, AstEquiv};
use reflect::ast_manip::get_span::GetSpan;
use reflect::ast_manip::util::{
    can_list_use_idents, extend_span_attrs, is_relative_path, join_visibility, macro_name,
    namespace, span_is_text, span_text, split_uses, split_uses_to_vec, use_idents,
    with_span_text, PatternSymbol,
};
use reflect::items::{
    BindingMode, CrateSugar, Ident, ImplItem, ImplItemKind, Item, ItemKind, Label, Mac, Namespace,
    Pat, PatKind, Res, Stmt, StmtKind, TokenStream, TraitItem, TraitItemKind, UseTree,
    UseTreeKind, VisibilityKind,
};
use reflect::model::DefKind;
use reflect::nodes::NodeId;
use reflect::semantic::{DefId, Mutability};
use reflect::span::{Attribute, Span, Spanned};

fn seg(name: &str) -> PathSegment {
    PathSegment { ident: name.to_string(), args: None }
}

fn path(names: &[&str]) -> Path {
    Path { segments: names.iter().map(|n| seg(n)).collect() }
}

fn ident(name: &str) -> Ident {
    Ident { name: name.to_string() }
}

fn span(lo: u32, hi: u32) -> Span {
    Span { lo, hi, ctxt: 0 }
}

fn attr(lo: u32, hi: u32, ctxt: u32) -> Attribute {
    Attribute { span: Span { lo, hi, ctxt } }
}

fn mac(names: &[&str], tokens: &[&str]) -> Mac {
    Mac {
        path: path(names),
        tts: TokenStream { tokens: tokens.iter().map(|t| t.to_string()).collect() },
    }
}

fn simple(names: &[&str]) -> UseTree {
    UseTree { prefix: path(names), kind: UseTreeKind::Simple(None) }
}

fn renamed(names: &[&str], rename: &str) -> UseTree {
    UseTree { prefix: path(names), kind: UseTreeKind::Simple(Some(ident(rename))) }
}

fn glob(names: &[&str]) -> UseTree {
    UseTree { prefix: path(names), kind: UseTreeKind::Glob }
}

fn nested(names: &[&str], children: Vec<(UseTree, u32)>) -> UseTree {
    UseTree {
        prefix: path(names),
        kind: UseTreeKind::Nested(
            children.into_iter().map(|(t, id)| (t, NodeId { index: id })).collect(),
        ),
    }
}

fn use_item(id: u32, tree: UseTree) -> Item {
    Item {
        id: NodeId { index: id },
        span: span(100, 140),
        attrs: vec![attr(90, 99, 0)],
        kind: ItemKind::Use(tree),
    }
}

fn names(idents: Vec<Ident>) -> Vec<String> {
    idents.into_iter().map(|i| i.name).collect()
}

#[test]
fn span_of_a_spanned_value_is_its_span() {
    let spanned = Spanned { node: 7u8, span: span(3, 9) };
    assert_eq!(spanned.get_span(), span(3, 9));
    assert_eq!((&spanned).get_span(), span(3, 9));
    assert_eq!(Box::new(Spanned { node: "x", span: span(1, 2) }).get_span(), span(1, 2));
    assert_eq!(attr(4, 5, 6).get_span(), Span { lo: 4, hi: 5, ctxt: 6 });
    assert_eq!(use_item(1, simple(&["a"])).get_span(), span(100, 140));
}

#[test]
fn span_between_two_positions_begins_at_the_lower() {
    assert_eq!(Span::new(9, 3, 1), Span { lo: 3, hi: 9, ctxt: 1 });
    assert_eq!(Span::new(3, 9, 1), Span { lo: 3, hi: 9, ctxt: 1 });
    assert_eq!(span(10, 20).with_lo(4), span(4, 20));
    assert_eq!(span(10, 20).with_lo(25), span(20, 25));
    assert_eq!(Span::dummy(), Span { lo: 0, hi: 0, ctxt: 0 });
    let s = Span { lo: 1, hi: 2, ctxt: 3 };
    assert_eq!((s.lo(), s.hi(), s.ctxt()), (1, 2, 3));
}

#[test]
fn span_is_extended_to_the_earliest_attribute() {
    let s = span(50, 80);
    let attrs = vec![attr(40, 45, 0), attr(20, 30, 0), attr(35, 38, 0)];
    assert_eq!(extend_span_attrs(s, &attrs), span(20, 80));
    assert_eq!(extend_span_attrs(s, &vec![]), s);
}

#[test]
fn attributes_that_do_not_count_leave_the_span() {
    let s = Span { lo: 50, hi: 80, ctxt: 2 };
    // Another expansion context, a later start, and the dummy span.
    let attrs = vec![attr(10, 20, 1), attr(60, 70, 2), attr(0, 0, 0), attr(50, 55, 2)];
    assert_eq!(extend_span_attrs(s, &attrs), s);
    let zero = span(5, 9);
    assert_eq!(extend_span_attrs(zero, &vec![attr(0, 0, 0)]), zero);
    assert_eq!(extend_span_attrs(zero, &vec![attr(0, 3, 0)]), span(0, 9));
}

#[test]
fn macro_name_is_the_last_segment_of_its_path() {
    assert_eq!(macro_name(&mac(&["std", "vec"], &["1", ",", "2"])), "vec");
    assert_eq!(macro_name(&mac(&["println"], &[])), "println");
}

#[test]
fn path_is_relative_if_it_begins_with_self_or_super() {
    assert!(is_relative_path(&path(&["self", "a"])));
    assert!(is_relative_path(&path(&["super", "a", "b"])));
    assert!(is_relative_path(&path(&["self"])));
    assert!(!is_relative_path(&path(&["crate", "a"])));
    assert!(!is_relative_path(&path(&["a", "self"])));
    assert!(!is_relative_path(&path(&["Self"])));
    assert!(!is_relative_path(&path(&[])));
}

#[test]
fn namespace_of_every_resolution() {
    let def = |kind| Res::Def(kind, DefId { index: 0 });
    for kind in [
        DefKind::Mod,
        DefKind::Struct,
        DefKind::Union,
        DefKind::Enum,
        DefKind::Variant,
        DefKind::Trait,
        DefKind::OpaqueTy,
        DefKind::TyAlias,
        DefKind::ForeignTy,
        DefKind::TraitAlias,
        DefKind::AssocTy,
        DefKind::AssocOpaqueTy,
        DefKind::TyParam,
    ] {
        assert_eq!(namespace(&def(kind)), Some(Namespace::TypeNS));
    }
    for kind in [
        DefKind::Fn,
        DefKind::Const,
        DefKind::ConstParam,
        DefKind::Static,
        DefKind::Ctor,
        DefKind::Method,
        DefKind::AssocConst,
    ] {
        assert_eq!(namespace(&def(kind)), Some(Namespace::ValueNS));
    }
    assert_eq!(namespace(&def(DefKind::Macro)), Some(Namespace::MacroNS));
    assert_eq!(namespace(&Res::PrimTy), Some(Namespace::TypeNS));
    assert_eq!(namespace(&Res::SelfTy), Some(Namespace::TypeNS));
    assert_eq!(namespace(&Res::ToolMod), Some(Namespace::TypeNS));
    assert_eq!(namespace(&Res::SelfCtor), Some(Namespace::ValueNS));
    assert_eq!(namespace(&Res::Local), Some(Namespace::ValueNS));
    assert_eq!(namespace(&Res::NonMacroAttr), Some(Namespace::MacroNS));
    assert_eq!(namespace(&Res::Error), None);
}

fn restricted(names: &[&str], id: u32) -> VisibilityKind {
    VisibilityKind::Restricted { path: path(names), id: NodeId { index: id } }
}

#[test]
fn public_is_wider_than_everything() {
    let others = || {
        vec![
            VisibilityKind::Public,
            VisibilityKind::Crate(CrateSugar::JustCrate),
            restricted(&["a"], 1),
            VisibilityKind::Inherited,
        ]
    };
    for other in others() {
        assert_eq!(join_visibility(&VisibilityKind::Public, &other), VisibilityKind::Public);
        assert_eq!(join_visibility(&other, &VisibilityKind::Public), VisibilityKind::Public);
    }
}

#[test]
fn crate_visibility_is_joined_to_the_written_form() {
    let just = VisibilityKind::Crate(CrateSugar::JustCrate);
    let wide = VisibilityKind::Crate(CrateSugar::PubCrate);
    for other in [just_clone(&just), restricted(&["a"], 1), VisibilityKind::Inherited] {
        assert_eq!(join_visibility(&just, &other), wide);
        assert_eq!(join_visibility(&other, &just), wide);
    }
}

fn just_clone(v: &VisibilityKind) -> VisibilityKind {
    v.clone()
}

#[test]
fn restricted_visibilities_are_joined_by_their_paths() {
    let a = restricted(&["crate", "a"], 1);
    let same = restricted(&["crate", "a"], 2);
    let b = restricted(&["crate", "b"], 3);
    // Equal paths: the first visibility, with its own node.
    assert_eq!(join_visibility(&a, &same), restricted(&["crate", "a"], 1));
    assert_eq!(join_visibility(&same, &a), restricted(&["crate", "a"], 2));
    assert_eq!(join_visibility(&a, &b), VisibilityKind::Crate(CrateSugar::PubCrate));
    assert_eq!(join_visibility(&a, &VisibilityKind::Inherited), restricted(&["crate", "a"], 1));
    assert_eq!(join_visibility(&VisibilityKind::Inherited, &b), restricted(&["crate", "b"], 3));
    assert_eq!(
        join_visibility(&VisibilityKind::Inherited, &VisibilityKind::Inherited),
        VisibilityKind::Inherited
    );
}

#[test]
fn equivalence_looks_at_names_arguments_and_shape() {
    let with_args = |arg: Ty| Path {
        segments: vec![seg("a"), PathSegment { ident: "B".to_string(), args: Some(vec![arg]) }],
    };
    let i32_ty = || Ty::Path { qself: None, path: path(&["i32"]) };
    assert!(path(&["a", "b"]).ast_equiv(&path(&["a", "b"])));
    assert!(!path(&["a", "b"]).ast_equiv(&path(&["a", "c"])));
    assert!(!path(&["a", "b"]).ast_equiv(&path(&["a"])));
    assert!(with_args(i32_ty()).ast_equiv(&with_args(i32_ty())));
    assert!(!with_args(i32_ty()).ast_equiv(&with_args(Ty::Never)));
    assert!(!with_args(i32_ty()).ast_equiv(&path(&["a", "B"])));
    let empty_args = Path {
        segments: vec![seg("a"), PathSegment { ident: "B".to_string(), args: Some(vec![]) }],
    };
    assert!(!empty_args.ast_equiv(&path(&["a", "B"])));
    assert!(tys_equiv(&vec![Ty::Infer, Ty::Never], &vec![Ty::Infer, Ty::Never]));
    assert!(!tys_equiv(&vec![Ty::Infer, Ty::Never], &vec![Ty::Never, Ty::Infer]));
    assert!(!tys_equiv(&vec![Ty::Infer], &vec![]));
}

#[test]
fn equivalence_of_types_and_expressions() {
    let lit = |n| Expr::Lit { lit: Lit::Int(n, LitIntType::Unsuffixed) };
    let array = |n| Ty::Array { elem: Box::new(Ty::Never), len: Box::new(lit(n)) };
    assert!(array(4).ast_equiv(&array(4)));
    assert!(!array(4).ast_equiv(&array(5)));
    assert!(!array(4).ast_equiv(&Ty::Slice { elem: Box::new(Ty::Never) }));
    let reference = |m| Ty::Ref { mutbl: m, pointee: Box::new(Ty::Infer) };
    assert!(reference(Mutability::Mutable).ast_equiv(&reference(Mutability::Mutable)));
    assert!(!reference(Mutability::Mutable).ast_equiv(&reference(Mutability::Immutable)));
    let q = |position| Some(QSelf { ty: Box::new(Ty::Never), position });
    assert!(qself_equiv(&q(0), &q(0)));
    assert!(!qself_equiv(&q(0), &q(1)));
    assert!(!qself_equiv(&q(0), &None));
    assert!(qself_equiv(&None, &None));
    assert!(Lit::ByteStr(vec![1, 2]).ast_equiv(&Lit::ByteStr(vec![1, 2])));
    assert!(!Lit::ByteStr(vec![1, 2]).ast_equiv(&Lit::ByteStr(vec![1, 3])));
    assert!(!Lit::Str("a".to_string()).ast_equiv(&Lit::Error("a".to_string())));
    assert!(Lit::Float("1.5".to_string(), reflect::semantic::FloatTy::F32)
        .ast_equiv(&Lit::Float("1.5".to_string(), reflect::semantic::FloatTy::F32)));
    assert!(!Lit::Float("1.5".to_string(), reflect::semantic::FloatTy::F32)
        .ast_equiv(&Lit::Float("1.5".to_string(), reflect::semantic::FloatTy::F64)));
    let ascribed = |n| Expr::Type { expr: Box::new(lit(n)), ty: Box::new(Ty::Infer) };
    assert!(ascribed(1).ast_equiv(&ascribed(1)));
    assert!(!ascribed(1).ast_equiv(&ascribed(2)));
}

#[test]
fn pattern_symbol_of_names_and_paths() {
    assert_eq!(ident("x").pattern_symbol(), Some("x".to_string()));
    assert_eq!(Label { ident: ident("outer") }.pattern_symbol(), Some("outer".to_string()));
    assert_eq!(path(&["x"]).pattern_symbol(), Some("x".to_string()));
    assert_eq!(path(&["a", "x"]).pattern_symbol(), None);
    assert_eq!(path(&[]).pattern_symbol(), None);
    let with_args = Path { segments: vec![PathSegment { ident: "x".to_string(), args: Some(vec![]) }] };
    assert_eq!(with_args.pattern_symbol(), None);
}

#[test]
fn pattern_symbol_of_literals() {
    assert_eq!(Lit::Error("__x".to_string()).pattern_symbol(), Some("__x".to_string()));
    assert_eq!(Lit::Str("__x".to_string()).pattern_symbol(), None);
    assert_eq!(Lit::Bool(true).pattern_symbol(), None);
}

#[test]
fn pattern_symbol_of_expressions_types_and_statements() {
    let expr = |qself| Expr::Path { qself, path: path(&["__e"]) };
    assert_eq!(expr(None).pattern_symbol(), Some("__e".to_string()));
    let q = QSelf { ty: Box::new(Ty::Never), position: 0 };
    assert_eq!(expr(Some(q)).pattern_symbol(), None);
    assert_eq!(Expr::Lit { lit: Lit::Bool(false) }.pattern_symbol(), None);
    assert_eq!(Ty::Path { qself: None, path: path(&["__t"]) }.pattern_symbol(), Some("__t".to_string()));
    assert_eq!(Ty::Infer.pattern_symbol(), None);
    assert_eq!(Stmt { kind: StmtKind::Semi(expr(None)) }.pattern_symbol(), Some("__e".to_string()));
    assert_eq!(Stmt { kind: StmtKind::Expr(expr(None)) }.pattern_symbol(), None);
    assert_eq!(Stmt { kind: StmtKind::Other }.pattern_symbol(), None);
}

#[test]
fn pattern_symbol_of_patterns() {
    let pat = |mode, sub| Pat { kind: PatKind::Ident(mode, ident("__p"), sub) };
    let by_value = BindingMode::ByValue(Mutability::Immutable);
    assert_eq!(pat(by_value, None).pattern_symbol(), Some("__p".to_string()));
    assert_eq!(pat(BindingMode::ByValue(Mutability::Mutable), None).pattern_symbol(), None);
    assert_eq!(pat(BindingMode::ByRef(Mutability::Immutable), None).pattern_symbol(), None);
    assert_eq!(pat(by_value, Some(Box::new(Pat { kind: PatKind::Wild }))).pattern_symbol(), None);
    assert_eq!(Pat { kind: PatKind::Wild }.pattern_symbol(), None);
    assert_eq!(Pat { kind: PatKind::Other }.pattern_symbol(), None);
}

#[test]
fn pattern_symbol_of_macros_and_items() {
    assert_eq!(mac(&["__m"], &[]).pattern_symbol(), Some("__m".to_string()));
    assert_eq!(mac(&["__m"], &["x"]).pattern_symbol(), None);
    assert_eq!(mac(&["a", "__m"], &[]).pattern_symbol(), None);
    let item = |kind| Item { id: NodeId { index: 1 }, span: span(0, 1), attrs: vec![], kind };
    assert_eq!(item(ItemKind::Mac(mac(&["__i"], &[]))).pattern_symbol(), Some("__i".to_string()));
    assert_eq!(item(ItemKind::Other).pattern_symbol(), None);
    assert_eq!(item(ItemKind::Use(simple(&["__i"]))).pattern_symbol(), None);
    assert_eq!(
        ImplItem { kind: ImplItemKind::Macro(mac(&["__i"], &[])) }.pattern_symbol(),
        Some("__i".to_string())
    );
    assert_eq!(ImplItem { kind: ImplItemKind::Other }.pattern_symbol(), None);
    assert_eq!(
        TraitItem { kind: TraitItemKind::Macro(mac(&["__t"], &[])) }.pattern_symbol(),
        Some("__t".to_string())
    );
    assert_eq!(TraitItem { kind: TraitItemKind::Other }.pattern_symbol(), None);
}

#[test]
fn identifiers_of_a_use_tree() {
    assert_eq!(names(use_idents(&simple(&["a", "b", "C"]))), vec!["C"]);
    assert_eq!(names(use_idents(&renamed(&["a", "b", "C"], "D"))), vec!["D"]);
    assert_eq!(names(use_idents(&renamed(&[], "D"))), vec!["D"]);
    let tree = nested(
        &["std"],
        vec![
            (simple(&["fmt"]), 1),
            (nested(&["collections"], vec![(simple(&["HashMap"]), 2), (renamed(&["HashSet"], "Set"), 3)]), 4),
            (nested(&["io"], vec![]), 5),
            (simple(&["mem", "swap"]), 6),
        ],
    );
    assert!(can_list_use_idents(&tree));
    assert_eq!(names(use_idents(&tree)), vec!["fmt", "HashMap", "Set", "swap"]);
    assert_eq!(names(use_idents(&nested(&["a"], vec![]))), Vec::<String>::new());
}

#[test]
fn identifiers_of_a_glob_cannot_be_listed() {
    assert!(!can_list_use_idents(&glob(&["a"])));
    assert!(!can_list_use_idents(&simple(&[])));
    assert!(can_list_use_idents(&renamed(&[], "x")));
    assert!(!can_list_use_idents(&nested(&["a"], vec![(simple(&["b"]), 1), (glob(&["c"]), 2)])));
    assert!(!can_list_use_idents(&nested(
        &["a"],
        vec![(nested(&["b"], vec![(simple(&[]), 1)]), 2)]
    )));
    assert!(can_list_use_idents(&nested(&["a"], vec![])));
}

#[test]
fn simple_use_is_split_into_itself() {
    let item = use_item(7, renamed(&["a", "b"], "c"));
    let out = split_uses_to_vec(item);
    assert_eq!(out, vec![use_item(7, renamed(&["a", "b"], "c"))]);
    let out = split_uses_to_vec(use_item(8, glob(&["a"])));
    assert_eq!(out, vec![use_item(8, glob(&["a"]))]);
}

#[test]
fn nested_use_is_split_into_its_leaves_in_order() {
    let tree = nested(
        &["std"],
        vec![
            (simple(&["fmt"]), 11),
            (
                nested(
                    &["collections"],
                    vec![(simple(&["HashMap"]), 12), (glob(&["hash_map"]), 13)],
                ),
                14,
            ),
            (renamed(&["mem", "swap"], "exchange"), 15),
        ],
    );
    let out = split_uses_to_vec(use_item(10, tree));
    assert_eq!(
        out,
        vec![
            use_item(11, simple(&["std", "fmt"])),
            use_item(12, simple(&["std", "collections", "HashMap"])),
            use_item(13, glob(&["std", "collections", "hash_map"])),
            use_item(15, renamed(&["std", "mem", "swap"], "exchange")),
        ]
    );
}

#[test]
fn nested_use_without_children_is_split_into_nothing() {
    assert_eq!(split_uses_to_vec(use_item(1, nested(&["a"], vec![]))), vec![]);
    let _ = split_uses(use_item(1, nested(&["a"], vec![])));
}

#[test]
fn text_of_a_span_is_handed_to_the_callback() {
    let src = "fn main() { run(); }";
    let mut seen = String::new();
    assert!(with_span_text(Some(src), 12, 18, |text: &str| seen.push_str(text)));
    assert_eq!(seen, "run();");
    let mut called = false;
    assert!(!with_span_text(None, 12, 18, |_: &str| called = true));
    assert!(!called);
}

#[test]
fn text_of_a_span_is_cut_between_characters() {
    let src = "aé→b";
    assert_eq!(span_text(src, 0, src.len()), src);
    assert_eq!(span_text(src, 1, 3), "é");
    assert_eq!(span_text(src, 3, 6), "→");
    assert_eq!(span_text(src, 6, 6), "");
    assert!(span_is_text(src, 1, 3));
    assert!(!span_is_text(src, 2, 3));
    assert!(!span_is_text(src, 3, 5));
    assert!(!span_is_text(src, 3, 1));
    assert!(!span_is_text(src, 0, 8));
    assert!(span_is_text(src, 7, 7));
    assert!(!span_is_text(src, 8, 8));
}
