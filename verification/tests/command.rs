use reflect::ast::{Expr, Lit, Path, PathSegment, Ty};
use reflect::model::{DefData, DefKind, GenericParamKind, PathComponent, SemanticModel};
use reflect::reflect::{can_test_reflect, test_reflect_expr};
use reflect::semantic::{DefId, IntTy, SemanticType};

fn seg(name: &str) -> PathSegment {
    PathSegment { ident: name.to_string(), args: None }
}

fn seg_with(name: &str, args: Vec<Ty>) -> PathSegment {
    PathSegment { ident: name.to_string(), args: Some(args) }
}

fn ident(name: &str) -> Ty {
    Ty::Path { qself: None, path: Path { segments: vec![seg(name)] } }
}

fn def(component: PathComponent, kind: DefKind, parent: Option<DefId>) -> DefData {
    DefData {
        krate: 0,
        component,
        kind: Some(kind),
        parent,
        visible_parent: None,
        generics: vec![],
        const_value: None,
        const_body: None,
    }
}

/// A model with `fn max<T>()` and `const LIMIT` at the root.
fn program() -> (SemanticModel, DefId, DefId) {
    let mut model = SemanticModel::new("demo".to_string());
    let root = model.add_def(def(PathComponent::CrateRoot, DefKind::Mod, None)).unwrap();
    let mut max =
        def(PathComponent::ValueNs { name: "max".to_string() }, DefKind::Fn, Some(root));
    max.generics = vec![GenericParamKind::Type];
    let max = model.add_def(max).unwrap();
    let limit = model
        .add_def(def(PathComponent::ValueNs { name: "LIMIT".to_string() }, DefKind::Const, Some(root)))
        .unwrap();
    (model, max, limit)
}

fn written() -> Expr {
    Expr::Path { qself: None, path: Path { segments: vec![seg("written")] } }
}

#[test]
fn function_item_is_replaced_by_its_path_and_left_to_inference() {
    let (model, max, limit) = program();
    let ty = SemanticType::FnDef { def: max, args: vec![SemanticType::Int(IntTy::I32)] };
    let expected_path = Path { segments: vec![seg("self"), seg_with("max", vec![ident("i32")])] };
    let out = test_reflect_expr(&model, written(), &ty, None);
    assert_eq!(
        out,
        Expr::Type {
            expr: Box::new(Expr::Path { qself: None, path: expected_path }),
            ty: Box::new(Ty::Infer),
        }
    );
    // The type of a function item wins over what the expression resolves to.
    let substs = vec![];
    let out = test_reflect_expr(&model, written(), &ty, Some((limit, &substs)));
    match out {
        Expr::Type { expr, .. } => match *expr {
            Expr::Path { path, .. } => assert_eq!(path.segments[1].ident, "max"),
            other => panic!("no path: {:?}", other),
        },
        other => panic!("no ascription: {:?}", other),
    }
}

#[test]
fn resolved_expression_is_replaced_by_the_path_of_its_definition() {
    let (model, _, limit) = program();
    let substs = vec![];
    let ty = SemanticType::Int(IntTy::I64);
    let out = test_reflect_expr(&model, written(), &ty, Some((limit, &substs)));
    assert_eq!(
        out,
        Expr::Type {
            expr: Box::new(Expr::Path {
                qself: None,
                path: Path { segments: vec![seg("self"), seg("LIMIT")] },
            }),
            ty: Box::new(ident("i64")),
        }
    );
}

#[test]
fn expression_whose_path_cannot_be_reflected_is_refused() {
    let (model, max, limit) = program();
    let none: Vec<SemanticType> = vec![];
    let one = vec![SemanticType::Bool];
    let fn_ty = |args| SemanticType::FnDef { def: max, args };
    assert!(can_test_reflect(&model, &fn_ty(vec![SemanticType::Bool]), None));
    assert!(can_test_reflect(&model, &fn_ty(vec![SemanticType::Bool, SemanticType::Char]), None));
    assert!(can_test_reflect(&model, &fn_ty(vec![]), None));
    let unknown = SemanticType::FnDef { def: DefId { index: 9 }, args: vec![] };
    assert!(!can_test_reflect(&model, &unknown, None));
    assert!(can_test_reflect(&model, &SemanticType::Bool, Some((limit, &none))));
    assert!(can_test_reflect(&model, &SemanticType::Bool, Some((max, &one))));
    assert!(!can_test_reflect(&model, &SemanticType::Bool, Some((DefId { index: 9 }, &none))));
    let bad = vec![SemanticType::Foreign { def: DefId { index: 9 } }];
    assert!(!can_test_reflect(&model, &SemanticType::Bool, Some((max, &bad))));
    assert!(can_test_reflect(&model, &SemanticType::Bool, None));
}

#[test]
fn other_expression_is_kept_and_ascribed_its_type() {
    let (model, _, _) = program();
    let e = Expr::Lit { lit: Lit::Bool(true) };
    let out = test_reflect_expr(&model, e, &SemanticType::Bool, None);
    assert_eq!(
        out,
        Expr::Type {
            expr: Box::new(Expr::Lit { lit: Lit::Bool(true) }),
            ty: Box::new(ident("bool")),
        }
    );
}
