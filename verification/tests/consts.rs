use reflect::ast::{BinOpKind, Expr, Lit, LitIntType, UnOp};
use reflect::model::{ConstBody, DefData, NonPrintable, PathComponent, SemanticModel};
use reflect::reflect::{anon_const_to_expr, can_reflect_anon_const, hir_expr_to_expr};
use reflect::semantic::{DefId, UintTy};

fn unsuffixed(value: u128) -> Lit {
    Lit::Int(value, LitIntType::Unsuffixed)
}

fn anon_const(body: Option<ConstBody>) -> DefData {
    DefData {
        krate: 0,
        component: PathComponent::NonPrintable { kind: NonPrintable::AnonConst },
        kind: None,
        parent: None,
        visible_parent: None,
        generics: vec![],
        const_value: None,
        const_body: body,
    }
}

#[test]
fn literal_body_is_a_literal_expression() {
    let body = ConstBody::Lit { lit: Lit::Int(16, LitIntType::Unsigned(UintTy::Usize)) };
    assert!(body.is_supported());
    assert_eq!(
        hir_expr_to_expr(&body),
        Expr::Lit { lit: Lit::Int(16, LitIntType::Unsigned(UintTy::Usize)) }
    );
}

#[test]
fn every_kind_of_literal_is_kept() {
    let lits = || {
        vec![
            Lit::Str("text".to_string()),
            Lit::ByteStr(vec![1, 2, 3]),
            Lit::Byte(7),
            Lit::Char('x'),
            Lit::Int(9, LitIntType::Signed(reflect::semantic::IntTy::I16)),
            Lit::Float("1.5".to_string(), reflect::semantic::FloatTy::F64),
            Lit::FloatUnsuffixed("2.0".to_string()),
            Lit::Bool(true),
            Lit::Error("__lit".to_string()),
        ]
    };
    for (lit, expected) in lits().into_iter().zip(lits()) {
        assert_eq!(hir_expr_to_expr(&ConstBody::Lit { lit }), Expr::Lit { lit: expected });
    }
}

#[test]
fn operations_keep_their_operator_and_their_operands_in_order() {
    // -(2) * (3 + 4)
    let body = ConstBody::Binary {
        op: BinOpKind::Mul,
        lhs: Box::new(ConstBody::Unary {
            op: UnOp::Neg,
            operand: Box::new(ConstBody::Lit { lit: unsuffixed(2) }),
        }),
        rhs: Box::new(ConstBody::Binary {
            op: BinOpKind::Add,
            lhs: Box::new(ConstBody::Lit { lit: unsuffixed(3) }),
            rhs: Box::new(ConstBody::Lit { lit: unsuffixed(4) }),
        }),
    };
    assert!(body.is_supported());
    assert_eq!(
        hir_expr_to_expr(&body),
        Expr::Binary {
            op: BinOpKind::Mul,
            lhs: Box::new(Expr::Unary {
                op: UnOp::Neg,
                operand: Box::new(Expr::Lit { lit: unsuffixed(2) }),
            }),
            rhs: Box::new(Expr::Binary {
                op: BinOpKind::Add,
                lhs: Box::new(Expr::Lit { lit: unsuffixed(3) }),
                rhs: Box::new(Expr::Lit { lit: unsuffixed(4) }),
            }),
        }
    );
}

#[test]
fn body_of_another_shape_is_not_supported() {
    assert!(!ConstBody::Other.is_supported());
    let nested = ConstBody::Binary {
        op: BinOpKind::Shl,
        lhs: Box::new(ConstBody::Lit { lit: unsuffixed(1) }),
        rhs: Box::new(ConstBody::Unary { op: UnOp::Not, operand: Box::new(ConstBody::Other) }),
    };
    assert!(!nested.is_supported());
}

#[test]
fn anonymous_constant_is_reflected_from_its_body() {
    let mut model = SemanticModel::new("demo".to_string());
    let body = ConstBody::Binary {
        op: BinOpKind::Sub,
        lhs: Box::new(ConstBody::Lit { lit: unsuffixed(8) }),
        rhs: Box::new(ConstBody::Lit { lit: unsuffixed(1) }),
    };
    let id = model.add_def(anon_const(Some(body))).unwrap();
    assert!(can_reflect_anon_const(&model, id));
    assert_eq!(
        anon_const_to_expr(&model, id),
        Expr::Binary {
            op: BinOpKind::Sub,
            lhs: Box::new(Expr::Lit { lit: unsuffixed(8) }),
            rhs: Box::new(Expr::Lit { lit: unsuffixed(1) }),
        }
    );
}

#[test]
fn only_an_anonymous_constant_of_the_local_unit_can_be_reflected() {
    let mut model = SemanticModel::new("demo".to_string());
    let other = model.add_crate("other".to_string());
    let body = || Some(ConstBody::Lit { lit: unsuffixed(3) });
    let mut foreign = anon_const(body());
    foreign.krate = other;
    let foreign = model.add_def(foreign).unwrap();
    let mut named = anon_const(body());
    named.component = PathComponent::ValueNs { name: "N".to_string() };
    let named = model.add_def(named).unwrap();
    let mut closure = anon_const(body());
    closure.component = PathComponent::NonPrintable { kind: NonPrintable::ClosureExpr };
    let closure = model.add_def(closure).unwrap();
    let local = model.add_def(anon_const(body())).unwrap();
    assert!(!can_reflect_anon_const(&model, foreign));
    assert!(!can_reflect_anon_const(&model, named));
    assert!(!can_reflect_anon_const(&model, closure));
    assert!(can_reflect_anon_const(&model, local));
}

#[test]
fn constant_without_a_supported_body_cannot_be_reflected() {
    let mut model = SemanticModel::new("demo".to_string());
    let no_body = model.add_def(anon_const(None)).unwrap();
    let other = model.add_def(anon_const(Some(ConstBody::Other))).unwrap();
    assert!(!can_reflect_anon_const(&model, no_body));
    assert!(!can_reflect_anon_const(&model, other));
    assert!(!can_reflect_anon_const(&model, DefId { index: 99 }));
}
