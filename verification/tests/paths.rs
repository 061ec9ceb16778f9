use reflect::ast::{Path, PathSegment, QSelf, Ty};
use reflect::model::{
    DefData, DefKind, GenericParamKind, NonPrintable, PathComponent, SemanticModel,
};
use reflect::reflect::{
    can_reflect_def_path, count_type_params, kind_has_generics, reflect_def_path,
    reflect_def_path_in, reflect_def_path_inner, reflect_range, Mode,
};
use reflect::semantic::{DefId, IntTy, SemanticType, UintTy};

fn seg(name: &str) -> PathSegment {
    PathSegment { ident: name.to_string(), args: None }
}

fn seg_with(name: &str, args: Vec<Ty>) -> PathSegment {
    PathSegment { ident: name.to_string(), args: Some(args) }
}

fn path(segments: Vec<PathSegment>) -> Path {
    Path { segments }
}

fn ident(name: &str) -> Ty {
    Ty::Path { qself: None, path: path(vec![seg(name)]) }
}

fn def(component: PathComponent, kind: Option<DefKind>, parent: Option<DefId>) -> DefData {
    DefData {
        krate: 0,
        component,
        kind,
        parent,
        visible_parent: None,
        generics: vec![],
        const_value: None,
        const_body: None,
    }
}

fn type_ns(name: &str) -> PathComponent {
    PathComponent::TypeNs { name: name.to_string() }
}

fn value_ns(name: &str) -> PathComponent {
    PathComponent::ValueNs { name: name.to_string() }
}

fn hidden(kind: NonPrintable) -> PathComponent {
    PathComponent::NonPrintable { kind }
}

fn local_root(model: &mut SemanticModel) -> DefId {
    model.add_def(def(PathComponent::CrateRoot, Some(DefKind::Mod), None)).unwrap()
}

fn param(index: usize, name: &str) -> SemanticType {
    SemanticType::Param { index, name: name.to_string() }
}

#[test]
fn local_crate_root_is_the_single_segment_of_the_unit() {
    let mut model = SemanticModel::new("demo".to_string());
    let root = local_root(&mut model);
    let (qself, p) = reflect_def_path(&model, root);
    assert_eq!(qself, None);
    assert_eq!(p, path(vec![seg("self")]));
}

#[test]
fn extern_crate_root_is_the_root_segment_and_the_name_of_the_unit() {
    let mut model = SemanticModel::new("demo".to_string());
    let _ = local_root(&mut model);
    let krate = model.add_crate("libc".to_string());
    assert_eq!(krate, 1);
    let mut data = def(PathComponent::CrateRoot, Some(DefKind::Mod), None);
    data.krate = krate;
    let root = model.add_def(data).unwrap();
    let (qself, p) = reflect_def_path(&model, root);
    assert_eq!(qself, None);
    assert_eq!(p, path(vec![seg("{{root}}"), seg("libc")]));
}

#[test]
fn item_of_another_unit_is_written_from_the_root_segment() {
    let mut model = SemanticModel::new("demo".to_string());
    let krate = model.add_crate("std".to_string());
    let mut data = def(PathComponent::CrateRoot, Some(DefKind::Mod), None);
    data.krate = krate;
    let root = model.add_def(data).unwrap();
    let mut module = def(type_ns("vec"), Some(DefKind::Mod), Some(root));
    module.krate = krate;
    let module = model.add_def(module).unwrap();
    let mut vec_def = def(type_ns("Vec"), Some(DefKind::Struct), Some(module));
    vec_def.krate = krate;
    vec_def.generics = vec![GenericParamKind::Type];
    let vec_def = model.add_def(vec_def).unwrap();
    let args = vec![SemanticType::Uint(UintTy::U8)];
    let (qself, p) = reflect_def_path_inner(&model, vec_def, Some(&args));
    assert_eq!(qself, None);
    assert_eq!(
        p,
        path(vec![seg("{{root}}"), seg("std"), seg("vec"), seg_with("Vec", vec![ident("u8")])])
    );
}

#[test]
fn reflecting_twice_gives_the_same_path() {
    let mut model = SemanticModel::new("demo".to_string());
    let root = local_root(&mut model);
    let module = model.add_def(def(type_ns("geometry"), Some(DefKind::Mod), Some(root))).unwrap();
    let point = model.add_def(def(type_ns("Point"), Some(DefKind::Struct), Some(module))).unwrap();
    let first = reflect_def_path(&model, point);
    let second = reflect_def_path(&model, point);
    assert_eq!(first, second);
    assert_eq!(first.1, path(vec![seg("self"), seg("geometry"), seg("Point")]));
    let empty: Vec<SemanticType> = vec![];
    let third = reflect_def_path_inner(&model, point, Some(&empty));
    let fourth = reflect_def_path_inner(&model, point, Some(&empty));
    assert_eq!(third, fourth);
    assert_eq!(third, first);
}

#[test]
fn constructor_path_is_the_path_of_its_struct() {
    let mut model = SemanticModel::new("demo".to_string());
    let root = local_root(&mut model);
    let a = model.add_def(def(type_ns("a"), Some(DefKind::Mod), Some(root))).unwrap();
    let b = model.add_def(def(type_ns("b"), Some(DefKind::Mod), Some(a))).unwrap();
    let c = model.add_def(def(type_ns("c"), Some(DefKind::Mod), Some(b))).unwrap();
    let wrapper = model.add_def(def(type_ns("Wrapper"), Some(DefKind::Struct), Some(c))).unwrap();
    let mut ctor = def(hidden(NonPrintable::Ctor), Some(DefKind::Ctor), Some(wrapper));
    // The reachability table leads from the constructor past the struct.
    ctor.visible_parent = Some(c);
    let ctor = model.add_def(ctor).unwrap();
    let (qself, p) = reflect_def_path(&model, ctor);
    assert_eq!(qself, None);
    assert_eq!(p, path(vec![seg("self"), seg("a"), seg("b"), seg("c"), seg("Wrapper")]));
    assert_eq!(p.segments.iter().filter(|s| s.ident == "Wrapper").count(), 1);
    assert_eq!(reflect_def_path(&model, wrapper).1, p);
}

#[test]
fn constructor_of_a_variant_names_the_enum_and_the_variant() {
    let mut model = SemanticModel::new("demo".to_string());
    let root = local_root(&mut model);
    let mut shape = def(type_ns("Shape"), Some(DefKind::Enum), Some(root));
    shape.generics = vec![GenericParamKind::Type];
    let shape = model.add_def(shape).unwrap();
    let circle = model.add_def(def(type_ns("Circle"), Some(DefKind::Variant), Some(shape))).unwrap();
    let ctor =
        model.add_def(def(hidden(NonPrintable::Ctor), Some(DefKind::Ctor), Some(circle))).unwrap();
    let args = vec![SemanticType::Int(IntTy::I64)];
    let (qself, p) = reflect_def_path_inner(&model, ctor, Some(&args));
    assert_eq!(qself, None);
    // The variant declares no parameter of its own, the enum declares one.
    assert_eq!(
        p,
        path(vec![
            seg("self"),
            seg_with("Shape", vec![ident("i64")]),
            seg_with("Circle", vec![]),
        ])
    );
}

#[test]
fn constructor_without_a_parent_has_an_empty_path() {
    let mut model = SemanticModel::new("demo".to_string());
    let ctor = model.add_def(def(hidden(NonPrintable::Ctor), Some(DefKind::Ctor), None)).unwrap();
    let (qself, p) = reflect_def_path(&model, ctor);
    assert_eq!(qself, None);
    assert_eq!(p, path(vec![]));
}

#[test]
fn item_inside_a_function_keeps_a_relative_path() {
    let mut model = SemanticModel::new("demo".to_string());
    let root = local_root(&mut model);
    let f = model.add_def(def(value_ns("f"), Some(DefKind::Fn), Some(root))).unwrap();
    let g = model.add_def(def(value_ns("g"), Some(DefKind::Fn), Some(f))).unwrap();
    let local = model.add_def(def(type_ns("Local"), Some(DefKind::Struct), Some(f))).unwrap();
    assert_eq!(reflect_def_path(&model, g).1, path(vec![seg("g")]));
    assert_eq!(reflect_def_path(&model, local).1, path(vec![seg("Local")]));
    assert_eq!(reflect_def_path(&model, f).1, path(vec![seg("self"), seg("f")]));
}

#[test]
fn components_without_a_name_add_nothing() {
    let mut model = SemanticModel::new("demo".to_string());
    let root = local_root(&mut model);
    let module = model.add_def(def(type_ns("outer"), Some(DefKind::Mod), Some(root))).unwrap();
    let mut up = module;
    for kind in [
        NonPrintable::Misc,
        NonPrintable::Lifetime,
        NonPrintable::Macro,
        NonPrintable::ClosureExpr,
        NonPrintable::AnonConst,
        NonPrintable::ImplTrait,
    ] {
        up = model.add_def(def(hidden(kind), None, Some(up))).unwrap();
    }
    let unnamed = model.add_def(def(type_ns(""), Some(DefKind::Mod), Some(up))).unwrap();
    let item = model.add_def(def(type_ns("Item"), Some(DefKind::Struct), Some(unnamed))).unwrap();
    assert_eq!(
        reflect_def_path(&model, item).1,
        path(vec![seg("self"), seg("outer"), seg("Item")])
    );
    // The innermost of the unnamed components is an `impl Trait` type, which
    // has no path of its own.
    assert!(!model.path_bearing(up));
    assert!(!can_reflect_def_path(&model, up, None));
    assert!(can_reflect_def_path(&model, item, None));
}

#[test]
fn closures_constants_and_impl_trait_types_have_no_path() {
    let mut model = SemanticModel::new("demo".to_string());
    let root = local_root(&mut model);
    for (kind, bearing) in [
        (NonPrintable::Misc, true),
        (NonPrintable::Lifetime, true),
        (NonPrintable::Macro, true),
        (NonPrintable::Ctor, true),
        (NonPrintable::ClosureExpr, false),
        (NonPrintable::AnonConst, false),
        (NonPrintable::ImplTrait, false),
    ] {
        let id = model.add_def(def(hidden(kind), None, Some(root))).unwrap();
        assert_eq!(model.path_bearing(id), bearing);
        assert_eq!(can_reflect_def_path(&model, id, None), bearing);
    }
    assert!(model.path_bearing(root));
    assert!(!model.path_bearing(DefId { index: 99 }));
    assert!(!can_reflect_def_path(&model, DefId { index: 99 }, None));
}

#[test]
fn value_without_a_name_adds_nothing_and_the_ascent_goes_on() {
    let mut model = SemanticModel::new("demo".to_string());
    let root = local_root(&mut model);
    let module = model.add_def(def(type_ns("m"), Some(DefKind::Mod), Some(root))).unwrap();
    let unnamed = model.add_def(def(value_ns(""), Some(DefKind::Const), Some(module))).unwrap();
    assert_eq!(reflect_def_path(&model, unnamed).1, path(vec![seg("self"), seg("m")]));
}

#[test]
fn reachability_table_wins_over_nesting() {
    let mut model = SemanticModel::new("demo".to_string());
    let root = local_root(&mut model);
    let private = model.add_def(def(type_ns("detail"), Some(DefKind::Mod), Some(root))).unwrap();
    let public = model.add_def(def(type_ns("api"), Some(DefKind::Mod), Some(root))).unwrap();
    let mut item = def(type_ns("Handle"), Some(DefKind::Struct), Some(private));
    item.visible_parent = Some(public);
    let item = model.add_def(item).unwrap();
    assert_eq!(
        reflect_def_path(&model, item).1,
        path(vec![seg("self"), seg("api"), seg("Handle")])
    );
}

#[test]
fn ascent_stops_where_there_is_no_parent() {
    let mut model = SemanticModel::new("demo".to_string());
    let orphan = model.add_def(def(type_ns("Orphan"), Some(DefKind::Struct), None)).unwrap();
    let child = model.add_def(def(type_ns("Child"), Some(DefKind::Struct), Some(orphan))).unwrap();
    assert_eq!(reflect_def_path(&model, child).1, path(vec![seg("Orphan"), seg("Child")]));
}

/// A model with `struct Holder<T>`, `impl<T> Holder<T>` and in it
/// `fn get<U>()`.
fn holder() -> (SemanticModel, DefId, DefId, DefId) {
    let mut model = SemanticModel::new("demo".to_string());
    let root = local_root(&mut model);
    let mut holder = def(type_ns("Holder"), Some(DefKind::Struct), Some(root));
    holder.generics = vec![GenericParamKind::Type];
    let holder = model.add_def(holder).unwrap();
    let self_ty = SemanticType::Adt { def: holder, args: vec![param(0, "T")] };
    let mut block = def(PathComponent::Impl { self_ty }, None, Some(root));
    block.generics = vec![GenericParamKind::Type];
    let block = model.add_def(block).unwrap();
    let mut get = def(value_ns("get"), Some(DefKind::Method), Some(block));
    get.generics = vec![GenericParamKind::Type];
    let get = model.add_def(get).unwrap();
    (model, holder, block, get)
}

#[test]
fn method_path_goes_through_the_self_type_of_its_impl() {
    let (model, _, _, get) = holder();
    let args = vec![SemanticType::Bool, SemanticType::Char];
    let (qself, p) = reflect_def_path_inner(&model, get, Some(&args));
    assert_eq!(qself, None);
    assert_eq!(
        p,
        path(vec![
            seg("self"),
            seg_with("Holder", vec![ident("bool")]),
            seg_with("get", vec![ident("char")]),
        ])
    );
}

#[test]
fn method_path_without_arguments_names_the_self_type_only() {
    let (model, _, _, get) = holder();
    let (qself, p) = reflect_def_path(&model, get);
    assert_eq!(qself, None);
    // The self type is written in generic mode: its argument is left to
    // inference.
    assert_eq!(p, path(vec![seg("self"), seg_with("Holder", vec![Ty::Infer]), seg("get")]));
}

#[test]
fn impl_with_a_window_of_another_length_is_written_in_generic_mode() {
    let (model, _, _, get) = holder();
    // One argument only: the method takes it, and none is left for the impl.
    let args = vec![SemanticType::Char];
    let (_, p) = reflect_def_path_inner(&model, get, Some(&args));
    assert_eq!(
        p,
        path(vec![
            seg("self"),
            seg_with("Holder", vec![Ty::Infer]),
            seg_with("get", vec![ident("char")]),
        ])
    );
    // Three arguments: two are left at the impl, which declares one parameter.
    let args = vec![SemanticType::Bool, SemanticType::Str, SemanticType::Char];
    let (_, p) = reflect_def_path_inner(&model, get, Some(&args));
    assert_eq!(
        p,
        path(vec![
            seg("self"),
            seg_with("Holder", vec![Ty::Infer]),
            seg_with("get", vec![ident("char")]),
        ])
    );
}

#[test]
fn impl_path_alone_is_the_path_of_its_self_type() {
    let (model, _, block, _) = holder();
    let (qself, p) = reflect_def_path(&model, block);
    assert_eq!(qself, None);
    assert_eq!(p, path(vec![seg("self"), seg_with("Holder", vec![Ty::Infer])]));
    let args = vec![SemanticType::Int(IntTy::I8)];
    let (qself, p) = reflect_def_path_inner(&model, block, Some(&args));
    assert_eq!(qself, None);
    assert_eq!(p, path(vec![seg("self"), seg_with("Holder", vec![ident("i8")])]));
}

#[test]
fn method_of_an_impl_for_a_reference_is_qualified() {
    let mut model = SemanticModel::new("demo".to_string());
    let root = local_root(&mut model);
    let self_ty = SemanticType::Ref {
        mutbl: reflect::semantic::Mutability::Mutable,
        pointee: Box::new(param(0, "T")),
    };
    let mut block = def(PathComponent::Impl { self_ty }, None, Some(root));
    block.generics = vec![GenericParamKind::Type];
    let block = model.add_def(block).unwrap();
    let f = model.add_def(def(value_ns("run"), Some(DefKind::Method), Some(block))).unwrap();
    let args = vec![SemanticType::Uint(UintTy::U32)];
    let (qself, p) = reflect_def_path_inner(&model, f, Some(&args));
    assert_eq!(
        qself,
        Some(QSelf {
            ty: Box::new(Ty::Ref {
                mutbl: reflect::semantic::Mutability::Mutable,
                pointee: Box::new(ident("u32")),
            }),
            position: 0,
        })
    );
    assert_eq!(p, path(vec![seg_with("run", vec![])]));
    // Without a window the parameter of the self type keeps its name: the
    // generic mode reaches only the outermost level.
    let (qself, p) = reflect_def_path(&model, f);
    assert_eq!(
        qself,
        Some(QSelf {
            ty: Box::new(Ty::Ref {
                mutbl: reflect::semantic::Mutability::Mutable,
                pointee: Box::new(ident("T")),
            }),
            position: 0,
        })
    );
    assert_eq!(p, path(vec![seg("run")]));
}

#[test]
fn impl_for_a_parameter_alone_is_left_to_inference_without_a_window() {
    let mut model = SemanticModel::new("demo".to_string());
    let root = local_root(&mut model);
    let mut block = def(PathComponent::Impl { self_ty: param(0, "T") }, None, Some(root));
    block.generics = vec![GenericParamKind::Type];
    let block = model.add_def(block).unwrap();
    let (qself, p) = reflect_def_path(&model, block);
    assert_eq!(qself, Some(QSelf { ty: Box::new(Ty::Infer), position: 0 }));
    assert_eq!(p, path(vec![]));
    let args = vec![SemanticType::Bool];
    let (qself, p) = reflect_def_path_inner(&model, block, Some(&args));
    assert_eq!(qself, None);
    assert_eq!(p, path(vec![seg("bool")]));
}

#[test]
fn arguments_are_taken_from_the_end_of_the_window() {
    let mut model = SemanticModel::new("demo".to_string());
    let root = local_root(&mut model);
    let mut outer = def(type_ns("Outer"), Some(DefKind::Trait), Some(root));
    outer.generics = vec![GenericParamKind::Type, GenericParamKind::Const, GenericParamKind::Type];
    let outer = model.add_def(outer).unwrap();
    let mut inner = def(type_ns("Inner"), Some(DefKind::AssocTy), Some(outer));
    inner.generics = vec![GenericParamKind::Lifetime, GenericParamKind::Type];
    let inner = model.add_def(inner).unwrap();
    let args = vec![SemanticType::Bool, SemanticType::Char, SemanticType::Str];
    let (_, p) = reflect_def_path_inner(&model, inner, Some(&args));
    assert_eq!(
        p,
        path(vec![
            seg("self"),
            seg_with("Outer", vec![ident("bool"), ident("char")]),
            seg_with("Inner", vec![ident("str")]),
        ])
    );
}

#[test]
fn window_that_runs_out_is_refused() {
    let mut model = SemanticModel::new("demo".to_string());
    let root = local_root(&mut model);
    let mut wide = def(type_ns("Wide"), Some(DefKind::Struct), Some(root));
    wide.generics = vec![GenericParamKind::Type, GenericParamKind::Lifetime, GenericParamKind::Type];
    let wide = model.add_def(wide).unwrap();
    let mut inner = def(type_ns("Inner"), Some(DefKind::AssocTy), Some(wide));
    inner.generics = vec![GenericParamKind::Type];
    let inner = model.add_def(inner).unwrap();
    let one = vec![SemanticType::Bool];
    let two = vec![SemanticType::Bool, SemanticType::Char];
    let three = vec![SemanticType::Bool, SemanticType::Char, SemanticType::Str];
    let none: Vec<SemanticType> = vec![];
    // `Wide` declares two type parameters.
    assert!(!can_reflect_def_path(&model, wide, Some(&one)));
    assert!(can_reflect_def_path(&model, wide, Some(&two)));
    assert!(can_reflect_def_path(&model, wide, Some(&three)));
    assert!(can_reflect_def_path(&model, wide, Some(&none)));
    assert!(can_reflect_def_path(&model, wide, None));
    assert!(!model.window_fits(wide, Some(1), false));
    assert!(model.window_fits(wide, Some(2), false));
    // `Inner` takes one, and `Wide` above it two, unless none is left.
    assert!(can_reflect_def_path(&model, inner, Some(&one)));
    assert!(!can_reflect_def_path(&model, inner, Some(&two)));
    assert!(can_reflect_def_path(&model, inner, Some(&three)));
    let (_, p) = reflect_def_path_inner(&model, inner, Some(&one));
    assert_eq!(
        p,
        path(vec![seg("self"), seg("Wide"), seg_with("Inner", vec![ident("bool")])])
    );
    // A window that holds a type that is none of the model is refused.
    let unknown = vec![SemanticType::Foreign { def: DefId { index: 50 } }, SemanticType::Bool];
    assert!(!can_reflect_def_path(&model, wide, Some(&unknown)));
}

#[test]
fn definition_that_cannot_be_generic_takes_no_arguments() {
    let mut model = SemanticModel::new("demo".to_string());
    let root = local_root(&mut model);
    let module = model.add_def(def(type_ns("m"), Some(DefKind::Mod), Some(root))).unwrap();
    let mut konst = def(value_ns("LIMIT"), Some(DefKind::Const), Some(module));
    konst.generics = vec![GenericParamKind::Type];
    let konst = model.add_def(konst).unwrap();
    let args = vec![SemanticType::Bool];
    let (_, p) = reflect_def_path_inner(&model, konst, Some(&args));
    assert_eq!(p, path(vec![seg("self"), seg("m"), seg("LIMIT")]));
}

#[test]
fn generic_definition_without_a_segment_takes_no_arguments() {
    let mut model = SemanticModel::new("demo".to_string());
    let root = local_root(&mut model);
    let mut module = def(type_ns("m"), Some(DefKind::Mod), Some(root));
    module.generics = vec![];
    let module = model.add_def(module).unwrap();
    let mut opaque = def(hidden(NonPrintable::ImplTrait), Some(DefKind::OpaqueTy), Some(module));
    opaque.generics = vec![GenericParamKind::Type];
    let opaque = model.add_def(opaque).unwrap();
    let mut item = def(type_ns("Item"), Some(DefKind::Struct), Some(opaque));
    item.generics = vec![GenericParamKind::Type];
    let item = model.add_def(item).unwrap();
    let args = vec![SemanticType::Bool, SemanticType::Char];
    let (_, p) = reflect_def_path_inner(&model, item, Some(&args));
    assert_eq!(p, path(vec![seg("self"), seg("m"), seg_with("Item", vec![ident("char")])]));
}

#[test]
fn binding_of_the_window_is_used_for_its_arguments() {
    let (model, holder, _, _) = holder();
    let args = vec![param(0, "T")];
    let mode = Mode::Bound { env: vec![ident("u64")] };
    let (_, p) = reflect_def_path_in(&model, holder, Some(&args), &mode);
    assert_eq!(p, path(vec![seg("self"), seg_with("Holder", vec![ident("u64")])]));
    let (_, p) = reflect_def_path_in(&model, holder, Some(&args), &Mode::Concrete);
    assert_eq!(p, path(vec![seg("self"), seg_with("Holder", vec![ident("T")])]));
}

#[test]
fn range_of_types_is_reflected_in_order() {
    let model = SemanticModel::new("demo".to_string());
    let tys = vec![SemanticType::Bool, SemanticType::Char, SemanticType::Str, SemanticType::Never];
    assert_eq!(
        reflect_range(&model, &tys, 1, 3, &Mode::Concrete),
        vec![ident("char"), ident("str")]
    );
    assert_eq!(reflect_range(&model, &tys, 2, 2, &Mode::Concrete), vec![]);
    assert_eq!(reflect_range(&model, &tys, 0, 4, &Mode::Concrete).len(), 4);
}

#[test]
fn kinds_that_can_declare_generic_parameters() {
    for kind in [
        DefKind::Struct,
        DefKind::Union,
        DefKind::Enum,
        DefKind::Variant,
        DefKind::Trait,
        DefKind::OpaqueTy,
        DefKind::TyAlias,
        DefKind::ForeignTy,
        DefKind::TraitAlias,
        DefKind::AssocTy,
        DefKind::AssocOpaqueTy,
        DefKind::TyParam,
        DefKind::Fn,
        DefKind::Method,
        DefKind::Ctor,
    ] {
        assert!(kind_has_generics(Some(kind)));
    }
    for kind in [
        DefKind::Mod,
        DefKind::Const,
        DefKind::ConstParam,
        DefKind::Static,
        DefKind::AssocConst,
        DefKind::Macro,
    ] {
        assert!(!kind_has_generics(Some(kind)));
    }
    assert!(!kind_has_generics(None));
}

#[test]
fn only_type_parameters_are_counted() {
    assert_eq!(count_type_params(&vec![]), 0);
    assert_eq!(
        count_type_params(&vec![
            GenericParamKind::Lifetime,
            GenericParamKind::Type,
            GenericParamKind::Const,
            GenericParamKind::Type,
        ]),
        2
    );
    assert_eq!(count_type_params(&vec![GenericParamKind::Lifetime, GenericParamKind::Const]), 0);
}
