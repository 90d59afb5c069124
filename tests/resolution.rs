use core_functions::types::{
    common, functions, resolve, unify_args, Arg, Field, FunctionKind, ResolveError, TypeDesc,
};

fn expr(t: TypeDesc) -> Arg {
    Arg::Expr(t)
}

fn name(s: &str) -> Arg {
    Arg::Str(s.to_string())
}

fn field(n: &str, t: TypeDesc) -> Field {
    Field { name: n.to_string(), data_type: t }
}

fn is(r: &Result<TypeDesc, ResolveError>, t: &str) -> bool {
    match r {
        Ok(d) => d_name(d) == t,
        Err(_) => false,
    }
}

fn d_name(d: &TypeDesc) -> String {
    match d {
        TypeDesc::Null => "Null".to_string(),
        TypeDesc::Boolean => "Boolean".to_string(),
        TypeDesc::Int8 => "Int8".to_string(),
        TypeDesc::Int16 => "Int16".to_string(),
        TypeDesc::Int32 => "Int32".to_string(),
        TypeDesc::Int64 => "Int64".to_string(),
        TypeDesc::UInt8 => "UInt8".to_string(),
        TypeDesc::UInt16 => "UInt16".to_string(),
        TypeDesc::UInt32 => "UInt32".to_string(),
        TypeDesc::UInt64 => "UInt64".to_string(),
        TypeDesc::Float32 => "Float32".to_string(),
        TypeDesc::Float64 => "Float64".to_string(),
        TypeDesc::Decimal(p, s) => format!("Decimal({},{})", p, s),
        TypeDesc::Utf8 => "Utf8".to_string(),
        TypeDesc::Date32 => "Date32".to_string(),
        TypeDesc::Timestamp => "Timestamp".to_string(),
        TypeDesc::Struct(_) => "Struct".to_string(),
        TypeDesc::Union(_) => "Union".to_string(),
    }
}

fn common_name(a: TypeDesc, b: TypeDesc) -> Option<String> {
    common(&a, &b).map(|t| d_name(&t))
}

#[test]
fn lattice_integers() {
    assert_eq!(common_name(TypeDesc::Int8, TypeDesc::Int32), Some("Int32".to_string()));
    assert_eq!(common_name(TypeDesc::UInt16, TypeDesc::UInt8), Some("UInt16".to_string()));
    assert_eq!(common_name(TypeDesc::Int8, TypeDesc::UInt8), Some("Int16".to_string()));
    assert_eq!(common_name(TypeDesc::UInt32, TypeDesc::Int64), Some("Int64".to_string()));
    assert_eq!(common_name(TypeDesc::UInt64, TypeDesc::Int8), Some("Decimal(20,0)".to_string()));
}

#[test]
fn lattice_floats_and_decimals() {
    assert_eq!(common_name(TypeDesc::Int32, TypeDesc::Float32), Some("Float64".to_string()));
    assert_eq!(common_name(TypeDesc::Float32, TypeDesc::Float32), Some("Float32".to_string()));
    assert_eq!(common_name(TypeDesc::Float32, TypeDesc::Float64), Some("Float64".to_string()));
    assert_eq!(
        common_name(TypeDesc::Decimal(10, 2), TypeDesc::Decimal(5, 4)),
        Some("Decimal(12,4)".to_string())
    );
    assert_eq!(common_name(TypeDesc::Int32, TypeDesc::Decimal(5, 2)), Some("Decimal(12,2)".to_string()));
    assert_eq!(
        common_name(TypeDesc::Decimal(38, 0), TypeDesc::Decimal(38, 10)),
        Some("Decimal(38,10)".to_string())
    );
}

#[test]
fn lattice_other_kinds() {
    assert_eq!(common_name(TypeDesc::Null, TypeDesc::Utf8), Some("Utf8".to_string()));
    assert_eq!(common_name(TypeDesc::Date32, TypeDesc::Timestamp), Some("Timestamp".to_string()));
    assert_eq!(common_name(TypeDesc::Boolean, TypeDesc::Boolean), Some("Boolean".to_string()));
    assert_eq!(common_name(TypeDesc::Utf8, TypeDesc::Int32), None);
    assert_eq!(common_name(TypeDesc::Struct(vec![]), TypeDesc::Int32), None);
}

#[test]
fn resolve_coalesce_widens() {
    let r = resolve(FunctionKind::Coalesce, vec![expr(TypeDesc::Int8), expr(TypeDesc::Null), expr(TypeDesc::Int64)]);
    assert!(is(&r, "Int64"));
    let r = resolve(FunctionKind::Greatest, vec![expr(TypeDesc::Int16), Arg::Int(4)]);
    assert!(is(&r, "Int64"));
}

#[test]
fn resolve_type_mismatch() {
    let r = resolve(FunctionKind::Least, vec![expr(TypeDesc::Utf8), expr(TypeDesc::Int32)]);
    assert!(matches!(r, Err(ResolveError::TypeMismatch)));
    let r = resolve(FunctionKind::Coalesce, vec![expr(TypeDesc::Struct(vec![field("a", TypeDesc::Int32)]))]);
    assert!(matches!(r, Err(ResolveError::TypeMismatch)));
}

#[test]
fn resolve_arity() {
    assert!(matches!(resolve(FunctionKind::Coalesce, vec![]), Err(ResolveError::InvalidArgument)));
    assert!(matches!(
        resolve(FunctionKind::NullIf, vec![expr(TypeDesc::Int32)]),
        Err(ResolveError::InvalidArgument)
    ));
    assert!(matches!(
        resolve(FunctionKind::Nvl, vec![expr(TypeDesc::Int32), expr(TypeDesc::Int32), expr(TypeDesc::Int32)]),
        Err(ResolveError::InvalidArgument)
    ));
    assert!(matches!(
        resolve(FunctionKind::Nvl2, vec![expr(TypeDesc::Int32), expr(TypeDesc::Int32)]),
        Err(ResolveError::InvalidArgument)
    ));
}

#[test]
fn resolve_nvl2_ignores_first_type() {
    let r = resolve(
        FunctionKind::Nvl2,
        vec![expr(TypeDesc::Struct(vec![])), expr(TypeDesc::Int8), expr(TypeDesc::Int16)],
    );
    assert!(is(&r, "Int16"));
}

#[test]
fn unify_from_position() {
    let args = vec![expr(TypeDesc::Utf8), expr(TypeDesc::UInt8), expr(TypeDesc::UInt32)];
    assert!(is(&unify_args(&args, 1), "UInt32"));
    assert!(matches!(unify_args(&args, 0), Err(ResolveError::TypeMismatch)));
}

#[test]
fn resolve_struct_fields() {
    let r = resolve(FunctionKind::Struct, vec![expr(TypeDesc::Int32), expr(TypeDesc::Utf8)]).unwrap();
    match r {
        TypeDesc::Struct(fs) => {
            assert_eq!(fs.len(), 2);
            assert_eq!(fs[0].name, "c0");
            assert_eq!(d_name(&fs[0].data_type), "Int32");
            assert_eq!(fs[1].name, "c1");
            assert_eq!(d_name(&fs[1].data_type), "Utf8");
        }
        _ => panic!("expected a struct"),
    }
    assert!(matches!(resolve(FunctionKind::Struct, vec![]), Err(ResolveError::InvalidArgument)));
}

#[test]
fn resolve_named_struct_fields() {
    let r = resolve(
        FunctionKind::NamedStruct,
        vec![name("x"), expr(TypeDesc::Int64), name("y"), expr(TypeDesc::Null)],
    )
    .unwrap();
    match r {
        TypeDesc::Struct(fs) => {
            assert_eq!(fs.len(), 2);
            assert_eq!(fs[0].name, "x");
            assert_eq!(d_name(&fs[0].data_type), "Int64");
            assert_eq!(fs[1].name, "y");
            assert_eq!(d_name(&fs[1].data_type), "Null");
        }
        _ => panic!("expected a struct"),
    }
}

#[test]
fn resolve_named_struct_errors() {
    let odd = vec![name("x"), expr(TypeDesc::Int64), name("y")];
    assert!(matches!(resolve(FunctionKind::NamedStruct, odd), Err(ResolveError::InvalidArgument)));
    let not_literal = vec![expr(TypeDesc::Utf8), expr(TypeDesc::Int64)];
    assert!(matches!(resolve(FunctionKind::NamedStruct, not_literal), Err(ResolveError::InvalidArgument)));
    let repeated = vec![name("x"), expr(TypeDesc::Int64), name("x"), expr(TypeDesc::Int8)];
    assert!(matches!(resolve(FunctionKind::NamedStruct, repeated), Err(ResolveError::InvalidArgument)));
}

fn point() -> TypeDesc {
    TypeDesc::Struct(vec![field("x", TypeDesc::Int32), field("y", TypeDesc::Utf8)])
}

#[test]
fn resolve_get_field_by_name_and_index() {
    assert!(is(&resolve(FunctionKind::GetField, vec![expr(point()), name("y")]), "Utf8"));
    assert!(is(&resolve(FunctionKind::GetField, vec![expr(point()), Arg::Int(0)]), "Int32"));
}

#[test]
fn resolve_get_field_errors() {
    assert!(matches!(
        resolve(FunctionKind::GetField, vec![expr(point()), name("z")]),
        Err(ResolveError::FieldNotFound)
    ));
    assert!(matches!(
        resolve(FunctionKind::GetField, vec![expr(point()), Arg::Int(2)]),
        Err(ResolveError::FieldNotFound)
    ));
    assert!(matches!(
        resolve(FunctionKind::GetField, vec![expr(TypeDesc::Int32), name("x")]),
        Err(ResolveError::TypeMismatch)
    ));
    assert!(matches!(
        resolve(FunctionKind::GetField, vec![expr(point()), expr(TypeDesc::Utf8)]),
        Err(ResolveError::InvalidArgument)
    ));
    assert!(matches!(resolve(FunctionKind::GetField, vec![expr(point())]), Err(ResolveError::InvalidArgument)));
}

fn either() -> TypeDesc {
    TypeDesc::Union(vec![field("a", TypeDesc::Int64), field("b", TypeDesc::Utf8)])
}

#[test]
fn resolve_union_functions() {
    assert!(is(&resolve(FunctionKind::UnionExtract, vec![expr(either()), name("b")]), "Utf8"));
    assert!(is(&resolve(FunctionKind::UnionTag, vec![expr(either())]), "Utf8"));
    assert!(matches!(
        resolve(FunctionKind::UnionExtract, vec![expr(either()), name("c")]),
        Err(ResolveError::FieldNotFound)
    ));
    assert!(matches!(
        resolve(FunctionKind::UnionExtract, vec![expr(either()), Arg::Int(0)]),
        Err(ResolveError::InvalidArgument)
    ));
    assert!(matches!(
        resolve(FunctionKind::UnionExtract, vec![expr(point()), name("x")]),
        Err(ResolveError::TypeMismatch)
    ));
    assert!(matches!(resolve(FunctionKind::UnionTag, vec![expr(point())]), Err(ResolveError::TypeMismatch)));
    assert!(matches!(resolve(FunctionKind::UnionTag, vec![]), Err(ResolveError::InvalidArgument)));
}

#[test]
fn all_functions_listed() {
    let fs = functions();
    assert_eq!(fs.len(), 11);
    assert!(fs.contains(&FunctionKind::Coalesce));
    assert!(fs.contains(&FunctionKind::UnionTag));
    assert!(fs.contains(&FunctionKind::Struct));
}
