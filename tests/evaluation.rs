use core_functions::conditional::{coalesce, nullif, nvl, nvl2};
use core_functions::ordering::{extreme, greatest, least, Extreme};
use core_functions::structural::{
    get_field, make_struct, named_struct, positional, union_extract, union_tag, FieldKey,
    StructColumn, UnionColumn,
};
use core_functions::evaluate::evaluate;
use core_functions::types::{FunctionKind, ResolveError};
use core_functions::value::{datum_eq, datum_less, str_less, Column, Datum};

fn ints(vals: &[Option<i64>]) -> Column {
    Column { rows: vals.iter().map(|v| v.map(Datum::Int)).collect() }
}

fn strs(vals: &[Option<&str>]) -> Column {
    Column { rows: vals.iter().map(|v| v.map(|s| Datum::Str(s.to_string()))).collect() }
}

fn int_rows(c: &Column) -> Vec<Option<i64>> {
    c.rows
        .iter()
        .map(|d| match d {
            None => None,
            Some(Datum::Int(x)) => Some(*x),
            Some(_) => panic!("not an integer"),
        })
        .collect()
}

fn str_rows(c: &Column) -> Vec<Option<String>> {
    c.rows
        .iter()
        .map(|d| match d {
            None => None,
            Some(Datum::Str(s)) => Some(s.clone()),
            Some(_) => panic!("not a string"),
        })
        .collect()
}

#[test]
fn coalesce_picks_first_valid() {
    let r = coalesce(&vec![ints(&[None]), ints(&[None]), ints(&[Some(5)])]);
    assert_eq!(int_rows(&r), vec![Some(5)]);
}

#[test]
fn coalesce_per_row() {
    let a = ints(&[Some(1), None, None]);
    let b = ints(&[Some(2), Some(3), None]);
    let r = coalesce(&vec![a, b]);
    assert_eq!(int_rows(&r), vec![Some(1), Some(3), None]);
}

#[test]
fn coalesce_zero_rows() {
    let r = coalesce(&vec![ints(&[]), ints(&[])]);
    assert_eq!(r.len(), 0);
}

#[test]
fn coalesce_identity_on_one_argument() {
    let a = ints(&[Some(4), None, Some(-2)]);
    let r = coalesce(&vec![a.copy()]);
    assert_eq!(int_rows(&r), int_rows(&a));
}

#[test]
fn coalesce_is_associative() {
    let a1 = ints(&[None, None, Some(1), None]);
    let a2 = ints(&[None, Some(2), Some(3), None]);
    let a3 = ints(&[Some(7), Some(8), Some(9), None]);
    let inner = coalesce(&vec![a1.copy(), a2.copy()]);
    let nested = coalesce(&vec![inner, a3.copy()]);
    let flat = coalesce(&vec![a1, a2, a3]);
    assert_eq!(int_rows(&nested), int_rows(&flat));
    assert_eq!(int_rows(&flat), vec![Some(7), Some(2), Some(1), None]);
}

#[test]
fn nullif_equal_and_unequal() {
    let r = nullif(&ints(&[Some(3), Some(3)]), &ints(&[Some(3), Some(4)]));
    assert_eq!(int_rows(&r), vec![None, Some(3)]);
}

#[test]
fn nullif_null_never_equal() {
    let r = nullif(&ints(&[None, Some(1)]), &ints(&[None, None]));
    assert_eq!(int_rows(&r), vec![None, Some(1)]);
}

#[test]
fn nullif_of_itself() {
    let a = ints(&[Some(1), None, Some(5)]);
    let r = nullif(&a, &a);
    assert_eq!(int_rows(&r), vec![None, None, None]);
}

#[test]
fn nullif_strings() {
    let r = nullif(&strs(&[Some("a"), Some("a")]), &strs(&[Some("a"), Some("b")]));
    assert_eq!(str_rows(&r), vec![None, Some("a".to_string())]);
}

#[test]
fn nvl_matches_coalesce() {
    let a = ints(&[None, Some(1), None]);
    let b = ints(&[Some(2), Some(3), None]);
    let r = nvl(&a, &b);
    assert_eq!(int_rows(&r), vec![Some(2), Some(1), None]);
    assert_eq!(int_rows(&r), int_rows(&coalesce(&vec![a, b])));
}

#[test]
fn nvl2_follows_first_argument() {
    let r = nvl2(&ints(&[None, Some(10)]), &ints(&[Some(1), Some(1)]), &ints(&[Some(2), Some(2)]));
    assert_eq!(int_rows(&r), vec![Some(2), Some(1)]);
}

#[test]
fn nvl2_passes_branch_nulls() {
    let r = nvl2(&ints(&[Some(0), None]), &ints(&[None, Some(1)]), &ints(&[Some(2), None]));
    assert_eq!(int_rows(&r), vec![None, None]);
}

#[test]
fn greatest_skips_nulls() {
    let r = greatest(&vec![ints(&[Some(1), None]), ints(&[None, None]), ints(&[Some(3), None])]);
    assert_eq!(int_rows(&r), vec![Some(3), None]);
}

#[test]
fn least_skips_nulls() {
    let r = least(&vec![ints(&[Some(4), None]), ints(&[None, Some(-1)]), ints(&[Some(3), None])]);
    assert_eq!(int_rows(&r), vec![Some(3), Some(-1)]);
}

#[test]
fn greatest_keeps_dominant_first_argument() {
    let a = ints(&[Some(5), Some(5), Some(2)]);
    let b = ints(&[Some(1), None, Some(2)]);
    let r = greatest(&vec![a, b]);
    assert_eq!(int_rows(&r), vec![Some(5), Some(5), Some(2)]);
}

#[test]
fn greatest_and_least_agree_on_equal() {
    let a = ints(&[Some(7), None]);
    let b = ints(&[Some(7), None]);
    let g = greatest(&vec![a.copy(), b.copy()]);
    let l = least(&vec![a, b]);
    assert_eq!(int_rows(&g), int_rows(&l));
}

#[test]
fn greatest_of_strings_is_lexicographic() {
    let r = greatest(&vec![strs(&[Some("apple"), Some("ab")]), strs(&[Some("banana"), Some("abc")])]);
    assert_eq!(str_rows(&r), vec![Some("banana".to_string()), Some("abc".to_string())]);
    let r = extreme(Extreme::Least, &vec![strs(&[Some("b")]), strs(&[Some("a")])]);
    assert_eq!(str_rows(&r), vec![Some("a".to_string())]);
}

#[test]
fn greatest_ties_keep_first() {
    let a = Column { rows: vec![Some(Datum::UInt(3))] };
    let b = Column { rows: vec![Some(Datum::UInt(3))] };
    let r = greatest(&vec![a, b]);
    assert!(matches!(r.rows[0], Some(Datum::UInt(3))));
}

#[test]
fn value_comparisons() {
    assert!(str_less(&"ab".to_string(), &"abc".to_string()));
    assert!(!str_less(&"abc".to_string(), &"ab".to_string()));
    assert!(!str_less(&"x".to_string(), &"x".to_string()));
    assert!(datum_less(&Datum::Bool(false), &Datum::Bool(true)));
    assert!(datum_less(&Datum::Int(-3), &Datum::Int(2)));
    assert!(datum_eq(&Datum::Str("q".to_string()), &Datum::Str("q".to_string())));
    assert!(!datum_eq(&Datum::Int(1), &Datum::UInt(1)));
}

#[test]
fn column_validity_bitmap() {
    let c = ints(&[Some(1), None, Some(3)]);
    assert_eq!(c.validity(), vec![true, false, true]);
    assert!(c.is_valid(0));
    assert!(!c.is_valid(1));
}

#[test]
fn positional_names() {
    assert_eq!(positional(0), "c0");
    assert_eq!(positional(1), "c1");
    assert_eq!(positional(42), "c42");
    assert_eq!(positional(1007), "c1007");
}

#[test]
fn struct_then_get_field_round_trip() {
    let a1 = ints(&[Some(1), Some(2)]);
    let a2 = strs(&[Some("x"), None]);
    let s = make_struct(&vec![a1, a2]);
    assert_eq!(s.num_rows, 2);
    assert_eq!(s.fields[0].name, "c0");
    assert_eq!(s.fields[1].name, "c1");
    let f = get_field(&s, &FieldKey::Name("c1".to_string())).unwrap();
    assert_eq!(str_rows(&f), vec![Some("x".to_string()), None]);
    let g = get_field(&s, &FieldKey::Index(0)).unwrap();
    assert_eq!(int_rows(&g), vec![Some(1), Some(2)]);
}

#[test]
fn named_struct_get_null_member() {
    let s: StructColumn = named_struct(
        &vec!["x".to_string(), "y".to_string()],
        &vec![ints(&[Some(1)]), ints(&[None])],
    );
    assert_eq!(s.num_rows, 1);
    let y = get_field(&s, &FieldKey::Name("y".to_string())).unwrap();
    assert_eq!(int_rows(&y), vec![None]);
    let x = get_field(&s, &FieldKey::Name("x".to_string())).unwrap();
    assert_eq!(int_rows(&x), vec![Some(1)]);
}

#[test]
fn get_field_missing() {
    let s = make_struct(&vec![ints(&[Some(1)])]);
    assert!(matches!(get_field(&s, &FieldKey::Name("c1".to_string())), Err(ResolveError::FieldNotFound)));
    assert!(matches!(get_field(&s, &FieldKey::Index(1)), Err(ResolveError::FieldNotFound)));
}

fn sample_union() -> UnionColumn {
    UnionColumn {
        names: vec!["a".to_string(), "b".to_string()],
        tags: vec![1, 0],
        children: vec![ints(&[None, Some(9)]), strs(&[Some("hi"), None])],
    }
}

#[test]
fn union_scenario() {
    let u = sample_union();
    let tags = union_tag(&u);
    assert_eq!(str_rows(&tags), vec![Some("b".to_string()), Some("a".to_string())]);
    let a = union_extract(&u, &"a".to_string()).unwrap();
    assert_eq!(int_rows(&a), vec![None, Some(9)]);
    let b = union_extract(&u, &"b".to_string()).unwrap();
    assert_eq!(str_rows(&b), vec![Some("hi".to_string()), None]);
}

#[test]
fn union_tag_then_extract() {
    let u = UnionColumn {
        names: vec!["a".to_string(), "b".to_string()],
        tags: vec![0, 1, 1],
        children: vec![ints(&[Some(1), Some(2), Some(3)]), ints(&[Some(4), Some(5), Some(6)])],
    };
    let tags = str_rows(&union_tag(&u));
    for (row, tag) in tags.iter().enumerate() {
        let name = tag.clone().unwrap();
        let extracted = int_rows(&union_extract(&u, &name).unwrap());
        let active = int_rows(&u.children[u.tags[row]]);
        assert_eq!(extracted[row], active[row]);
    }
}

#[test]
fn union_extract_missing_variant() {
    let u = sample_union();
    assert!(matches!(union_extract(&u, &"c".to_string()), Err(ResolveError::FieldNotFound)));
}

#[test]
fn evaluate_by_kind() {
    let args = vec![ints(&[None, Some(1)]), ints(&[Some(2), Some(1)])];
    assert_eq!(int_rows(&evaluate(FunctionKind::Coalesce, &args)), vec![Some(2), Some(1)]);
    assert_eq!(int_rows(&evaluate(FunctionKind::Nvl, &args)), vec![Some(2), Some(1)]);
    assert_eq!(int_rows(&evaluate(FunctionKind::NullIf, &args)), vec![None, None]);
    assert_eq!(int_rows(&evaluate(FunctionKind::Greatest, &args)), vec![Some(2), Some(1)]);
    assert_eq!(int_rows(&evaluate(FunctionKind::Least, &args)), vec![Some(2), Some(1)]);
    let three = vec![ints(&[None, Some(0)]), ints(&[Some(1), Some(1)]), ints(&[Some(2), Some(2)])];
    assert_eq!(int_rows(&evaluate(FunctionKind::Nvl2, &three)), vec![Some(2), Some(1)]);
}

#[test]
fn evaluate_all_null_and_empty_batches() {
    let nulls = vec![ints(&[None, None]), ints(&[None, None])];
    assert_eq!(int_rows(&evaluate(FunctionKind::Greatest, &nulls)), vec![None, None]);
    assert_eq!(int_rows(&evaluate(FunctionKind::Coalesce, &nulls)), vec![None, None]);
    let empty = vec![ints(&[]), ints(&[]), ints(&[])];
    assert_eq!(evaluate(FunctionKind::Nvl2, &empty).len(), 0);
    assert_eq!(evaluate(FunctionKind::Least, &empty).len(), 0);
}

#[test]
fn function_names() {
    assert_eq!(FunctionKind::Coalesce.name(), "coalesce");
    assert_eq!(FunctionKind::NamedStruct.name(), "named_struct");
    assert_eq!(FunctionKind::UnionTag.name(), "union_tag");
    assert_eq!(FunctionKind::Nvl2.name(), "nvl2");
}
