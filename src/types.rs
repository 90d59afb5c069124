//! Type descriptors, call arguments as the planner sees them, and the
//! plan-time resolution of each function's result type.
use vstd::prelude::*;

use crate::structural::{find_name, lemma_position_of, position_of, positional, positional_name};

verus! {

/// Why a call cannot be planned.
#[derive(PartialEq, Eq, Structural, Debug, Clone, Copy)]
pub enum ResolveError {
    /// The arguments cannot be unified to one type, or a structural argument
    /// has the wrong shape.
    TypeMismatch,
    /// Wrong arity, a name argument that is not a string literal, or a
    /// repeated field name.
    InvalidArgument,
    /// The named or indexed field, or union variant, is absent.
    FieldNotFound,
}

/// The shape of a value. Floating-point kinds stand here as types only.
pub enum TypeDesc {
    Null,
    Boolean,
    Int8,
    Int16,
    Int32,
    Int64,
    UInt8,
    UInt16,
    UInt32,
    UInt64,
    Float32,
    Float64,
    /// Precision and scale, in decimal digits.
    Decimal(u8, u8),
    Utf8,
    Date32,
    Timestamp,
    Struct(Vec<Field>),
    Union(Vec<Field>),
}

/// A named member of a struct type, or a variant of a union type.
pub struct Field {
    pub name: String,
    pub data_type: TypeDesc,
}

/// The largest decimal precision.
pub const MAX_DECIMAL_PRECISION: u8 = 38;

/// Not a struct or union type.
pub open spec fn is_primitive(t: TypeDesc) -> bool {
    !(t is Struct) && !(t is Union)
}

/// Width in bits of an integer type; 0 for any other type.
pub open spec fn int_bits(t: TypeDesc) -> nat {
    match t {
        TypeDesc::Int8 | TypeDesc::UInt8 => 8,
        TypeDesc::Int16 | TypeDesc::UInt16 => 16,
        TypeDesc::Int32 | TypeDesc::UInt32 => 32,
        TypeDesc::Int64 | TypeDesc::UInt64 => 64,
        _ => 0,
    }
}

/// A signed integer type.
pub open spec fn is_signed(t: TypeDesc) -> bool {
    t is Int8 || t is Int16 || t is Int32 || t is Int64
}

/// The integer type of a signedness and a width in {8, 16, 32, 64}.
pub open spec fn int_type(signed: bool, bits: nat) -> TypeDesc {
    if signed {
        if bits <= 8 { TypeDesc::Int8 } else if bits <= 16 { TypeDesc::Int16 }
        else if bits <= 32 { TypeDesc::Int32 } else { TypeDesc::Int64 }
    } else {
        if bits <= 8 { TypeDesc::UInt8 } else if bits <= 16 { TypeDesc::UInt16 }
        else if bits <= 32 { TypeDesc::UInt32 } else { TypeDesc::UInt64 }
    }
}

/// Decimal digits needed for every value of an integer type.
pub open spec fn int_digits(t: TypeDesc) -> nat {
    match t {
        TypeDesc::Int8 | TypeDesc::UInt8 => 3,
        TypeDesc::Int16 | TypeDesc::UInt16 => 5,
        TypeDesc::Int32 | TypeDesc::UInt32 => 10,
        TypeDesc::Int64 => 19,
        _ => 20,
    }
}

/// The larger of two naturals.
pub open spec fn max_nat(a: nat, b: nat) -> nat {
    if a >= b { a } else { b }
}

/// The decimal that holds both `Decimal(p1, s1)` and `Decimal(p2, s2)`: the
/// larger scale and the larger count of integer digits, precision capped at
/// the largest.
pub open spec fn widen_decimal(p1: nat, s1: nat, p2: nat, s2: nat) -> TypeDesc {
    let s = max_nat(s1, s2);
    let d1: nat = if p1 >= s1 { (p1 - s1) as nat } else { 0 };
    let d2: nat = if p2 >= s2 { (p2 - s2) as nat } else { 0 };
    let d = max_nat(d1, d2);
    let p = if d + s > MAX_DECIMAL_PRECISION { MAX_DECIMAL_PRECISION as nat } else { d + s };
    TypeDesc::Decimal(p as u8, s as u8)
}

/// The coercion lattice: the type both `a` and `b` widen to, if any.
/// - `Null` widens to any primitive type;
/// - integers of one signedness widen to the wider; a signed and an unsigned
///   one to a signed type twice the unsigned width, or `Decimal(20, 0)` past
///   64 bits;
/// - an integer or a decimal with a float, or two floats of different
///   widths, widen to `Float64`;
/// - decimals (an integer counting as `Decimal(digits, 0)`) widen to the
///   decimal that holds both;
/// - `Date32` with `Timestamp` widens to `Timestamp`;
/// - otherwise only equal primitive types unify; struct and union types never do.
pub open spec fn common_type(a: TypeDesc, b: TypeDesc) -> Option<TypeDesc> {
    if !is_primitive(a) || !is_primitive(b) {
        None
    } else if a is Null {
        Some(b)
    } else if b is Null {
        Some(a)
    } else if int_bits(a) > 0 && int_bits(b) > 0 {
        if is_signed(a) == is_signed(b) {
            Some(int_type(is_signed(a), max_nat(int_bits(a), int_bits(b))))
        } else {
            let u = if is_signed(a) { int_bits(b) } else { int_bits(a) };
            let sb = if is_signed(a) { int_bits(a) } else { int_bits(b) };
            if u >= 64 {
                Some(TypeDesc::Decimal(20, 0))
            } else {
                Some(int_type(true, max_nat(sb, 2 * u)))
            }
        }
    } else if (a is Float32 || a is Float64) && (b is Float32 || b is Float64) {
        if a is Float32 && b is Float32 { Some(TypeDesc::Float32) } else { Some(TypeDesc::Float64) }
    } else if (a is Float32 || a is Float64) && (int_bits(b) > 0 || b is Decimal) {
        Some(TypeDesc::Float64)
    } else if (b is Float32 || b is Float64) && (int_bits(a) > 0 || a is Decimal) {
        Some(TypeDesc::Float64)
    } else if (a is Decimal || int_bits(a) > 0) && (b is Decimal || int_bits(b) > 0) {
        let (p1, s1) = match a { TypeDesc::Decimal(p, s) => (p as nat, s as nat), _ => (int_digits(a), 0nat) };
        let (p2, s2) = match b { TypeDesc::Decimal(p, s) => (p as nat, s as nat), _ => (int_digits(b), 0nat) };
        Some(widen_decimal(p1, s1, p2, s2))
    } else if (a is Date32 && b is Timestamp) || (a is Timestamp && b is Date32) {
        Some(TypeDesc::Timestamp)
    } else if a == b {
        Some(a)
    } else {
        None
    }
}

impl TypeDesc {
    /// A copy of a primitive type.
    fn copy_primitive(&self) -> (r: TypeDesc)
        requires
            is_primitive(*self),
        ensures
            r == *self,
    {
        match self {
            TypeDesc::Null => TypeDesc::Null,
            TypeDesc::Boolean => TypeDesc::Boolean,
            TypeDesc::Int8 => TypeDesc::Int8,
            TypeDesc::Int16 => TypeDesc::Int16,
            TypeDesc::Int32 => TypeDesc::Int32,
            TypeDesc::Int64 => TypeDesc::Int64,
            TypeDesc::UInt8 => TypeDesc::UInt8,
            TypeDesc::UInt16 => TypeDesc::UInt16,
            TypeDesc::UInt32 => TypeDesc::UInt32,
            TypeDesc::UInt64 => TypeDesc::UInt64,
            TypeDesc::Float32 => TypeDesc::Float32,
            TypeDesc::Float64 => TypeDesc::Float64,
            TypeDesc::Decimal(p, s) => TypeDesc::Decimal(*p, *s),
            TypeDesc::Utf8 => TypeDesc::Utf8,
            TypeDesc::Date32 => TypeDesc::Date32,
            TypeDesc::Timestamp => TypeDesc::Timestamp,
            _ => TypeDesc::Null,
        }
    }

    /// Not a struct or union type.
    pub fn primitive(&self) -> (r: bool)
        ensures
            r == is_primitive(*self),
    {
        !matches!(self, TypeDesc::Struct(_) | TypeDesc::Union(_))
    }

    fn bits(&self) -> (r: u32)
        ensures
            r as nat == int_bits(*self),
    {
        match self {
            TypeDesc::Int8 | TypeDesc::UInt8 => 8,
            TypeDesc::Int16 | TypeDesc::UInt16 => 16,
            TypeDesc::Int32 | TypeDesc::UInt32 => 32,
            TypeDesc::Int64 | TypeDesc::UInt64 => 64,
            _ => 0,
        }
    }

    fn signed(&self) -> (r: bool)
        ensures
            r == is_signed(*self),
    {
        matches!(self, TypeDesc::Int8 | TypeDesc::Int16 | TypeDesc::Int32 | TypeDesc::Int64)
    }

    fn is_float(&self) -> (r: bool)
        ensures
            r == (*self is Float32 || *self is Float64),
    {
        matches!(self, TypeDesc::Float32 | TypeDesc::Float64)
    }

    /// Precision and scale as a decimal: an integer counts as
    /// `Decimal(digits, 0)`.
    fn decimal_parts(&self) -> (r: (u8, u8))
        requires
            *self is Decimal || int_bits(*self) > 0,
        ensures
            (r.0 as nat, r.1 as nat) == (match *self {
                TypeDesc::Decimal(p, s) => (p as nat, s as nat),
                _ => (int_digits(*self), 0nat),
            }),
    {
        match self {
            TypeDesc::Decimal(p, s) => (*p, *s),
            TypeDesc::Int8 | TypeDesc::UInt8 => (3, 0),
            TypeDesc::Int16 | TypeDesc::UInt16 => (5, 0),
            TypeDesc::Int32 | TypeDesc::UInt32 => (10, 0),
            TypeDesc::Int64 => (19, 0),
            _ => (20, 0),
        }
    }
}

fn make_int_type(signed: bool, bits: u32) -> (r: TypeDesc)
    ensures
        r == int_type(signed, bits as nat),
{
    if signed {
        if bits <= 8 { TypeDesc::Int8 } else if bits <= 16 { TypeDesc::Int16 }
        else if bits <= 32 { TypeDesc::Int32 } else { TypeDesc::Int64 }
    } else {
        if bits <= 8 { TypeDesc::UInt8 } else if bits <= 16 { TypeDesc::UInt16 }
        else if bits <= 32 { TypeDesc::UInt32 } else { TypeDesc::UInt64 }
    }
}

fn make_widened_decimal(p1: u8, s1: u8, p2: u8, s2: u8) -> (r: TypeDesc)
    ensures
        r == widen_decimal(p1 as nat, s1 as nat, p2 as nat, s2 as nat),
{
    let s: u8 = if s1 >= s2 { s1 } else { s2 };
    let d1: u8 = if p1 >= s1 { p1 - s1 } else { 0 };
    let d2: u8 = if p2 >= s2 { p2 - s2 } else { 0 };
    let d: u8 = if d1 >= d2 { d1 } else { d2 };
    let total: u32 = d as u32 + s as u32;
    let p: u8 = if total > MAX_DECIMAL_PRECISION as u32 { MAX_DECIMAL_PRECISION } else { total as u8 };
    TypeDesc::Decimal(p, s)
}

/// The type both arguments widen to under the coercion lattice, if any.
pub fn common(a: &TypeDesc, b: &TypeDesc) -> (r: Option<TypeDesc>)
    ensures
        r == common_type(*a, *b),
{
    if !a.primitive() || !b.primitive() {
        None
    } else if matches!(a, TypeDesc::Null) {
        Some(b.copy_primitive())
    } else if matches!(b, TypeDesc::Null) {
        Some(a.copy_primitive())
    } else if a.bits() > 0 && b.bits() > 0 {
        if a.signed() == b.signed() {
            let w = if a.bits() >= b.bits() { a.bits() } else { b.bits() };
            Some(make_int_type(a.signed(), w))
        } else {
            let u = if a.signed() { b.bits() } else { a.bits() };
            let sb = if a.signed() { a.bits() } else { b.bits() };
            if u >= 64 {
                Some(TypeDesc::Decimal(20, 0))
            } else {
                let w = if sb >= 2 * u { sb } else { 2 * u };
                Some(make_int_type(true, w))
            }
        }
    } else if a.is_float() && b.is_float() {
        if matches!(a, TypeDesc::Float32) && matches!(b, TypeDesc::Float32) {
            Some(TypeDesc::Float32)
        } else {
            Some(TypeDesc::Float64)
        }
    } else if a.is_float() && (b.bits() > 0 || matches!(b, TypeDesc::Decimal(_, _))) {
        Some(TypeDesc::Float64)
    } else if b.is_float() && (a.bits() > 0 || matches!(a, TypeDesc::Decimal(_, _))) {
        Some(TypeDesc::Float64)
    } else if (matches!(a, TypeDesc::Decimal(_, _)) || a.bits() > 0) && (matches!(b, TypeDesc::Decimal(_, _)) || b.bits() > 0) {
        let (p1, s1) = a.decimal_parts();
        let (p2, s2) = b.decimal_parts();
        Some(make_widened_decimal(p1, s1, p2, s2))
    } else if (matches!(a, TypeDesc::Date32) && matches!(b, TypeDesc::Timestamp)) || (matches!(a, TypeDesc::Timestamp) && matches!(b, TypeDesc::Date32)) {
        Some(TypeDesc::Timestamp)
    } else {
        match (a, b) {
            (TypeDesc::Boolean, TypeDesc::Boolean) => Some(TypeDesc::Boolean),
            (TypeDesc::Utf8, TypeDesc::Utf8) => Some(TypeDesc::Utf8),
            (TypeDesc::Date32, TypeDesc::Date32) => Some(TypeDesc::Date32),
            (TypeDesc::Timestamp, TypeDesc::Timestamp) => Some(TypeDesc::Timestamp),
            _ => None,
        }
    }
}

/// An argument of a call as the planner sees it: an expression of a known
/// type, or a string or integer literal.
pub enum Arg {
    Expr(TypeDesc),
    Str(String),
    Int(i64),
}

/// The type of an argument; a string literal is `Utf8`, an integer literal
/// `Int64`.
pub open spec fn arg_type(a: Arg) -> TypeDesc {
    match a {
        Arg::Expr(t) => t,
        Arg::Str(_) => TypeDesc::Utf8,
        Arg::Int(_) => TypeDesc::Int64,
    }
}

/// The types of the arguments.
pub open spec fn arg_types(args: Seq<Arg>) -> Seq<TypeDesc> {
    args.map_values(|a: Arg| arg_type(a))
}

/// The one type all of `ts` widen to, folding the lattice left to right;
/// none for no types or where a step has no common type.
pub open spec fn unify(ts: Seq<TypeDesc>) -> Option<TypeDesc>
    decreases ts.len(),
{
    if ts.len() == 0 {
        None
    } else if ts.len() == 1 {
        if is_primitive(ts[0]) {
            Some(ts[0])
        } else {
            None
        }
    } else {
        match unify(ts.drop_last()) {
            Some(u) => common_type(u, ts.last()),
            None => None,
        }
    }
}

/// `unify` as a resolution result: a missing common type is a mismatch.
pub open spec fn unified(ts: Seq<TypeDesc>) -> Result<TypeDesc, ResolveError> {
    match unify(ts) {
        Some(t) => Ok(t),
        None => Err(ResolveError::TypeMismatch),
    }
}

fn arg_primitive(a: &Arg) -> (r: Option<TypeDesc>)
    ensures
        r == (if is_primitive(arg_type(*a)) { Some(arg_type(*a)) } else { None }),
{
    match a {
        Arg::Expr(t) => if t.primitive() {
            Some(t.copy_primitive())
        } else {
            None
        },
        Arg::Str(_) => Some(TypeDesc::Utf8),
        Arg::Int(_) => Some(TypeDesc::Int64),
    }
}

fn common_with(acc: &TypeDesc, a: &Arg) -> (r: Option<TypeDesc>)
    ensures
        r == common_type(*acc, arg_type(*a)),
{
    match a {
        Arg::Expr(t) => common(acc, t),
        Arg::Str(_) => common(acc, &TypeDesc::Utf8),
        Arg::Int(_) => common(acc, &TypeDesc::Int64),
    }
}

/// The common type of the arguments from position `from` on.
pub fn unify_args(args: &Vec<Arg>, from: usize) -> (r: Result<TypeDesc, ResolveError>)
    requires
        from < args.len(),
    ensures
        r == unified(arg_types(args@).subrange(from as int, args@.len() as int)),
{
    let ghost ts = arg_types(args@);
    let mut acc = match arg_primitive(&args[from]) {
        Some(t) => t,
        None => {
            assert(ts.subrange(from as int, args@.len() as int).subrange(0, 1) =~= seq![ts[from as int]]);
            proof {
                lemma_unify_prefix_none(ts.subrange(from as int, args@.len() as int), 1);
            }
            return Err(ResolveError::TypeMismatch);
        },
    };
    assert(unify(ts.subrange(from as int, from + 1)) == Some(acc));
    let mut j: usize = from + 1;
    while j < args.len()
        invariant
            ts == arg_types(args@),
            from < j <= args.len(),
            unify(ts.subrange(from as int, j as int)) == Some(acc),
        decreases args.len() - j,
    {
        assert(ts.subrange(from as int, j + 1).drop_last() =~= ts.subrange(from as int, j as int));
        assert(ts[j as int] == arg_type(args@[j as int]));
        match common_with(&acc, &args[j]) {
            Some(t) => {
                acc = t;
            },
            None => {
                proof {
                    assert(ts.subrange(from as int, args@.len() as int).subrange(0, j - from + 1) =~= ts.subrange(from as int, j + 1));
                    lemma_unify_prefix_none(ts.subrange(from as int, args@.len() as int), j - from + 1);
                }
                return Err(ResolveError::TypeMismatch);
            },
        }
        j = j + 1;
    }
    Ok(acc)
}

/// Once a prefix has no common type, no longer sequence has one.
proof fn lemma_unify_prefix_none(ts: Seq<TypeDesc>, k: int)
    requires
        1 <= k <= ts.len(),
        unify(ts.subrange(0, k)) is None,
    ensures
        unify(ts) is None,
    decreases ts.len() - k,
{
    if k < ts.len() {
        assert(ts.subrange(0, k + 1).drop_last() =~= ts.subrange(0, k));
        lemma_unify_prefix_none(ts, k + 1);
    } else {
        assert(ts.subrange(0, k) =~= ts);
    }
}

/// `t` is a struct type with exactly these member names and types, in order.
pub open spec fn is_struct_of(t: TypeDesc, names: Seq<Seq<char>>, types: Seq<TypeDesc>) -> bool {
    &&& t matches TypeDesc::Struct(fs)
    &&& fs@.len() == names.len()
    &&& fs@.len() == types.len()
    &&& forall|i: int| 0 <= i < fs@.len() ==> (#[trigger] fs@[i]).name@ == names[i] && fs@[i].data_type == types[i]
}

/// The member names of a field list.
pub open spec fn field_names(fs: Seq<Field>) -> Seq<Seq<char>> {
    fs.map_values(|f: Field| f.name@)
}

/// No name occurs twice.
pub open spec fn distinct(names: Seq<Seq<char>>) -> bool {
    forall|a: int, b: int| 0 <= a < b < names.len() ==> names[a] != names[b]
}

fn into_type(a: Arg) -> (r: TypeDesc)
    ensures
        r == arg_type(a),
{
    match a {
        Arg::Expr(t) => t,
        Arg::Str(_) => TypeDesc::Utf8,
        Arg::Int(_) => TypeDesc::Int64,
    }
}

/// The result type of `struct`: members named `c0`, `c1`, ... with exactly
/// the argument types, uncoerced. At least one argument.
pub fn resolve_struct(args: Vec<Arg>) -> (r: Result<TypeDesc, ResolveError>)
    ensures
        args@.len() == 0 <==> r == Err::<TypeDesc, ResolveError>(ResolveError::InvalidArgument),
        r is Ok || r == Err::<TypeDesc, ResolveError>(ResolveError::InvalidArgument),
        r matches Ok(t) ==> is_struct_of(
            t,
            Seq::new(args@.len(), |i: int| positional_name(i as nat)),
            arg_types(args@),
        ),
{
    let n = args.len();
    if n == 0 {
        return Err(ResolveError::InvalidArgument);
    }
    let ghost orig = args@;
    let mut rest = args;
    let mut fields: Vec<Field> = Vec::new();
    let mut i: usize = 0;
    while i < n
        invariant
            n == orig.len(),
            i <= n,
            rest@ == orig.subrange(i as int, n as int),
            fields@.len() == i,
            forall|k: int| 0 <= k < i ==> (#[trigger] fields@[k]).name@ == positional_name(k as nat)
                && fields@[k].data_type == arg_type(orig[k]),
        decreases n - i,
    {
        let a = rest.remove(0);
        fields.push(Field { name: positional(i), data_type: into_type(a) });
        i = i + 1;
    }
    Ok(TypeDesc::Struct(fields))
}

/// The name at name position `k` of a `named_struct` call, when it is a
/// string literal.
pub open spec fn pair_name(args: Seq<Arg>, k: int) -> Seq<char> {
    match args[2 * k] {
        Arg::Str(s) => s@,
        _ => Seq::empty(),
    }
}

/// A `named_struct` call is well formed: a positive even count of
/// arguments, a string literal at each name position, no name repeated.
pub open spec fn named_struct_ok(args: Seq<Arg>) -> bool {
    &&& args.len() > 0
    &&& args.len() % 2 == 0
    &&& forall|k: int| 0 <= k < args.len() / 2 ==> #[trigger] args[2 * k] is Str
    &&& distinct(Seq::new(args.len() / 2, |k: int| pair_name(args, k)))
}

/// The result type of `named_struct(name1, a1, name2, a2, ...)`: members
/// with the literal names and the value types, in order of appearance.
/// `InvalidArgument` unless the call is well formed.
pub fn resolve_named_struct(args: Vec<Arg>) -> (r: Result<TypeDesc, ResolveError>)
    ensures
        !named_struct_ok(args@) <==> r == Err::<TypeDesc, ResolveError>(ResolveError::InvalidArgument),
        r is Ok || r == Err::<TypeDesc, ResolveError>(ResolveError::InvalidArgument),
        r matches Ok(t) ==> is_struct_of(
            t,
            Seq::new(args@.len() / 2, |k: int| pair_name(args@, k)),
            Seq::new(args@.len() / 2, |k: int| arg_type(args@[2 * k + 1])),
        ),
{
    let n = args.len();
    if n == 0 || n % 2 == 1 {
        return Err(ResolveError::InvalidArgument);
    }
    let ghost orig = args@;
    let ghost names = Seq::new(orig.len() / 2, |k: int| pair_name(orig, k));
    let mut rest = args;
    let mut fields: Vec<Field> = Vec::new();
    let mut k: usize = 0;
    while k < n / 2
        invariant
            n == orig.len(),
            orig == args@,
            n % 2 == 0,
            names == Seq::new(orig.len() / 2, |k: int| pair_name(orig, k)),
            k <= n / 2,
            rest@ == orig.subrange(2 * k as int, n as int),
            fields@.len() == k,
            forall|j: int| 0 <= j < k ==> #[trigger] orig[2 * j] is Str,
            forall|j: int| 0 <= j < k ==> (#[trigger] fields@[j]).name@ == names[j]
                && fields@[j].data_type == arg_type(orig[2 * j + 1]),
            forall|a: int, b: int| 0 <= a < b < k ==> names[a] != names[b],
        decreases n / 2 - k,
    {
        let name_arg = rest.remove(0);
        let value_arg = rest.remove(0);
        assert(name_arg == orig[2 * k as int]);
        assert(value_arg == orig[2 * k + 1]);
        let name = match name_arg {
            Arg::Str(s) => s,
            _ => {
                assert(!(orig[2 * (k as int)] is Str));
                return Err(ResolveError::InvalidArgument);
            },
        };
        assert(names[k as int] == name@);
        let mut j: usize = 0;
        while j < k
            invariant
                j <= k,
                k < n / 2,
                names.len() == n / 2,
                n == orig.len(),
                orig == args@,
                names == Seq::new(orig.len() / 2, |k: int| pair_name(orig, k)),
                fields@.len() == k,
                names[k as int] == name@,
                forall|i: int| 0 <= i < k ==> (#[trigger] fields@[i]).name@ == names[i],
                forall|i: int| 0 <= i < j ==> names[i] != names[k as int],
            decreases k - j,
        {
            if fields[j].name.eq(&name) {
                assert(!distinct(names)) by {
                    assert(names[j as int] == names[k as int]);
                }
                return Err(ResolveError::InvalidArgument);
            }
            j = j + 1;
        }
        fields.push(Field { name, data_type: into_type(value_arg) });
        k = k + 1;
    }
    let r = TypeDesc::Struct(fields);
    assert(is_struct_of(r, names, Seq::new(orig.len() / 2, |k: int| arg_type(orig[2 * k + 1]))));
    Ok(r)
}

/// The result type of `get_field(base, key)`: the type of the member that a
/// string literal names or an integer literal indexes.
pub open spec fn get_field_resolution(args: Seq<Arg>) -> Result<TypeDesc, ResolveError> {
    if args.len() != 2 {
        Err(ResolveError::InvalidArgument)
    } else {
        match arg_type(args[0]) {
            TypeDesc::Struct(fs) => match args[1] {
                Arg::Str(n) => {
                    let p = position_of(field_names(fs@), n@);
                    if p < 0 {
                        Err(ResolveError::FieldNotFound)
                    } else {
                        Ok(fs@[p].data_type)
                    }
                },
                Arg::Int(i) => if 0 <= i < fs@.len() {
                    Ok(fs@[i as int].data_type)
                } else {
                    Err(ResolveError::FieldNotFound)
                },
                Arg::Expr(_) => Err(ResolveError::InvalidArgument),
            },
            _ => Err(ResolveError::TypeMismatch),
        }
    }
}

/// The result type of `union_extract(base, name)`: the type of the variant
/// that the string literal names.
pub open spec fn union_extract_resolution(args: Seq<Arg>) -> Result<TypeDesc, ResolveError> {
    if args.len() != 2 {
        Err(ResolveError::InvalidArgument)
    } else {
        match arg_type(args[0]) {
            TypeDesc::Union(fs) => match args[1] {
                Arg::Str(n) => {
                    let p = position_of(field_names(fs@), n@);
                    if p < 0 {
                        Err(ResolveError::FieldNotFound)
                    } else {
                        Ok(fs@[p].data_type)
                    }
                },
                _ => Err(ResolveError::InvalidArgument),
            },
            _ => Err(ResolveError::TypeMismatch),
        }
    }
}

/// The result type of `union_tag(base)`: the variant name, a string.
pub open spec fn union_tag_resolution(args: Seq<Arg>) -> Result<TypeDesc, ResolveError> {
    if args.len() != 1 {
        Err(ResolveError::InvalidArgument)
    } else if arg_type(args[0]) is Union {
        Ok(TypeDesc::Utf8)
    } else {
        Err(ResolveError::TypeMismatch)
    }
}

/// The position of the first member named `name`.
fn find_field(fields: &Vec<Field>, name: &String) -> (r: Option<usize>)
    ensures
        r is None <==> position_of(field_names(fields@), name@) == -1,
        r matches Some(k) ==> k as int == position_of(field_names(fields@), name@),
{
    let mut names: Vec<String> = Vec::new();
    let mut j: usize = 0;
    while j < fields.len()
        invariant
            j <= fields@.len(),
            names@.len() == j,
            forall|k: int| 0 <= k < j ==> (#[trigger] names@[k])@ == fields@[k].name@,
        decreases fields@.len() - j,
    {
        names.push(fields[j].name.clone());
        j = j + 1;
    }
    assert(names@.map_values(|x: String| x@) =~= field_names(fields@));
    find_name(&names, name)
}

/// The member or variant type that `key` selects among `fields`.
fn select_field(fields: Vec<Field>, key: &Arg, by_index: bool) -> (r: Result<TypeDesc, ResolveError>)
    ensures
        r == (match *key {
            Arg::Str(n) => {
                let p = position_of(field_names(fields@), n@);
                if p < 0 {
                    Err(ResolveError::FieldNotFound)
                } else {
                    Ok(fields@[p].data_type)
                }
            },
            Arg::Int(i) => if !by_index {
                Err(ResolveError::InvalidArgument)
            } else if 0 <= i < fields@.len() {
                Ok(fields@[i as int].data_type)
            } else {
                Err(ResolveError::FieldNotFound)
            },
            Arg::Expr(_) => Err(ResolveError::InvalidArgument),
        }),
{
    let mut fields = fields;
    let pos = match key {
        Arg::Str(n) => {
            proof {
                lemma_position_of(field_names(fields@), n@);
            }
            find_field(&fields, n)
        },
        Arg::Int(i) => {
            if !by_index {
                return Err(ResolveError::InvalidArgument);
            }
            if *i >= 0 && (*i as u64) < (fields.len() as u64) {
                Some(*i as usize)
            } else {
                None
            }
        },
        Arg::Expr(_) => {
            return Err(ResolveError::InvalidArgument);
        },
    };
    match pos {
        Some(p) => Ok(fields.remove(p).data_type),
        None => Err(ResolveError::FieldNotFound),
    }
}

/// The result type of `get_field(base, key)`. `InvalidArgument` unless there
/// are two arguments and the key is a literal, `TypeMismatch` unless the
/// base is a struct, `FieldNotFound` when it has no such member.
pub fn resolve_get_field(args: Vec<Arg>) -> (r: Result<TypeDesc, ResolveError>)
    ensures
        r == get_field_resolution(args@),
{
    if args.len() != 2 {
        return Err(ResolveError::InvalidArgument);
    }
    let mut args = args;
    let key = args.pop().unwrap();
    let base = args.pop().unwrap();
    match base {
        Arg::Expr(TypeDesc::Struct(fields)) => select_field(fields, &key, true),
        _ => Err(ResolveError::TypeMismatch),
    }
}

/// The result type of `union_extract(base, name)`. `InvalidArgument` unless
/// there are two arguments and the name is a string literal, `TypeMismatch`
/// unless the base is a union, `FieldNotFound` when it has no such variant.
pub fn resolve_union_extract(args: Vec<Arg>) -> (r: Result<TypeDesc, ResolveError>)
    ensures
        r == union_extract_resolution(args@),
{
    if args.len() != 2 {
        return Err(ResolveError::InvalidArgument);
    }
    let mut args = args;
    let key = args.pop().unwrap();
    let base = args.pop().unwrap();
    match base {
        Arg::Expr(TypeDesc::Union(fields)) => select_field(fields, &key, false),
        _ => Err(ResolveError::TypeMismatch),
    }
}

/// The result type of `union_tag(base)`: `Utf8` for a union argument.
pub fn resolve_union_tag(args: &Vec<Arg>) -> (r: Result<TypeDesc, ResolveError>)
    ensures
        r == union_tag_resolution(args@),
{
    if args.len() != 1 {
        return Err(ResolveError::InvalidArgument);
    }
    match &args[0] {
        Arg::Expr(TypeDesc::Union(_)) => Ok(TypeDesc::Utf8),
        _ => Err(ResolveError::TypeMismatch),
    }
}

/// The functions of this library.
#[derive(PartialEq, Eq, Structural, Debug, Clone, Copy)]
pub enum FunctionKind {
    Coalesce,
    NullIf,
    Nvl,
    Nvl2,
    Greatest,
    Least,
    Struct,
    NamedStruct,
    GetField,
    UnionExtract,
    UnionTag,
}

/// What `resolve` returns for a call of `kind` on `args`.
pub open spec fn resolves(kind: FunctionKind, args: Seq<Arg>, r: Result<TypeDesc, ResolveError>) -> bool {
    match kind {
        FunctionKind::Coalesce | FunctionKind::Greatest | FunctionKind::Least => r == if args.len() == 0 {
            Err(ResolveError::InvalidArgument)
        } else {
            unified(arg_types(args))
        },
        FunctionKind::NullIf | FunctionKind::Nvl => r == if args.len() != 2 {
            Err(ResolveError::InvalidArgument)
        } else {
            unified(arg_types(args))
        },
        FunctionKind::Nvl2 => r == if args.len() != 3 {
            Err(ResolveError::InvalidArgument)
        } else {
            unified(arg_types(args).subrange(1, 3))
        },
        FunctionKind::Struct => if args.len() == 0 {
            r == Err::<TypeDesc, ResolveError>(ResolveError::InvalidArgument)
        } else {
            r matches Ok(t) && is_struct_of(t, Seq::new(args.len(), |i: int| positional_name(i as nat)), arg_types(args))
        },
        FunctionKind::NamedStruct => if !named_struct_ok(args) {
            r == Err::<TypeDesc, ResolveError>(ResolveError::InvalidArgument)
        } else {
            r matches Ok(t) && is_struct_of(
                t,
                Seq::new(args.len() / 2, |k: int| pair_name(args, k)),
                Seq::new(args.len() / 2, |k: int| arg_type(args[2 * k + 1])),
            )
        },
        FunctionKind::GetField => r == get_field_resolution(args),
        FunctionKind::UnionExtract => r == union_extract_resolution(args),
        FunctionKind::UnionTag => r == union_tag_resolution(args),
    }
}

/// Plan-time resolution of a call: checks the arity and the argument shapes
/// and fixes the single result type, once per call site.
pub fn resolve(kind: FunctionKind, args: Vec<Arg>) -> (r: Result<TypeDesc, ResolveError>)
    ensures
        resolves(kind, args@, r),
{
    match kind {
        FunctionKind::Coalesce | FunctionKind::Greatest | FunctionKind::Least => {
            if args.len() == 0 {
                Err(ResolveError::InvalidArgument)
            } else {
                let r = unify_args(&args, 0);
                assert(arg_types(args@).subrange(0, args@.len() as int) =~= arg_types(args@));
                r
            }
        },
        FunctionKind::NullIf | FunctionKind::Nvl => {
            if args.len() != 2 {
                Err(ResolveError::InvalidArgument)
            } else {
                let r = unify_args(&args, 0);
                assert(arg_types(args@).subrange(0, 2) =~= arg_types(args@));
                r
            }
        },
        FunctionKind::Nvl2 => {
            if args.len() != 3 {
                Err(ResolveError::InvalidArgument)
            } else {
                unify_args(&args, 1)
            }
        },
        FunctionKind::Struct => resolve_struct(args),
        FunctionKind::NamedStruct => resolve_named_struct(args),
        FunctionKind::GetField => resolve_get_field(args),
        FunctionKind::UnionExtract => resolve_union_extract(args),
        FunctionKind::UnionTag => resolve_union_tag(&args),
    }
}

/// Every function of this library, once each.
pub open spec fn all_kinds() -> Seq<FunctionKind> {
    seq![
        FunctionKind::NullIf,
        FunctionKind::Nvl,
        FunctionKind::Nvl2,
        FunctionKind::NamedStruct,
        FunctionKind::GetField,
        FunctionKind::Coalesce,
        FunctionKind::Greatest,
        FunctionKind::Least,
        FunctionKind::UnionExtract,
        FunctionKind::UnionTag,
        FunctionKind::Struct,
    ]
}

/// All functions defined in this library.
pub fn functions() -> (r: Vec<FunctionKind>)
    ensures
        r@ == all_kinds(),
{
    let r = vec![
        FunctionKind::NullIf,
        FunctionKind::Nvl,
        FunctionKind::Nvl2,
        FunctionKind::NamedStruct,
        FunctionKind::GetField,
        FunctionKind::Coalesce,
        FunctionKind::Greatest,
        FunctionKind::Least,
        FunctionKind::UnionExtract,
        FunctionKind::UnionTag,
        FunctionKind::Struct,
    ];
    assert(r@ =~= all_kinds());
    r
}

/// The name a call of `kind` is written with.
pub open spec fn kind_name(kind: FunctionKind) -> Seq<char> {
    match kind {
        FunctionKind::Coalesce => "coalesce"@,
        FunctionKind::NullIf => "nullif"@,
        FunctionKind::Nvl => "nvl"@,
        FunctionKind::Nvl2 => "nvl2"@,
        FunctionKind::Greatest => "greatest"@,
        FunctionKind::Least => "least"@,
        FunctionKind::Struct => "struct"@,
        FunctionKind::NamedStruct => "named_struct"@,
        FunctionKind::GetField => "get_field"@,
        FunctionKind::UnionExtract => "union_extract"@,
        FunctionKind::UnionTag => "union_tag"@,
    }
}

impl FunctionKind {
    /// The name a call of this function is written with.
    pub fn name(&self) -> (r: &'static str)
        ensures
            r@ == kind_name(*self),
    {
        proof {
            reveal_strlit("coalesce");
            reveal_strlit("nullif");
            reveal_strlit("nvl");
            reveal_strlit("nvl2");
            reveal_strlit("greatest");
            reveal_strlit("least");
            reveal_strlit("struct");
            reveal_strlit("named_struct");
            reveal_strlit("get_field");
            reveal_strlit("union_extract");
            reveal_strlit("union_tag");
        }
        match self {
            FunctionKind::Coalesce => "coalesce",
            FunctionKind::NullIf => "nullif",
            FunctionKind::Nvl => "nvl",
            FunctionKind::Nvl2 => "nvl2",
            FunctionKind::Greatest => "greatest",
            FunctionKind::Least => "least",
            FunctionKind::Struct => "struct",
            FunctionKind::NamedStruct => "named_struct",
            FunctionKind::GetField => "get_field",
            FunctionKind::UnionExtract => "union_extract",
            FunctionKind::UnionTag => "union_tag",
        }
    }
}

} // verus!
