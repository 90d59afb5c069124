//! Structural construction and access: `struct` and `named_struct` build a
//! struct column from sibling columns; `get_field` projects one member;
//! `union_tag` and `union_extract` inspect a tagged-union column.
use vstd::prelude::*;

use crate::types::{distinct, ResolveError};
use crate::value::{copy_entry, opt_view, same_len, views, Column, Datum, Value};

verus! {

/// The decimal digit character for `d < 10`.
pub open spec fn digit_char(d: nat) -> char {
    if d == 0 { '0' } else if d == 1 { '1' } else if d == 2 { '2' } else if d == 3 { '3' }
    else if d == 4 { '4' } else if d == 5 { '5' } else if d == 6 { '6' } else if d == 7 { '7' }
    else if d == 8 { '8' } else { '9' }
}

/// The decimal spelling of `n`, without leading zeros.
pub open spec fn decimal(n: nat) -> Seq<char>
    decreases n,
{
    if n < 10 {
        seq![digit_char(n)]
    } else {
        decimal(n / 10).push(digit_char(n % 10))
    }
}

/// The name of the `i`-th field of a struct built by `struct`: `c0`, `c1`, ...
pub open spec fn positional_name(i: nat) -> Seq<char> {
    seq!['c'] + decimal(i)
}

fn digit_str(d: usize) -> (r: &'static str)
    requires
        d < 10,
    ensures
        r@ == seq![digit_char(d as nat)],
{
    proof {
        reveal_strlit("0");
        reveal_strlit("1");
        reveal_strlit("2");
        reveal_strlit("3");
        reveal_strlit("4");
        reveal_strlit("5");
        reveal_strlit("6");
        reveal_strlit("7");
        reveal_strlit("8");
        reveal_strlit("9");
    }
    if d == 0 { "0" } else if d == 1 { "1" } else if d == 2 { "2" } else if d == 3 { "3" }
    else if d == 4 { "4" } else if d == 5 { "5" } else if d == 6 { "6" } else if d == 7 { "7" }
    else if d == 8 { "8" } else { "9" }
}

fn push_decimal(s: &mut String, n: usize)
    ensures
        final(s)@ == old(s)@ + decimal(n as nat),
    decreases n,
{
    if n >= 10 {
        push_decimal(s, n / 10);
    }
    s.append(digit_str(n % 10));
    proof {
        if n < 10 {
            assert(n % 10 == n);
        }
    }
}

/// The positional field name `c<i>`.
pub fn positional(i: usize) -> (r: String)
    ensures
        r@ == positional_name(i as nat),
{
    proof {
        reveal_strlit("c");
    }
    let mut s = String::from_str("c");
    push_decimal(&mut s, i);
    s
}

/// A character for each decimal digit, no two alike.
proof fn lemma_digit_char_injective(a: nat, b: nat)
    requires
        a < 10,
        b < 10,
        digit_char(a) == digit_char(b),
    ensures
        a == b,
{
}

/// The decimal spelling of a number has one digit below ten and more from
/// ten on.
proof fn lemma_decimal_len(n: nat)
    ensures
        decimal(n).len() >= 1,
        n >= 10 ==> decimal(n).len() >= 2,
    decreases n,
{
    if n >= 10 {
        lemma_decimal_len(n / 10);
    }
}

/// Distinct numbers have distinct decimal spellings.
pub proof fn lemma_decimal_injective(a: nat, b: nat)
    requires
        decimal(a) == decimal(b),
    ensures
        a == b,
    decreases a,
{
    lemma_decimal_len(a);
    lemma_decimal_len(b);
    if a < 10 && b < 10 {
        assert(decimal(a)[0] == digit_char(a));
        assert(decimal(b)[0] == digit_char(b));
        lemma_digit_char_injective(a, b);
    } else if a >= 10 && b >= 10 {
        assert(decimal(a).drop_last() =~= decimal(a / 10));
        assert(decimal(b).drop_last() =~= decimal(b / 10));
        assert(decimal(a).last() == digit_char(a % 10));
        assert(decimal(b).last() == digit_char(b % 10));
        lemma_decimal_injective(a / 10, b / 10);
        lemma_digit_char_injective(a % 10, b % 10);
    }
}

/// The positional names `c0`, `c1`, ... are pairwise distinct.
pub proof fn lemma_positional_names_distinct(a: nat, b: nat)
    requires
        a != b,
    ensures
        positional_name(a) != positional_name(b),
{
    if positional_name(a) == positional_name(b) {
        assert(positional_name(a).subrange(1, positional_name(a).len() as int) =~= decimal(a));
        assert(positional_name(b).subrange(1, positional_name(b).len() as int) =~= decimal(b));
        lemma_decimal_injective(a, b);
    }
}

/// A named member column of a struct column.
pub struct StructField {
    pub name: String,
    pub column: Column,
}

/// A struct column: member columns of one row count. A struct row is never
/// null itself; each member carries its own validity.
pub struct StructColumn {
    pub num_rows: usize,
    pub fields: Vec<StructField>,
}

impl StructColumn {
    /// Every member has `num_rows` rows, and no two members share a name.
    pub open spec fn wf(&self) -> bool {
        &&& forall|j: int| 0 <= j < self.fields@.len() ==> (#[trigger] self.fields@[j]).column@.len() == self.num_rows
        &&& distinct(self.names())
    }

    /// The member names, in field order.
    pub open spec fn names(&self) -> Seq<Seq<char>> {
        self.fields@.map_values(|f: StructField| f.name@)
    }

    /// The member columns, in field order.
    pub open spec fn columns(&self) -> Seq<Seq<Option<Value>>> {
        self.fields@.map_values(|f: StructField| f.column@)
    }
}

/// Builds a struct column whose members are copies of `args`, in order,
/// named `c0`, `c1`, ...
pub fn make_struct(args: &Vec<Column>) -> (r: StructColumn)
    requires
        args.len() >= 1,
        same_len(args@, args@[0]@.len()),
    ensures
        r.wf(),
        r.num_rows == args@[0]@.len(),
        r.columns() == views(args@),
        r.names() == Seq::new(args@.len(), |i: int| positional_name(i as nat)),
{
    let n = args[0].len();
    let mut fields: Vec<StructField> = Vec::new();
    let mut i: usize = 0;
    while i < args.len()
        invariant
            n == args@[0]@.len(),
            same_len(args@, n as nat),
            i <= args.len(),
            fields@.len() == i,
            forall|k: int| 0 <= k < i ==> (#[trigger] fields@[k]).column@ == args@[k]@,
            forall|k: int| 0 <= k < i ==> (#[trigger] fields@[k]).name@ == positional_name(k as nat),
        decreases args.len() - i,
    {
        fields.push(StructField { name: positional(i), column: args[i].copy() });
        i = i + 1;
    }
    let r = StructColumn { num_rows: n, fields };
    assert forall|a: int, b: int| 0 <= a < b < r.names().len() implies r.names()[a] != r.names()[b] by {
        lemma_positional_names_distinct(a as nat, b as nat);
    }
    assert(r.columns() =~= views(args@));
    assert(r.names() =~= Seq::new(args@.len(), |i: int| positional_name(i as nat)));
    r
}

/// Builds a struct column from explicit member names and copies of the
/// value columns, pairwise and in order.
pub fn named_struct(names: &Vec<String>, values: &Vec<Column>) -> (r: StructColumn)
    requires
        values.len() >= 1,
        names.len() == values.len(),
        same_len(values@, values@[0]@.len()),
        distinct(names@.map_values(|s: String| s@)),
    ensures
        r.wf(),
        r.num_rows == values@[0]@.len(),
        r.columns() == views(values@),
        r.names() == names@.map_values(|s: String| s@),
{
    let n = values[0].len();
    let mut fields: Vec<StructField> = Vec::new();
    let mut i: usize = 0;
    while i < values.len()
        invariant
            n == values@[0]@.len(),
            same_len(values@, n as nat),
            names.len() == values.len(),
            i <= values.len(),
            fields@.len() == i,
            forall|k: int| 0 <= k < i ==> (#[trigger] fields@[k]).column@ == values@[k]@,
            forall|k: int| 0 <= k < i ==> (#[trigger] fields@[k]).name@ == names@[k]@,
        decreases values.len() - i,
    {
        fields.push(StructField { name: names[i].clone(), column: values[i].copy() });
        i = i + 1;
    }
    let r = StructColumn { num_rows: n, fields };
    assert(r.columns() =~= views(values@));
    assert(r.names() =~= names@.map_values(|s: String| s@));
    r
}

/// The position of the first occurrence of `name` in `names`; `-1` when it
/// does not occur.
pub open spec fn position_of(names: Seq<Seq<char>>, name: Seq<char>) -> int
    decreases names.len(),
{
    if names.len() == 0 {
        -1
    } else if names[0] == name {
        0
    } else {
        let p = position_of(names.drop_first(), name);
        if p < 0 {
            -1
        } else {
            p + 1
        }
    }
}

/// `position_of` is `-1` or the index of the first occurrence.
pub proof fn lemma_position_of(names: Seq<Seq<char>>, name: Seq<char>)
    ensures
        -1 <= position_of(names, name) < names.len(),
        position_of(names, name) == -1 <==> forall|k: int| 0 <= k < names.len() ==> names[k] != name,
        position_of(names, name) >= 0 ==> names[position_of(names, name)] == name,
        forall|k: int| 0 <= k < position_of(names, name) ==> names[k] != name,
    decreases names.len(),
{
    if names.len() > 0 && names[0] != name {
        lemma_position_of(names.drop_first(), name);
        let t = names.drop_first();
        assert forall|k: int| 1 <= k < names.len() implies names[k] == t[k - 1] by {}
        if position_of(t, name) == -1 {
            assert forall|k: int| 0 <= k < names.len() implies names[k] != name by {
                if k > 0 {
                    assert(t[k - 1] != name);
                }
            }
        }
    }
}

/// Where distinct names are listed, `position_of` finds each one at its index.
pub proof fn lemma_position_of_distinct(names: Seq<Seq<char>>, k: int)
    requires
        0 <= k < names.len(),
        forall|a: int, b: int| 0 <= a < b < names.len() ==> names[a] != names[b],
    ensures
        position_of(names, names[k]) == k,
{
    lemma_position_of(names, names[k]);
}

/// The index of the first of `names` equal to `name`.
pub(crate) fn find_name(names: &Vec<String>, name: &String) -> (r: Option<usize>)
    ensures
        r is None <==> position_of(names@.map_values(|s: String| s@), name@) == -1,
        r matches Some(k) ==> k as int == position_of(names@.map_values(|s: String| s@), name@),
{
    let ghost ns = names@.map_values(|s: String| s@);
    proof {
        lemma_position_of(ns, name@);
    }
    let mut j: usize = 0;
    while j < names.len()
        invariant
            ns == names@.map_values(|s: String| s@),
            -1 <= position_of(ns, name@) < ns.len(),
            position_of(ns, name@) == -1 <==> forall|k: int| 0 <= k < ns.len() ==> ns[k] != name@,
            position_of(ns, name@) >= 0 ==> ns[position_of(ns, name@)] == name@,
            forall|k: int| 0 <= k < position_of(ns, name@) ==> ns[k] != name@,
            j <= names.len(),
            forall|k: int| 0 <= k < j ==> ns[k] != name@,
        decreases names.len() - j,
    {
        assert(ns[j as int] == names@[j as int]@);
        if names[j].eq(name) {
            assert(position_of(ns, name@) != -1);
            return Some(j);
        }
        j = j + 1;
    }
    None
}

/// How `get_field` names a member: by name, or by position.
pub enum FieldKey {
    Name(String),
    Index(usize),
}

/// The member `get_field` selects, if present: the first with the name, or
/// the one at the position.
pub open spec fn field_position(s: StructColumn, key: FieldKey) -> int {
    match key {
        FieldKey::Name(n) => position_of(s.names(), n@),
        FieldKey::Index(i) => if i < s.fields@.len() {
            i as int
        } else {
            -1
        },
    }
}

/// The member selected by `key`, passed through unchanged: same values, same
/// validity. `FieldNotFound` when the struct has no such member.
pub fn get_field(s: &StructColumn, key: &FieldKey) -> (r: Result<Column, ResolveError>)
    ensures
        field_position(*s, *key) == -1 ==> r == Err::<Column, ResolveError>(ResolveError::FieldNotFound),
        field_position(*s, *key) != -1 ==> (r matches Ok(c) && c@ == s.columns()[field_position(*s, *key)]),
{
    let pos = match key {
        FieldKey::Name(n) => {
            let mut names: Vec<String> = Vec::new();
            let mut j: usize = 0;
            while j < s.fields.len()
                invariant
                    j <= s.fields@.len(),
                    names@.len() == j,
                    forall|k: int| 0 <= k < j ==> (#[trigger] names@[k])@ == s.fields@[k].name@,
                decreases s.fields@.len() - j,
            {
                names.push(s.fields[j].name.clone());
                j = j + 1;
            }
            assert(names@.map_values(|x: String| x@) =~= s.names());
            find_name(&names, n)
        },
        FieldKey::Index(i) => if *i < s.fields.len() {
            Some(*i)
        } else {
            None
        },
    };
    proof {
        lemma_position_of(s.names(), match key { FieldKey::Name(n) => n@, FieldKey::Index(_) => Seq::empty() });
    }
    match pos {
        Some(k) => {
            assert(s.columns()[k as int] == s.fields@[k as int].column@);
            Ok(s.fields[k].column.copy())
        },
        None => Err(ResolveError::FieldNotFound),
    }
}

/// A tagged-union column: per row a tag selecting one declared variant, and
/// one value column per variant; only the slot the tag selects is the row's
/// value.
pub struct UnionColumn {
    pub names: Vec<String>,
    pub tags: Vec<usize>,
    pub children: Vec<Column>,
}

impl UnionColumn {
    /// At least one variant, one value column per variant name, names
    /// distinct, every child as long as the tags, every tag a variant.
    pub open spec fn wf(&self) -> bool {
        &&& self.names@.len() >= 1
        &&& self.children@.len() == self.names@.len()
        &&& distinct(self.name_views())
        &&& forall|j: int| 0 <= j < self.children@.len() ==> (#[trigger] self.children@[j])@.len() == self.tags@.len()
        &&& forall|i: int| 0 <= i < self.tags@.len() ==> #[trigger] self.tags@[i] < self.names@.len()
    }

    /// The variant names, in declaration order.
    pub open spec fn name_views(&self) -> Seq<Seq<char>> {
        self.names@.map_values(|s: String| s@)
    }
}

/// `union_tag`: per row, the name of the variant the row's tag selects.
pub open spec fn union_tag_cols(u: UnionColumn) -> Seq<Option<Value>> {
    Seq::new(u.tags@.len(), |i: int| Some(Value::Str(u.names@[u.tags@[i] as int]@)))
}

/// `union_extract` of variant `p`: its value where the row's tag is `p`,
/// null elsewhere.
pub open spec fn extract_cols(u: UnionColumn, p: int) -> Seq<Option<Value>> {
    Seq::new(u.tags@.len(), |i: int| if u.tags@[i] as int == p { u.children@[p]@[i] } else { None })
}

/// Per row, the name of the active variant; every row is valid.
pub fn union_tag(u: &UnionColumn) -> (r: Column)
    requires
        u.wf(),
    ensures
        r@ == union_tag_cols(*u),
{
    let mut rows: Vec<Option<Datum>> = Vec::new();
    let mut i: usize = 0;
    while i < u.tags.len()
        invariant
            u.wf(),
            i <= u.tags@.len(),
            rows@.len() == i,
            forall|k: int| 0 <= k < i ==> opt_view(#[trigger] rows@[k]) == Some(Value::Str(u.names@[u.tags@[k] as int]@)),
        decreases u.tags@.len() - i,
    {
        let t = u.tags[i];
        rows.push(Some(Datum::Str(u.names[t].clone())));
        i = i + 1;
    }
    let r = Column { rows };
    assert(r@ =~= union_tag_cols(*u));
    r
}

/// Per row, the value of the variant named `name` where that variant is
/// active, null elsewhere. `FieldNotFound` when no variant has that name.
pub fn union_extract(u: &UnionColumn, name: &String) -> (r: Result<Column, ResolveError>)
    requires
        u.wf(),
    ensures
        position_of(u.name_views(), name@) == -1 ==> r == Err::<Column, ResolveError>(ResolveError::FieldNotFound),
        position_of(u.name_views(), name@) != -1 ==> (r matches Ok(c) && c@ == extract_cols(*u, position_of(u.name_views(), name@))),
{
    proof {
        lemma_position_of(u.name_views(), name@);
    }
    let p = match find_name(&u.names, name) {
        Some(p) => p,
        None => {
            return Err(ResolveError::FieldNotFound);
        },
    };
    let child = &u.children[p];
    let mut rows: Vec<Option<Datum>> = Vec::new();
    let mut i: usize = 0;
    while i < u.tags.len()
        invariant
            u.wf(),
            p < u.names@.len(),
            *child == u.children@[p as int],
            i <= u.tags@.len(),
            rows@.len() == i,
            forall|k: int| 0 <= k < i ==> opt_view(#[trigger] rows@[k]) == (if u.tags@[k] == p { child@[k] } else { None }),
        decreases u.tags@.len() - i,
    {
        assert(child@.len() == u.tags@.len());
        assert(child@[i as int] == opt_view(child.rows@[i as int]));
        if u.tags[i] == p {
            rows.push(copy_entry(&child.rows[i]));
        } else {
            rows.push(None);
        }
        i = i + 1;
    }
    let r = Column { rows };
    assert(r@ =~= extract_cols(*u, p as int));
    Ok(r)
}

} // verus!
