//! Laws that relate the functions of this library, proved over the models
//! that their contracts use.
use vstd::prelude::*;

use crate::conditional::{coalesce_cols, coalesce_row, nullif_cols};
use crate::ordering::{extreme_cols, Extreme};
use crate::structural::{
    extract_cols, lemma_position_of_distinct, lemma_positional_names_distinct, position_of,
    positional_name, union_tag_cols, StructColumn, UnionColumn,
};
use crate::value::{lemma_value_lt_irreflexive, row_of, value_lt, views, Column, Value};

verus! {

/// `coalesce` of a single argument is that argument.
pub proof fn law_coalesce_identity(a: Seq<Option<Value>>)
    ensures
        coalesce_cols(seq![a], a.len()) == a,
{
    assert forall|i: int| 0 <= i < a.len() implies #[trigger] coalesce_cols(seq![a], a.len())[i] == a[i] by {
        reveal_with_fuel(coalesce_row, 2);
        let row = row_of(seq![a], i);
        assert(row =~= seq![a[i]]);
        assert(row.drop_first().len() == 0);
    }
    assert(coalesce_cols(seq![a], a.len()) =~= a);
}

/// `coalesce` is associative: coalescing the first two arguments and then
/// the third gives, row by row, `coalesce` of all three.
pub proof fn law_coalesce_associative(a1: Seq<Option<Value>>, a2: Seq<Option<Value>>, a3: Seq<Option<Value>>)
    requires
        a1.len() == a2.len(),
        a1.len() == a3.len(),
    ensures
        coalesce_cols(seq![coalesce_cols(seq![a1, a2], a1.len()), a3], a1.len())
            == coalesce_cols(seq![a1, a2, a3], a1.len()),
{
    let n = a1.len();
    let inner = coalesce_cols(seq![a1, a2], n);
    let lhs = coalesce_cols(seq![inner, a3], n);
    let rhs = coalesce_cols(seq![a1, a2, a3], n);
    assert forall|i: int| 0 <= i < n implies #[trigger] lhs[i] == rhs[i] by {
        reveal_with_fuel(coalesce_row, 4);
        let r2 = row_of(seq![a1, a2], i);
        let r3 = row_of(seq![a1, a2, a3], i);
        let rl = row_of(seq![inner, a3], i);
        assert(r2 =~= seq![a1[i], a2[i]]);
        assert(r3 =~= seq![a1[i], a2[i], a3[i]]);
        assert(rl =~= seq![inner[i], a3[i]]);
        assert(r2.drop_first() =~= seq![a2[i]]);
        assert(r2.drop_first().drop_first().len() == 0);
        assert(r3.drop_first() =~= seq![a2[i], a3[i]]);
        assert(r3.drop_first().drop_first() =~= seq![a3[i]]);
        assert(r3.drop_first().drop_first().drop_first().len() == 0);
        assert(rl.drop_first() =~= seq![a3[i]]);
        assert(rl.drop_first().drop_first().len() == 0);
    }
    assert(lhs =~= rhs);
}

/// `greatest` or `least` of two columns.
pub open spec fn pair_extreme(e: Extreme, a: Seq<Option<Value>>, b: Seq<Option<Value>>) -> Seq<Option<Value>> {
    extreme_cols(e, seq![a, b], a.len())
}

/// `greatest(a, b)` is `a` at every row where `a` is valid and either `b` is
/// null or `a` is not below `b`.
pub proof fn law_greatest_keeps_dominant(a: Seq<Option<Value>>, b: Seq<Option<Value>>)
    requires
        a.len() == b.len(),
    ensures
        forall|i: int|
            0 <= i < a.len() && a[i] is Some && (b[i] is None || !value_lt(a[i]->Some_0, b[i]->Some_0))
                ==> #[trigger] pair_extreme(Extreme::Greatest, a, b)[i] == a[i],
{
    assert forall|i: int|
        0 <= i < a.len() && a[i] is Some && (b[i] is None || !value_lt(a[i]->Some_0, b[i]->Some_0))
            implies #[trigger] pair_extreme(Extreme::Greatest, a, b)[i] == a[i] by {
        reveal_with_fuel(crate::ordering::extreme_from, 3);
        let row = row_of(seq![a, b], i);
        assert(row =~= seq![a[i], b[i]]);
        assert(row.drop_first() =~= seq![b[i]]);
        assert(row.drop_first().drop_first().len() == 0);
    }
}

/// `greatest(a, b)` and `least(a, b)` agree at every row where `a` and `b`
/// are equal (both null, or both valid with one value).
pub proof fn law_greatest_least_agree_on_equal(a: Seq<Option<Value>>, b: Seq<Option<Value>>)
    requires
        a.len() == b.len(),
    ensures
        forall|i: int|
            0 <= i < a.len() && a[i] == b[i] ==> #[trigger] pair_extreme(Extreme::Greatest, a, b)[i]
                == pair_extreme(Extreme::Least, a, b)[i],
{
    assert forall|i: int| 0 <= i < a.len() && a[i] == b[i] implies #[trigger] pair_extreme(Extreme::Greatest, a, b)[i] == pair_extreme(Extreme::Least, a, b)[i] by {
        reveal_with_fuel(crate::ordering::extreme_from, 3);
        let row = row_of(seq![a, b], i);
        assert(row =~= seq![a[i], b[i]]);
        assert(row.drop_first() =~= seq![b[i]]);
        assert(row.drop_first().drop_first().len() == 0);
        if let Some(x) = a[i] {
            lemma_value_lt_irreflexive(x);
        }
    }
}

/// `nullif(a, a)` is null at every row: valid rows are nulled out, null rows
/// pass through as they are.
pub proof fn law_nullif_self(a: Seq<Option<Value>>)
    ensures
        nullif_cols(a, a).len() == a.len(),
        forall|i: int| 0 <= i < a.len() && a[i] is Some ==> #[trigger] nullif_cols(a, a)[i] is None,
        forall|i: int| 0 <= i < a.len() && a[i] is None ==> #[trigger] nullif_cols(a, a)[i] == a[i],
{
}

/// Reading the tag of a row of a union, then extracting the variant with
/// that name, gives the active variant's value at that row.
pub proof fn law_union_tag_then_extract(u: UnionColumn, i: int)
    requires
        u.wf(),
        0 <= i < u.tags@.len(),
    ensures
        union_tag_cols(u)[i] == Some(Value::Str(u.names@[u.tags@[i] as int]@)),
        extract_cols(u, position_of(u.name_views(), u.names@[u.tags@[i] as int]@))[i]
            == u.children@[u.tags@[i] as int]@[i],
{
    let t = u.tags@[i] as int;
    assert(u.name_views()[t] == u.names@[t]@);
    lemma_position_of_distinct(u.name_views(), t);
}

/// A struct built from `args` by `struct` hands back, for the positional
/// name `c<k>`, the `k`-th argument unchanged.
pub proof fn law_struct_get_field(args: Seq<Column>, s: StructColumn, k: int)
    requires
        0 <= k < args.len(),
        s.columns() == views(args),
        s.names() == Seq::new(args.len(), |i: int| positional_name(i as nat)),
    ensures
        position_of(s.names(), positional_name(k as nat)) == k,
        s.columns()[k] == args[k]@,
{
    assert forall|a: int, b: int| 0 <= a < b < s.names().len() implies s.names()[a] != s.names()[b] by {
        lemma_positional_names_distinct(a as nat, b as nat);
    }
    lemma_position_of_distinct(s.names(), k);
}

} // verus!
