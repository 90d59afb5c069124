//! Conditional selection: `coalesce`, `nullif`, `nvl` and `nvl2`, each a
//! per-row decision on the validity of its arguments.
use vstd::prelude::*;

use crate::value::{copy_entry, datum_eq, opt_view, row_of, same_len, views, Column, Datum, Value};

verus! {

/// The first valid entry of a row, scanning the arguments left to right;
/// null when every entry is null.
pub open spec fn coalesce_row(vals: Seq<Option<Value>>) -> Option<Value>
    decreases vals.len(),
{
    if vals.len() == 0 {
        None
    } else if vals[0] is Some {
        vals[0]
    } else {
        coalesce_row(vals.drop_first())
    }
}

/// `coalesce` over whole columns of `n` rows.
pub open spec fn coalesce_cols(args: Seq<Seq<Option<Value>>>, n: nat) -> Seq<Option<Value>> {
    Seq::new(n, |i: int| coalesce_row(row_of(args, i)))
}

/// `nullif` at one row: null where both entries are valid and equal,
/// else the first entry with its own validity.
pub open spec fn nullif_row(a: Option<Value>, b: Option<Value>) -> Option<Value> {
    if a is Some && b is Some && a == b {
        None
    } else {
        a
    }
}

/// `nvl2` at one row: the second entry where the first is valid, else the
/// third; the chosen entry keeps its own validity.
pub open spec fn nvl2_row(a: Option<Value>, b: Option<Value>, c: Option<Value>) -> Option<Value> {
    if a is Some {
        b
    } else {
        c
    }
}

/// Per row, the value of the first argument that is valid at that row, or
/// null where all of them are null. All arguments share one row count.
pub fn coalesce(args: &Vec<Column>) -> (r: Column)
    requires
        args.len() >= 1,
        same_len(args@, args@[0]@.len()),
    ensures
        r@ == coalesce_cols(views(args@), args@[0]@.len()),
{
    let n = args[0].len();
    let ghost vs = views(args@);
    let mut rows: Vec<Option<Datum>> = Vec::new();
    let mut i: usize = 0;
    while i < n
        invariant
            n == args@[0]@.len(),
            same_len(args@, n as nat),
            vs == views(args@),
            i <= n,
            rows@.len() == i,
            forall|k: int| 0 <= k < i ==> opt_view(#[trigger] rows@[k]) == coalesce_row(row_of(vs, k)),
        decreases n - i,
    {
        let ghost row = row_of(vs, i as int);
        assert(row.subrange(0, row.len() as int) =~= row);
        let mut j: usize = 0;
        let mut out: Option<Datum> = None;
        while j < args.len()
            invariant_except_break
                out is None,
            invariant
                n == args@[0]@.len(),
                same_len(args@, n as nat),
                vs == views(args@),
                i < n,
                row == row_of(vs, i as int),
                j <= args.len(),
                row.len() == args.len(),
                coalesce_row(row) == coalesce_row(row.subrange(j as int, row.len() as int)),
            ensures
                j < args.len() ==> opt_view(out) == coalesce_row(row),
                j == args.len() ==> out is None,
            decreases args.len() - j,
        {
            assert(args@[j as int]@.len() == n);
            assert(row[j as int] == opt_view(args@[j as int].rows@[i as int]));
            if args[j].rows[i].is_some() {
                out = copy_entry(&args[j].rows[i]);
                assert(row.subrange(j as int, row.len() as int)[0] == row[j as int]);
                break;
            }
            assert(row.subrange(j as int, row.len() as int).drop_first() =~= row.subrange(j + 1, row.len() as int));
            j = j + 1;
        }
        proof {
            if j == args.len() {
                assert(row.subrange(j as int, row.len() as int).len() == 0);
            }
        }
        rows.push(out);
        i = i + 1;
    }
    let r = Column { rows };
    assert(r@ =~= coalesce_cols(vs, n as nat));
    r
}

/// `nullif` over whole columns.
pub open spec fn nullif_cols(a: Seq<Option<Value>>, b: Seq<Option<Value>>) -> Seq<Option<Value>> {
    Seq::new(a.len(), |i: int| nullif_row(a[i], b[i]))
}

/// `nvl2` over whole columns.
pub open spec fn nvl2_cols(
    a: Seq<Option<Value>>,
    b: Seq<Option<Value>>,
    c: Seq<Option<Value>>,
) -> Seq<Option<Value>> {
    Seq::new(a.len(), |i: int| nvl2_row(a[i], b[i], c[i]))
}

/// Null at the rows where both arguments are valid and equal; elsewhere the
/// first argument, with its own validity.
pub fn nullif(a: &Column, b: &Column) -> (r: Column)
    requires
        a@.len() == b@.len(),
    ensures
        r@ == nullif_cols(a@, b@),
{
    let mut rows: Vec<Option<Datum>> = Vec::new();
    let mut i: usize = 0;
    while i < a.rows.len()
        invariant
            a@.len() == b@.len(),
            i <= a@.len(),
            rows@.len() == i,
            forall|k: int| 0 <= k < i ==> opt_view(#[trigger] rows@[k]) == nullif_row(a@[k], b@[k]),
        decreases a@.len() - i,
    {
        let out = match (&a.rows[i], &b.rows[i]) {
            (Some(x), Some(y)) => {
                if datum_eq(x, y) {
                    None
                } else {
                    Some(x.copy())
                }
            },
            _ => copy_entry(&a.rows[i]),
        };
        assert(a@[i as int] == opt_view(a.rows@[i as int]));
        assert(b@[i as int] == opt_view(b.rows@[i as int]));
        rows.push(out);
        i = i + 1;
    }
    let r = Column { rows };
    assert(r@ =~= nullif_cols(a@, b@));
    r
}

/// The second argument where the first is null, else the first: `coalesce`
/// of the two.
pub fn nvl(a: &Column, b: &Column) -> (r: Column)
    requires
        a@.len() == b@.len(),
    ensures
        r@ == coalesce_cols(seq![a@, b@], a@.len()),
{
    let args = vec![a.copy(), b.copy()];
    assert(views(args@) =~= seq![a@, b@]);
    coalesce(&args)
}

/// The second argument where the first is valid, else the third; only the
/// first argument's validity decides, and the chosen entry keeps its own.
pub fn nvl2(a: &Column, b: &Column, c: &Column) -> (r: Column)
    requires
        a@.len() == b@.len(),
        a@.len() == c@.len(),
    ensures
        r@ == nvl2_cols(a@, b@, c@),
{
    let mut rows: Vec<Option<Datum>> = Vec::new();
    let mut i: usize = 0;
    while i < a.rows.len()
        invariant
            a@.len() == b@.len(),
            a@.len() == c@.len(),
            i <= a@.len(),
            rows@.len() == i,
            forall|k: int| 0 <= k < i ==> opt_view(#[trigger] rows@[k]) == nvl2_row(a@[k], b@[k], c@[k]),
        decreases a@.len() - i,
    {
        let out = if a.rows[i].is_some() {
            copy_entry(&b.rows[i])
        } else {
            copy_entry(&c.rows[i])
        };
        assert(a@[i as int] == opt_view(a.rows@[i as int]));
        assert(b@[i as int] == opt_view(b.rows@[i as int]));
        assert(c@[i as int] == opt_view(c.rows@[i as int]));
        rows.push(out);
        i = i + 1;
    }
    let r = Column { rows };
    assert(r@ =~= nvl2_cols(a@, b@, c@));
    r
}

} // verus!
