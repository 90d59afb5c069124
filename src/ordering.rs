//! Cross-argument ordering: `greatest` and `least`, a null-skipping fold
//! that keeps a running extreme per row.
use vstd::prelude::*;

use crate::value::{
    datum_less, lemma_value_lt_irreflexive, lemma_value_lt_total, lemma_value_lt_transitive,
    opt_view, row_of, same_len, value_lt, views, Column, Datum, Value,
};

verus! {

/// Which extreme a fold keeps.
pub enum Extreme {
    Greatest,
    Least,
}

/// `x` replaces the running extreme `y`: strictly greater for `Greatest`,
/// strictly smaller for `Least`. Ties keep the earlier argument.
pub open spec fn beats(e: Extreme, x: Value, y: Value) -> bool {
    match e {
        Extreme::Greatest => value_lt(y, x),
        Extreme::Least => value_lt(x, y),
    }
}

/// One step of the null-skipping fold: a null entry leaves the running
/// extreme as it is.
pub open spec fn fold_step(e: Extreme, acc: Option<Value>, v: Option<Value>) -> Option<Value> {
    match v {
        None => acc,
        Some(x) => match acc {
            None => Some(x),
            Some(y) => if beats(e, x, y) {
                Some(x)
            } else {
                Some(y)
            },
        },
    }
}

/// The fold of `vals`, left to right, starting from `acc`.
pub open spec fn extreme_from(e: Extreme, acc: Option<Value>, vals: Seq<Option<Value>>) -> Option<Value>
    decreases vals.len(),
{
    if vals.len() == 0 {
        acc
    } else {
        extreme_from(e, fold_step(e, acc, vals[0]), vals.drop_first())
    }
}

/// The extreme valid entry of a row (the first of equal ones); null when
/// every entry is null.
pub open spec fn extreme_row(e: Extreme, vals: Seq<Option<Value>>) -> Option<Value> {
    extreme_from(e, None, vals)
}

/// The fold over whole columns of `n` rows.
pub open spec fn extreme_cols(e: Extreme, args: Seq<Seq<Option<Value>>>, n: nat) -> Seq<Option<Value>> {
    Seq::new(n, |i: int| extreme_row(e, row_of(args, i)))
}

fn beats_exec(e: &Extreme, x: &Datum, y: &Datum) -> (r: bool)
    ensures
        r == beats(*e, x@, y@),
{
    match e {
        Extreme::Greatest => datum_less(y, x),
        Extreme::Least => datum_less(x, y),
    }
}

/// Per row, the extreme of the valid entries across `args`, skipping nulls;
/// null where all entries are null. All arguments share one row count.
pub fn extreme(e: Extreme, args: &Vec<Column>) -> (r: Column)
    requires
        args.len() >= 1,
        same_len(args@, args@[0]@.len()),
    ensures
        r@ == extreme_cols(e, views(args@), args@[0]@.len()),
{
    let n = args[0].len();
    let ghost vs = views(args@);
    let mut rows: Vec<Option<Datum>> = Vec::new();
    let mut i: usize = 0;
    while i < n
        invariant
            n == args@[0]@.len(),
            same_len(args@, n as nat),
            vs == views(args@),
            i <= n,
            rows@.len() == i,
            forall|k: int| 0 <= k < i ==> opt_view(#[trigger] rows@[k]) == extreme_row(e, row_of(vs, k)),
        decreases n - i,
    {
        let ghost row = row_of(vs, i as int);
        assert(row.subrange(0, row.len() as int) =~= row);
        let mut acc: Option<Datum> = None;
        let mut j: usize = 0;
        while j < args.len()
            invariant
                n == args@[0]@.len(),
                same_len(args@, n as nat),
                vs == views(args@),
                i < n,
                row == row_of(vs, i as int),
                row.len() == args.len(),
                j <= args.len(),
                extreme_row(e, row) == extreme_from(e, opt_view(acc), row.subrange(j as int, row.len() as int)),
            decreases args.len() - j,
        {
            assert(args@[j as int]@.len() == n);
            assert(row[j as int] == opt_view(args@[j as int].rows@[i as int]));
            let ghost before = opt_view(acc);
            match &args[j].rows[i] {
                None => {},
                Some(x) => {
                    let take = match &acc {
                        None => true,
                        Some(y) => beats_exec(&e, x, y),
                    };
                    if take {
                        acc = Some(x.copy());
                    }
                },
            }
            assert(opt_view(acc) == fold_step(e, before, row[j as int]));
            assert(row.subrange(j as int, row.len() as int).drop_first() =~= row.subrange(j + 1, row.len() as int));
            j = j + 1;
        }
        rows.push(acc);
        i = i + 1;
    }
    let r = Column { rows };
    assert(r@ =~= extreme_cols(e, vs, n as nat));
    r
}

/// Per row, the greatest valid entry across `args` (the first of equal
/// ones), null where all are null.
pub fn greatest(args: &Vec<Column>) -> (r: Column)
    requires
        args.len() >= 1,
        same_len(args@, args@[0]@.len()),
    ensures
        r@ == extreme_cols(Extreme::Greatest, views(args@), args@[0]@.len()),
{
    extreme(Extreme::Greatest, args)
}

/// Per row, the smallest valid entry across `args` (the first of equal
/// ones), null where all are null.
pub fn least(args: &Vec<Column>) -> (r: Column)
    requires
        args.len() >= 1,
        same_len(args@, args@[0]@.len()),
    ensures
        r@ == extreme_cols(Extreme::Least, views(args@), args@[0]@.len()),
{
    extreme(Extreme::Least, args)
}

/// Entry `k` is the first valid entry that no valid entry beats: it is
/// valid, nothing beats it, and it beats every valid entry before it.
pub open spec fn first_unbeaten(e: Extreme, vals: Seq<Option<Value>>, k: int) -> bool {
    &&& 0 <= k < vals.len()
    &&& vals[k] is Some
    &&& forall|j: int| 0 <= j < vals.len() && vals[j] is Some ==> !beats(e, vals[j]->Some_0, vals[k]->Some_0)
    &&& forall|j: int| 0 <= j < k && vals[j] is Some ==> beats(e, vals[k]->Some_0, vals[j]->Some_0)
}

proof fn lemma_beats_irreflexive(e: Extreme, x: Value)
    ensures
        !beats(e, x, x),
{
    lemma_value_lt_irreflexive(x);
}

proof fn lemma_beats_transitive(e: Extreme, x: Value, y: Value, z: Value)
    requires
        beats(e, x, y),
        beats(e, y, z),
    ensures
        beats(e, x, z),
{
    match e {
        Extreme::Greatest => lemma_value_lt_transitive(z, y, x),
        Extreme::Least => lemma_value_lt_transitive(x, y, z),
    }
}

proof fn lemma_beats_total(e: Extreme, x: Value, y: Value)
    ensures
        x == y || beats(e, x, y) || beats(e, y, x),
{
    lemma_value_lt_total(x, y);
}

/// Folding one more entry is one more step of the fold.
proof fn lemma_extreme_push(e: Extreme, acc: Option<Value>, s: Seq<Option<Value>>, v: Option<Value>)
    ensures
        extreme_from(e, acc, s.push(v)) == fold_step(e, extreme_from(e, acc, s), v),
    decreases s.len(),
{
    if s.len() == 0 {
        assert(s.push(v).drop_first() =~= Seq::<Option<Value>>::empty());
        assert(s.push(v)[0] == v);
        assert(extreme_from(e, fold_step(e, acc, v), Seq::<Option<Value>>::empty()) == fold_step(e, acc, v));
    } else {
        assert(s.push(v).drop_first() =~= s.drop_first().push(v));
        assert(s.push(v)[0] == s[0]);
        lemma_extreme_push(e, fold_step(e, acc, s[0]), s.drop_first(), v);
    }
}

/// The extreme of a row is null exactly when every entry is null; else it
/// is the first valid entry that no valid entry beats.
pub proof fn lemma_extreme_row(e: Extreme, vals: Seq<Option<Value>>)
    ensures
        extreme_row(e, vals) is None <==> forall|j: int| 0 <= j < vals.len() ==> vals[j] is None,
        extreme_row(e, vals) matches Some(x) ==> exists|k: int| #[trigger] first_unbeaten(e, vals, k) && vals[k] == Some(x),
    decreases vals.len(),
{
    if vals.len() > 0 {
        let n = vals.len() - 1;
        let p = vals.drop_last();
        let v = vals.last();
        lemma_extreme_row(e, p);
        lemma_extreme_push(e, None, p, v);
        assert(p.push(v) =~= vals);
        assert forall|j: int| 0 <= j < n implies vals[j] == p[j] by {}
        let rp = extreme_row(e, p);
        match v {
            None => {
                if let Some(y) = rp {
                    let k = choose|k: int| first_unbeaten(e, p, k) && p[k] == Some(y);
                    assert(first_unbeaten(e, vals, k));
                }
            },
            Some(z) => {
                lemma_beats_irreflexive(e, z);
                match rp {
                    None => {
                        assert(first_unbeaten(e, vals, n));
                    },
                    Some(y) => {
                        let k = choose|k: int| first_unbeaten(e, p, k) && p[k] == Some(y);
                        if beats(e, z, y) {
                            assert forall|j: int| 0 <= j < n && vals[j] is Some implies !beats(
                                e,
                                vals[j]->Some_0,
                                z,
                            ) && beats(e, z, vals[j]->Some_0) by {
                                let w = vals[j]->Some_0;
                                assert(!beats(e, w, y));
                                if beats(e, w, z) {
                                    lemma_beats_transitive(e, w, z, y);
                                }
                                lemma_beats_total(e, w, y);
                                if beats(e, y, w) {
                                    lemma_beats_transitive(e, z, y, w);
                                }
                            }
                            assert(first_unbeaten(e, vals, n));
                        } else {
                            assert(first_unbeaten(e, vals, k));
                        }
                    },
                }
            },
        }
    }
}

} // verus!
