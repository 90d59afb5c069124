//! Batch-time evaluation of the column-valued functions by kind: total on
//! every argument list of the right arity and one row count.
use vstd::prelude::*;

use crate::conditional::{coalesce, coalesce_cols, nullif, nullif_cols, nvl, nvl2, nvl2_cols};
use crate::ordering::{extreme_cols, greatest, least, Extreme};
use crate::types::FunctionKind;
use crate::value::{same_len, views, Column, Value};

verus! {

/// `kind` maps argument columns to one column of the same row count, and
/// `n` arguments is an arity it accepts.
pub open spec fn evaluable(kind: FunctionKind, n: nat) -> bool {
    match kind {
        FunctionKind::Coalesce | FunctionKind::Greatest | FunctionKind::Least => n >= 1,
        FunctionKind::NullIf | FunctionKind::Nvl => n == 2,
        FunctionKind::Nvl2 => n == 3,
        _ => false,
    }
}

/// The column that `kind` computes from `args`, each of `n` rows.
pub open spec fn evaluation(kind: FunctionKind, args: Seq<Seq<Option<Value>>>, n: nat) -> Seq<Option<Value>> {
    match kind {
        FunctionKind::Coalesce | FunctionKind::Nvl => coalesce_cols(args, n),
        FunctionKind::Greatest => extreme_cols(Extreme::Greatest, args, n),
        FunctionKind::Least => extreme_cols(Extreme::Least, args, n),
        FunctionKind::NullIf => nullif_cols(args[0], args[1]),
        _ => nvl2_cols(args[0], args[1], args[2]),
    }
}

/// Evaluates a call of `kind` on one batch. Defined for every row count,
/// zero included, and every mix of valid and null rows: nothing here fails
/// once the call has resolved.
pub fn evaluate(kind: FunctionKind, args: &Vec<Column>) -> (r: Column)
    requires
        evaluable(kind, args@.len()),
        same_len(args@, args@[0]@.len()),
    ensures
        r@ == evaluation(kind, views(args@), args@[0]@.len()),
        r@.len() == args@[0]@.len(),
{
    let ghost vs = views(args@);
    match kind {
        FunctionKind::Coalesce => coalesce(args),
        FunctionKind::Greatest => greatest(args),
        FunctionKind::Least => least(args),
        FunctionKind::NullIf => {
            assert(args@[1]@.len() == args@[0]@.len());
            nullif(&args[0], &args[1])
        },
        FunctionKind::Nvl => {
            assert(args@[1]@.len() == args@[0]@.len());
            assert(vs =~= seq![args@[0]@, args@[1]@]);
            nvl(&args[0], &args[1])
        },
        _ => {
            assert(args@[1]@.len() == args@[0]@.len());
            assert(args@[2]@.len() == args@[0]@.len());
            nvl2(&args[0], &args[1], &args[2])
        },
    }
}

} // verus!
