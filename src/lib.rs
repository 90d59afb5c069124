//! Null-aware, variadic scalar functions over columnar data: conditional
//! selection (`coalesce`, `nullif`, `nvl`, `nvl2`), cross-argument ordering
//! (`greatest`, `least`) and structural construction and access (`struct`,
//! `named_struct`, `get_field`, `union_extract`, `union_tag`), together with
//! the plan-time type resolution that fixes each call's result type.
pub mod conditional;
pub mod evaluate;
pub mod laws;
pub mod ordering;
pub mod structural;
pub mod types;
pub mod value;
