//! Row values, their mathematical model and their ordering, and columns of
//! nullable values with a validity per row.
use vstd::prelude::*;

verus! {

/// One non-null value of a row. Temporal values (days or microseconds since
/// the epoch) and decimals (unscaled) are carried as their integer
/// representation, so they order chronologically and numerically.
pub enum Datum {
    Bool(bool),
    Int(i64),
    UInt(u64),
    Str(String),
}

/// The mathematical model of a `Datum`.
pub enum Value {
    Bool(bool),
    Int(int),
    UInt(int),
    Str(Seq<char>),
}

impl View for Datum {
    type V = Value;

    open spec fn view(&self) -> Value {
        match self {
            Datum::Bool(b) => Value::Bool(*b),
            Datum::Int(x) => Value::Int(*x as int),
            Datum::UInt(x) => Value::UInt(*x as int),
            Datum::Str(s) => Value::Str(s@),
        }
    }
}

/// The model of a nullable row entry: `None` is an invalid (null) row.
pub open spec fn opt_view(o: Option<Datum>) -> Option<Value> {
    match o {
        Some(d) => Some(d@),
        None => None,
    }
}

/// Rank of a value's kind; values of different kinds order by it.
pub open spec fn kind_rank(v: Value) -> int {
    match v {
        Value::Bool(_) => 0,
        Value::Int(_) => 1,
        Value::UInt(_) => 2,
        Value::Str(_) => 3,
    }
}

/// `a` is lexicographically before `b` by code point, with `i` the first
/// position where they differ: there `a` holds the smaller character, or `a`
/// ends while `b` goes on.
pub open spec fn str_lt_at(a: Seq<char>, b: Seq<char>, i: int) -> bool {
    &&& 0 <= i <= a.len()
    &&& i <= b.len()
    &&& forall|q: int| 0 <= q < i ==> a[q] == b[q]
    &&& (i == a.len() && i < b.len()) || (i < a.len() && i < b.len() && (a[i] as int) < (b[i] as int))
}

/// `a` is lexicographically before `b` by code point.
pub open spec fn str_lt(a: Seq<char>, b: Seq<char>) -> bool {
    exists|i: int| str_lt_at(a, b, i)
}

/// The strict order on values: numeric for integers, `false < true`,
/// lexicographic for strings.
pub open spec fn value_lt(a: Value, b: Value) -> bool {
    match (a, b) {
        (Value::Bool(x), Value::Bool(y)) => !x && y,
        (Value::Int(x), Value::Int(y)) => x < y,
        (Value::UInt(x), Value::UInt(y)) => x < y,
        (Value::Str(x), Value::Str(y)) => str_lt(x, y),
        _ => kind_rank(a) < kind_rank(b),
    }
}

/// Where `a` and `b` agree below `i` and, at `i`, `b` has ended or `a`
/// holds the larger character, `a` is not before `b`.
pub proof fn lemma_not_str_lt(a: Seq<char>, b: Seq<char>, i: int)
    requires
        0 <= i <= a.len(),
        i <= b.len(),
        forall|q: int| 0 <= q < i ==> a[q] == b[q],
        i == b.len() || (i < a.len() && (a[i] as int) > (b[i] as int)),
    ensures
        !str_lt(a, b),
{
    assert forall|k: int| !str_lt_at(a, b, k) by {
        if str_lt_at(a, b, k) && k > i {
            assert(a[i] == b[i]);
        }
    }
}

/// No string is before itself.
pub proof fn lemma_str_lt_irreflexive(a: Seq<char>)
    ensures
        !str_lt(a, a),
{
    lemma_not_str_lt(a, a, a.len() as int);
}

/// Of two different strings that agree below `i`, one is before the other.
pub proof fn lemma_str_lt_total(a: Seq<char>, b: Seq<char>, i: int)
    requires
        0 <= i <= a.len(),
        i <= b.len(),
        forall|q: int| 0 <= q < i ==> a[q] == b[q],
    ensures
        a == b || str_lt(a, b) || str_lt(b, a),
    decreases a.len() - i,
{
    if i == a.len() && i == b.len() {
        assert(a =~= b);
    } else if i == a.len() {
        assert(str_lt_at(a, b, i));
    } else if i == b.len() {
        assert(str_lt_at(b, a, i));
    } else if (a[i] as int) < (b[i] as int) {
        assert(str_lt_at(a, b, i));
    } else if (b[i] as int) < (a[i] as int) {
        assert(str_lt_at(b, a, i));
    } else {
        assert(a[i] == b[i]);
        lemma_str_lt_total(a, b, i + 1);
    }
}

/// The string order is transitive.
pub proof fn lemma_str_lt_transitive(a: Seq<char>, b: Seq<char>, c: Seq<char>)
    requires
        str_lt(a, b),
        str_lt(b, c),
    ensures
        str_lt(a, c),
{
    let i = choose|i: int| str_lt_at(a, b, i);
    let j = choose|j: int| str_lt_at(b, c, j);
    if i < j {
        assert(b[i] == c[i]);
        assert(str_lt_at(a, c, i));
    } else if j < i {
        assert(a[j] == b[j]);
        assert(str_lt_at(a, c, j));
    } else {
        assert(str_lt_at(a, c, i));
    }
}

/// No value is below itself.
pub proof fn lemma_value_lt_irreflexive(x: Value)
    ensures
        !value_lt(x, x),
{
    if let Value::Str(s) = x {
        lemma_str_lt_irreflexive(s);
    }
}

/// The value order is transitive.
pub proof fn lemma_value_lt_transitive(a: Value, b: Value, c: Value)
    requires
        value_lt(a, b),
        value_lt(b, c),
    ensures
        value_lt(a, c),
{
    if let (Value::Str(x), Value::Str(y), Value::Str(z)) = (a, b, c) {
        lemma_str_lt_transitive(x, y, z);
    }
}

/// Of two different values, one is below the other.
pub proof fn lemma_value_lt_total(a: Value, b: Value)
    ensures
        a == b || value_lt(a, b) || value_lt(b, a),
{
    if let (Value::Str(x), Value::Str(y)) = (a, b) {
        lemma_str_lt_total(x, y, 0);
    }
}

/// Lexicographic comparison of two strings by code point.
pub fn str_less(a: &String, b: &String) -> (r: bool)
    ensures
        r == str_lt(a@, b@),
{
    let sa = a.as_str();
    let sb = b.as_str();
    let la = sa.unicode_len();
    let lb = sb.unicode_len();
    let mut i: usize = 0;
    while i < la && i < lb
        invariant
            la == a@.len(),
            lb == b@.len(),
            sa@ == a@,
            sb@ == b@,
            i <= la,
            i <= lb,
            forall|q: int| 0 <= q < i ==> a@[q] == b@[q],
        decreases la - i,
    {
        let ca = sa.get_char(i);
        let cb = sb.get_char(i);
        if ca != cb {
            let r = (ca as u32) < (cb as u32);
            proof {
                if r {
                    assert(str_lt_at(a@, b@, i as int));
                } else {
                    lemma_not_str_lt(a@, b@, i as int);
                }
            }
            return r;
        }
        i = i + 1;
    }
    let r = i == la && i < lb;
    proof {
        if r {
            assert(str_lt_at(a@, b@, i as int));
        } else {
            lemma_not_str_lt(a@, b@, i as int);
        }
    }
    r
}

/// The strict order on row values, as `value_lt` states it.
pub fn datum_less(a: &Datum, b: &Datum) -> (r: bool)
    ensures
        r == value_lt(a@, b@),
{
    match (a, b) {
        (Datum::Bool(x), Datum::Bool(y)) => !*x && *y,
        (Datum::Int(x), Datum::Int(y)) => *x < *y,
        (Datum::UInt(x), Datum::UInt(y)) => *x < *y,
        (Datum::Str(x), Datum::Str(y)) => str_less(x, y),
        _ => datum_rank(a) < datum_rank(b),
    }
}

fn datum_rank(d: &Datum) -> (r: u8)
    ensures
        r as int == kind_rank(d@),
{
    match d {
        Datum::Bool(_) => 0,
        Datum::Int(_) => 1,
        Datum::UInt(_) => 2,
        Datum::Str(_) => 3,
    }
}

/// Value equality of two row values.
pub fn datum_eq(a: &Datum, b: &Datum) -> (r: bool)
    ensures
        r == (a@ == b@),
{
    match (a, b) {
        (Datum::Bool(x), Datum::Bool(y)) => *x == *y,
        (Datum::Int(x), Datum::Int(y)) => *x == *y,
        (Datum::UInt(x), Datum::UInt(y)) => *x == *y,
        (Datum::Str(x), Datum::Str(y)) => x.eq(y),
        _ => false,
    }
}

impl Datum {
    /// A copy of this value.
    pub fn copy(&self) -> (r: Datum)
        ensures
            r@ == self@,
    {
        match self {
            Datum::Bool(b) => Datum::Bool(*b),
            Datum::Int(x) => Datum::Int(*x),
            Datum::UInt(x) => Datum::UInt(*x),
            Datum::Str(s) => Datum::Str(s.clone()),
        }
    }
}

/// A copy of a nullable row entry.
pub fn copy_entry(o: &Option<Datum>) -> (r: Option<Datum>)
    ensures
        opt_view(r) == opt_view(*o),
{
    match o {
        Some(d) => Some(d.copy()),
        None => None,
    }
}

/// A column of a batch: one nullable value per row; `None` is a row whose
/// validity bit is clear.
pub struct Column {
    pub rows: Vec<Option<Datum>>,
}

impl View for Column {
    type V = Seq<Option<Value>>;

    open spec fn view(&self) -> Seq<Option<Value>> {
        self.rows@.map_values(|o: Option<Datum>| opt_view(o))
    }
}

impl Column {
    /// The number of rows.
    pub fn len(&self) -> (r: usize)
        ensures
            r == self@.len(),
    {
        self.rows.len()
    }

    /// Whether row `i` holds a value (its validity bit is set).
    pub fn is_valid(&self, i: usize) -> (r: bool)
        requires
            i < self@.len(),
        ensures
            r == self@[i as int] is Some,
    {
        self.rows[i].is_some()
    }

    /// The validity bitmap of the column, one flag per row.
    pub fn validity(&self) -> (r: Vec<bool>)
        ensures
            r@.len() == self@.len(),
            forall|i: int| 0 <= i < r@.len() ==> r@[i] == (self@[i] is Some),
    {
        let mut r: Vec<bool> = Vec::new();
        let mut i: usize = 0;
        while i < self.rows.len()
            invariant
                i <= self@.len(),
                r@.len() == i,
                forall|k: int| 0 <= k < i ==> r@[k] == (self@[k] is Some),
            decreases self@.len() - i,
        {
            r.push(self.rows[i].is_some());
            i = i + 1;
        }
        r
    }

    /// A copy of the column.
    pub fn copy(&self) -> (r: Column)
        ensures
            r@ == self@,
    {
        let mut rows: Vec<Option<Datum>> = Vec::new();
        let mut i: usize = 0;
        while i < self.rows.len()
            invariant
                i <= self@.len(),
                rows@.len() == i,
                forall|k: int| 0 <= k < i ==> opt_view(#[trigger] rows@[k]) == self@[k],
            decreases self@.len() - i,
        {
            rows.push(copy_entry(&self.rows[i]));
            i = i + 1;
        }
        let r = Column { rows };
        assert(r@ =~= self@);
        r
    }
}

/// All columns of `cols` have `n` rows.
pub open spec fn same_len(cols: Seq<Column>, n: nat) -> bool {
    forall|j: int| 0 <= j < cols.len() ==> (#[trigger] cols[j])@.len() == n
}

/// The models of a sequence of columns.
pub open spec fn views(cols: Seq<Column>) -> Seq<Seq<Option<Value>>> {
    cols.map_values(|c: Column| c@)
}

/// The entries of row `i` across `cols`, in argument order.
pub open spec fn row_of(cols: Seq<Seq<Option<Value>>>, i: int) -> Seq<Option<Value>> {
    cols.map_values(|c: Seq<Option<Value>>| c[i])
}

} // verus!
