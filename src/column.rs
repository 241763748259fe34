//! Typed, borrowed, fixed-length columns.

use vstd::prelude::*;
use vstd::std_specs::cmp::PartialEqSpec;

verus! {

/// One column of values, tagged by its SQL type and borrowed from the buffer that
/// produced it.
#[derive(Debug, Clone)]
pub enum Column<'a, S> {
    /// Boolean values.
    Boolean(&'a [bool]),
    /// 8-bit signed integers.
    TinyInt(&'a [i8]),
    /// 32-bit signed integers.
    Int(&'a [i32]),
    /// 64-bit signed integers.
    BigInt(&'a [i64]),
    /// 128-bit signed integers.
    Int128(&'a [i128]),
    /// Text values.
    VarChar(&'a [&'a str]),
    /// Values of the scalar field type `S`.
    Scalar(&'a [S]),
}

/// Two sequences of `T` have the same length and are pairwise equal under `T`'s `==`.
pub open spec fn seqs_eq_spec<T: PartialEqSpec>(a: Seq<T>, b: Seq<T>) -> bool {
    &&& a.len() == b.len()
    &&& forall|i: int| 0 <= i < a.len() ==> (#[trigger] a[i]).eq_spec(&b[i])
}

/// Two sequences of text have the same length and pairwise the same characters.
pub open spec fn texts_eq_spec(a: Seq<&str>, b: Seq<&str>) -> bool {
    &&& a.len() == b.len()
    &&& forall|i: int| 0 <= i < a.len() ==> (#[trigger] a[i])@ == b[i]@
}

impl<'a, S> Column<'a, S> {
    /// The number of values in the column.
    pub open spec fn spec_len(&self) -> nat {
        match *self {
            Column::Boolean(v) => v@.len(),
            Column::TinyInt(v) => v@.len(),
            Column::Int(v) => v@.len(),
            Column::BigInt(v) => v@.len(),
            Column::Int128(v) => v@.len(),
            Column::VarChar(v) => v@.len(),
            Column::Scalar(v) => v@.len(),
        }
    }

    /// The number of values in the column.
    pub fn len(&self) -> (r: usize)
        ensures
            r == self.spec_len(),
    {
        match *self {
            Column::Boolean(v) => v.len(),
            Column::TinyInt(v) => v.len(),
            Column::Int(v) => v.len(),
            Column::BigInt(v) => v.len(),
            Column::Int128(v) => v.len(),
            Column::VarChar(v) => v.len(),
            Column::Scalar(v) => v.len(),
        }
    }

    /// Whether the column holds no values.
    pub fn is_empty(&self) -> (r: bool)
        ensures
            r == (self.spec_len() == 0),
    {
        self.len() == 0
    }
}

/// Compares two slices element by element with `T`'s `==`.
fn slices_eq<T: PartialEq + PartialEqSpec>(a: &[T], b: &[T]) -> (r: bool)
    ensures
        T::obeys_eq_spec() ==> r == seqs_eq_spec(a@, b@),
{
    if a.len() != b.len() {
        return false;
    }
    let mut i: usize = 0;
    while i < a.len()
        invariant
            a@.len() == b@.len(),
            i <= a@.len(),
            T::obeys_eq_spec() ==> forall|j: int| 0 <= j < i ==> (#[trigger] a@[j]).eq_spec(&b@[j]),
        decreases a@.len() - i,
    {
        if a[i] != b[i] {
            return false;
        }
        i = i + 1;
    }
    true
}

/// Compares two slices of text element by element, by their characters.
fn texts_eq(a: &[&str], b: &[&str]) -> (r: bool)
    ensures
        r == texts_eq_spec(a@, b@),
{
    if a.len() != b.len() {
        return false;
    }
    let mut i: usize = 0;
    while i < a.len()
        invariant
            a@.len() == b@.len(),
            i <= a@.len(),
            forall|j: int| 0 <= j < i ==> (#[trigger] a@[j])@ == b@[j]@,
        decreases a@.len() - i,
    {
        if a[i].to_owned() != b[i].to_owned() {
            return false;
        }
        i = i + 1;
    }
    true
}

impl<'a, S: PartialEq + PartialEqSpec> PartialEq for Column<'a, S> {
    fn eq(&self, other: &Self) -> (r: bool) {
        match (self, other) {
            (Column::Boolean(a), Column::Boolean(b)) => {
                let r = slices_eq(a, b);
                assert(r ==> a@ =~= b@);
                r
            },
            (Column::TinyInt(a), Column::TinyInt(b)) => {
                let r = slices_eq(a, b);
                assert(r ==> a@ =~= b@);
                r
            },
            (Column::Int(a), Column::Int(b)) => {
                let r = slices_eq(a, b);
                assert(r ==> a@ =~= b@);
                r
            },
            (Column::BigInt(a), Column::BigInt(b)) => {
                let r = slices_eq(a, b);
                assert(r ==> a@ =~= b@);
                r
            },
            (Column::Int128(a), Column::Int128(b)) => {
                let r = slices_eq(a, b);
                assert(r ==> a@ =~= b@);
                r
            },
            (Column::VarChar(a), Column::VarChar(b)) => texts_eq(a, b),
            (Column::Scalar(a), Column::Scalar(b)) => slices_eq(a, b),
            _ => false,
        }
    }
}

impl<'a, S: Eq + PartialEqSpec> Eq for Column<'a, S> {
}

impl<'a, S: PartialEq + PartialEqSpec> vstd::std_specs::cmp::PartialEqSpecImpl for Column<'a, S> {
    /// Column equality follows `==` on the scalar type for scalar columns; the other
    /// kinds compare plain values.
    open spec fn obeys_eq_spec() -> bool {
        S::obeys_eq_spec()
    }

    open spec fn eq_spec(&self, other: &Column<'a, S>) -> bool {
        match (*self, *other) {
            (Column::Boolean(a), Column::Boolean(b)) => a@ == b@,
            (Column::TinyInt(a), Column::TinyInt(b)) => a@ == b@,
            (Column::Int(a), Column::Int(b)) => a@ == b@,
            (Column::BigInt(a), Column::BigInt(b)) => a@ == b@,
            (Column::Int128(a), Column::Int128(b)) => a@ == b@,
            (Column::VarChar(a), Column::VarChar(b)) => texts_eq_spec(a@, b@),
            (Column::Scalar(a), Column::Scalar(b)) => seqs_eq_spec(a@, b@),
            _ => false,
        }
    }
}

} // verus!
