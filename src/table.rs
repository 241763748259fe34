//! Tables: column maps whose columns all have the same number of rows.

use vstd::prelude::*;
use vstd::std_specs::cmp::PartialEqSpec;
use crate::column::Column;
use crate::column_map::{ColumnMap, entries_from_pairs, key_views, unique_keys};
use crate::identifier::Identifier;

verus! {

/// An error that occurs when building a table.
#[derive(Debug, Clone, Copy, PartialEq, Eq, Structural)]
pub enum TableError {
    /// The columns have different lengths.
    ColumnLengthMismatch,
}

impl TableError {
    /// A human-readable description of the error.
    pub fn message(&self) -> (r: String) {
        match self {
            TableError::ColumnLengthMismatch => String::from_str("Columns have different lengths"),
        }
    }
}

/// Every column of `cols` has exactly `n` values.
pub open spec fn all_of_length<'a, S>(cols: Seq<Column<'a, S>>, n: nat) -> bool {
    forall|i: int| 0 <= i < cols.len() ==> (#[trigger] cols[i]).spec_len() == n
}

/// The row count of a table with columns `cols`: the length of the first column, or 0
/// where there is none.
pub open spec fn row_count<'a, S>(cols: Seq<Column<'a, S>>) -> nat {
    if cols.len() == 0 {
        0
    } else {
        cols[0].spec_len()
    }
}

/// All columns of `cols` have the length of the first one.
pub open spec fn uniform_lengths<'a, S>(cols: Seq<Column<'a, S>>) -> bool {
    all_of_length(cols, row_count(cols))
}

/// A table of data, with schema included: identifiers mapped to columns of equal length,
/// where the order of the columns matters.
#[derive(Debug)]
pub struct Table<'a, S> {
    table: ColumnMap<'a, S>,
    num_rows: usize,
}

impl<'a, S> Table<'a, S> {
    /// Every column has `num_rows` values; without columns there are no rows.
    #[verifier::type_invariant]
    pub closed spec fn inv(&self) -> bool {
        &&& self.table.spec_len() == 0 ==> self.num_rows == 0
        &&& all_of_length(self.table.columns(), self.num_rows as nat)
    }

    /// The map of identifiers to columns that the table holds.
    pub closed spec fn mapping(&self) -> ColumnMap<'a, S> {
        self.table
    }

    /// The number of rows.
    pub closed spec fn spec_num_rows(&self) -> nat {
        self.num_rows as nat
    }

    /// The table that holds the map `m`, with the row count of its columns.
    pub closed spec fn from_mapping(m: ColumnMap<'a, S>) -> Table<'a, S> {
        Table { table: m, num_rows: row_count(m.columns()) as usize }
    }

    /// Builds a table from `table`. Without columns, the table has no rows; otherwise the
    /// first column gives the row count, and every column must have that length.
    pub fn try_new(table: ColumnMap<'a, S>) -> (r: Result<Self, TableError>)
        ensures
            r is Ok <==> uniform_lengths(table.columns()),
            r matches Err(e) ==> e == TableError::ColumnLengthMismatch,
            r matches Ok(t) ==> t == Table::from_mapping(table) && t.mapping() == table
                && t.spec_num_rows() == row_count(table.columns()),
    {
        proof {
            use_type_invariant(&table);
        }
        if table.is_empty() {
            return Ok(Table { table, num_rows: 0 });
        }
        let columns = table.values_slice();
        let num_rows = columns[0].len();
        let mut i: usize = 0;
        while i < columns.len()
            invariant
                i <= columns@.len(),
                columns@ == table.columns(),
                num_rows == row_count(table.columns()),
                forall|j: int| 0 <= j < i ==> (#[trigger] columns@[j]).spec_len() == num_rows,
            decreases columns@.len() - i,
        {
            if columns[i].len() != num_rows {
                return Err(TableError::ColumnLengthMismatch);
            }
            i = i + 1;
        }
        Ok(Table { table, num_rows })
    }

    /// Builds a table from `pairs`, inserted in order into an empty map: a later pair whose
    /// identifier is already present replaces that identifier's column in place.
    pub fn try_from_iter(pairs: Vec<(Identifier, Column<'a, S>)>) -> (r: Result<Self, TableError>)
        ensures
            r is Ok <==> uniform_lengths(entries_from_pairs(pairs@).1),
            r matches Err(e) ==> e == TableError::ColumnLengthMismatch,
            r matches Ok(t) ==> (t.mapping().names(), t.mapping().columns()) == entries_from_pairs(
                pairs@,
            ) && t.spec_num_rows() == row_count(entries_from_pairs(pairs@).1),
    {
        Self::try_new(ColumnMap::from_pairs(pairs))
    }

    /// The number of columns.
    pub fn num_columns(&self) -> (r: usize)
        ensures
            r == self.mapping().spec_len(),
    {
        self.table.len()
    }

    /// The number of rows.
    pub fn num_rows(&self) -> (r: usize)
        ensures
            r == self.spec_num_rows(),
    {
        self.num_rows
    }

    /// Whether the table has no columns.
    pub fn is_empty(&self) -> (r: bool)
        ensures
            r == (self.mapping().spec_len() == 0),
    {
        self.table.is_empty()
    }

    /// Gives up the table and returns its map of identifiers to columns.
    pub fn into_inner(self) -> (r: ColumnMap<'a, S>)
        ensures
            r == self.mapping(),
    {
        self.table
    }

    /// The map of identifiers to columns.
    pub fn inner_table(&self) -> (r: &ColumnMap<'a, S>)
        ensures
            *r == self.mapping(),
    {
        &self.table
    }

    /// The column identifiers, in the order of the map that the table was built from.
    pub fn column_names(&self) -> (r: &[Identifier])
        ensures
            r@ == self.mapping().names(),
    {
        self.table.keys_slice()
    }
}

/// Whether the identifiers of `a` and `b` have the same names at every position that both
/// have.
fn names_in_same_order(a: &[Identifier], b: &[Identifier]) -> (r: bool)
    ensures
        r == forall|i: int| 0 <= i < a@.len() && i < b@.len() ==> (#[trigger] a@[i])@ == b@[i]@,
{
    let mut i: usize = 0;
    while i < a.len() && i < b.len()
        invariant
            i <= a@.len(),
            forall|j: int| 0 <= j < i && j < b@.len() ==> (#[trigger] a@[j])@ == b@[j]@,
        decreases a@.len() - i,
    {
        if a[i] != b[i] {
            return false;
        }
        i = i + 1;
    }
    true
}

impl<'a, S: PartialEq + PartialEqSpec> PartialEq for Table<'a, S> {
    /// Equal maps, with the identifiers in the same order.
    fn eq(&self, other: &Self) -> (r: bool) {
        let same_map = self.table == other.table;
        if !same_map {
            return false;
        }
        let same_order = names_in_same_order(self.table.keys_slice(), other.table.keys_slice());
        proof {
            if S::obeys_eq_spec() && same_order {
                let k1 = self.mapping().keys();
                let k2 = other.mapping().keys();
                assert forall|i: int| 0 <= i < k1.len() implies k1[i] == k2[i] by {
                    assert(self.mapping().names()[i]@ == other.mapping().names()[i]@);
                }
                assert(k1 =~= k2);
            }
            if !same_order {
                assert(self.mapping().keys() != other.mapping().keys()) by {
                    let i = choose|i: int|
                        0 <= i < self.mapping().names().len() && i < other.mapping().names().len()
                            && (#[trigger] self.mapping().names()[i])@ != other.mapping().names()[i]@;
                    assert(self.mapping().keys()[i] != other.mapping().keys()[i]);
                }
            }
        }
        same_order
    }
}

impl<'a, S: Eq + PartialEqSpec> Eq for Table<'a, S> {
}

impl<'a, S: PartialEq + PartialEqSpec> vstd::std_specs::cmp::PartialEqSpecImpl for Table<'a, S> {
    open spec fn obeys_eq_spec() -> bool {
        S::obeys_eq_spec()
    }

    /// The maps are equal and list the identifiers in the same order.
    open spec fn eq_spec(&self, other: &Table<'a, S>) -> bool {
        &&& <ColumnMap<'a, S> as PartialEqSpec>::eq_spec(&self.mapping(), &other.mapping())
        &&& self.mapping().keys() == other.mapping().keys()
    }
}

/// A non-empty map whose columns all have `l` values makes a table of `l` rows.
pub proof fn lemma_equal_lengths_give_row_count<'a, S>(m: ColumnMap<'a, S>, l: nat)
    requires
        m.wf(),
        m.spec_len() > 0,
        all_of_length(m.columns(), l),
    ensures
        uniform_lengths(m.columns()),
        row_count(m.columns()) == l,
{
}

/// A map with two columns of different lengths makes no table.
pub proof fn lemma_length_mismatch_refused<'a, S>(m: ColumnMap<'a, S>, i: int, j: int)
    requires
        0 <= i < m.columns().len(),
        0 <= j < m.columns().len(),
        m.columns()[i].spec_len() != m.columns()[j].spec_len(),
    ensures
        !uniform_lengths(m.columns()),
{
}

/// The empty map makes a table without rows.
pub proof fn lemma_empty_mapping<'a, S>(m: ColumnMap<'a, S>)
    requires
        m.wf(),
        m.spec_len() == 0,
    ensures
        uniform_lengths(m.columns()),
        row_count(m.columns()) == 0,
{
}

/// Tables whose identifiers stand in a different order are unequal, whatever their
/// columns hold.
pub proof fn lemma_order_sensitive_eq<'a, S: PartialEqSpec>(t1: Table<'a, S>, t2: Table<'a, S>)
    requires
        t1.mapping().keys() != t2.mapping().keys(),
    ensures
        !<Table<'a, S> as PartialEqSpec>::eq_spec(&t1, &t2),
{
}

/// Two columns `a`, `b` in that order make a table unequal to one with `b`, `a`.
pub proof fn lemma_swapped_columns_unequal<'a, S: PartialEqSpec>(
    t1: Table<'a, S>,
    t2: Table<'a, S>,
)
    requires
        t1.mapping().wf(),
        t1.mapping().spec_len() == 2,
        t2.mapping().keys() == seq![t1.mapping().keys()[1], t1.mapping().keys()[0]],
    ensures
        !<Table<'a, S> as PartialEqSpec>::eq_spec(&t1, &t2),
{
    let k = t1.mapping().keys();
    assert(k[0] != k[1]);
    assert(t2.mapping().keys()[0] != k[0]);
}

/// The table built from a map hands back that very map.
pub proof fn lemma_round_trip<'a, S>(m: ColumnMap<'a, S>)
    ensures
        Table::from_mapping(m).mapping() == m,
{
}

/// Pairs with distinct identifiers give a map that lists them in the order given, each
/// with its own column.
pub proof fn lemma_insertion_order_kept<'a, S>(pairs: Seq<(Identifier, Column<'a, S>)>)
    requires
        unique_keys(pairs.map_values(|p: (Identifier, Column<'a, S>)| p.0@)),
    ensures
        key_views(entries_from_pairs(pairs).0) == pairs.map_values(
            |p: (Identifier, Column<'a, S>)| p.0@,
        ),
        entries_from_pairs(pairs).1 == pairs.map_values(|p: (Identifier, Column<'a, S>)| p.1),
    decreases pairs.len(),
{
    if pairs.len() > 0 {
        let init = pairs.drop_last();
        let ks = pairs.map_values(|p: (Identifier, Column<'a, S>)| p.0@);
        let init_ks = init.map_values(|p: (Identifier, Column<'a, S>)| p.0@);
        assert(init_ks =~= ks.drop_last());
        assert(unique_keys(init_ks)) by {
            assert forall|a: int, b: int|
                0 <= a < init_ks.len() && 0 <= b < init_ks.len() && a != b implies #[trigger] init_ks[a]
                != #[trigger] init_ks[b] by {
                assert(init_ks[a] == ks[a] && init_ks[b] == ks[b]);
            }
        }
        lemma_insertion_order_kept(init);
        let prev = entries_from_pairs(init);
        let last = pairs.last();
        assert(!crate::column_map::has_key(prev.0, last.0@)) by {
            if crate::column_map::has_key(prev.0, last.0@) {
                let i = choose|i: int| 0 <= i < prev.0.len() && (#[trigger] prev.0[i])@ == last.0@;
                assert(key_views(prev.0)[i] == ks[i]);
                assert(ks[pairs.len() - 1] == last.0@);
            }
        }
        assert(entries_from_pairs(pairs) == (prev.0.push(last.0), prev.1.push(last.1)));
        assert(key_views(prev.0.push(last.0)) =~= key_views(prev.0).push(last.0@));
        assert(ks =~= init_ks.push(last.0@));
        assert(key_views(entries_from_pairs(pairs).0) =~= ks);
        assert(entries_from_pairs(pairs).1 =~= pairs.map_values(
            |p: (Identifier, Column<'a, S>)| p.1,
        ));
    }
}

} // verus!
