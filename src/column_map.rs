//! An insertion-ordered map from identifiers to columns.

use vstd::prelude::*;
use vstd::std_specs::cmp::PartialEqSpec;
use crate::column::Column;
use crate::identifier::Identifier;

verus! {

/// No two positions of `keys` hold the same name.
pub open spec fn unique_keys(keys: Seq<Seq<char>>) -> bool {
    forall|i: int, j: int|
        0 <= i < keys.len() && 0 <= j < keys.len() && i != j ==> #[trigger] keys[i] != #[trigger] keys[j]
}

/// The names of a sequence of identifiers.
pub open spec fn key_views(names: Seq<Identifier>) -> Seq<Seq<char>> {
    names.map_values(|id: Identifier| id@)
}

/// Whether some identifier of `names` has the name `k`.
pub open spec fn has_key(names: Seq<Identifier>, k: Seq<char>) -> bool {
    exists|i: int| 0 <= i < names.len() && (#[trigger] names[i])@ == k
}

/// The first position of an identifier named `k` in `names`, where there is one.
pub open spec fn position_of(names: Seq<Identifier>, k: Seq<char>) -> int {
    choose|i: int|
        0 <= i < names.len() && (#[trigger] names[i])@ == k && forall|j: int|
            0 <= j < i ==> (#[trigger] names[j])@ != k
}

/// The entries after inserting `(id, col)` into the entries `(names, cols)`: an identifier
/// already present keeps its position and its column is replaced; a new one goes last.
pub open spec fn insert_entry<'a, S>(
    names: Seq<Identifier>,
    cols: Seq<Column<'a, S>>,
    id: Identifier,
    col: Column<'a, S>,
) -> (Seq<Identifier>, Seq<Column<'a, S>>) {
    if has_key(names, id@) {
        (names, cols.update(position_of(names, id@), col))
    } else {
        (names.push(id), cols.push(col))
    }
}

/// The entries built by inserting each pair in turn into an empty map.
pub open spec fn entries_from_pairs<'a, S>(pairs: Seq<(Identifier, Column<'a, S>)>) -> (
    Seq<Identifier>,
    Seq<Column<'a, S>>,
)
    decreases pairs.len(),
{
    if pairs.len() == 0 {
        (Seq::empty(), Seq::empty())
    } else {
        let prev = entries_from_pairs(pairs.drop_last());
        insert_entry(prev.0, prev.1, pairs.last().0, pairs.last().1)
    }
}

/// Identifiers mapped to columns, kept in the order in which the identifiers were first
/// inserted. Each identifier occurs at most once.
#[derive(Debug)]
pub struct ColumnMap<'a, S> {
    names: Vec<Identifier>,
    columns: Vec<Column<'a, S>>,
}

impl<'a, S> ColumnMap<'a, S> {
    /// The identifiers, in insertion order.
    pub closed spec fn names(&self) -> Seq<Identifier> {
        self.names@
    }

    /// The columns, position for position with `names()`.
    pub closed spec fn columns(&self) -> Seq<Column<'a, S>> {
        self.columns@
    }

    /// The names of the identifiers, in insertion order.
    pub open spec fn keys(&self) -> Seq<Seq<char>> {
        key_views(self.names())
    }

    /// The number of entries.
    pub open spec fn spec_len(&self) -> nat {
        self.names().len()
    }

    /// Each identifier has one column, and no name occurs twice.
    #[verifier::type_invariant]
    pub open spec fn wf(&self) -> bool {
        &&& self.names().len() == self.columns().len()
        &&& unique_keys(self.keys())
    }

    /// An empty map.
    pub fn new() -> (r: Self)
        ensures
            r.wf(),
            r.names() == Seq::<Identifier>::empty(),
            r.columns() == Seq::<Column<'a, S>>::empty(),
    {
        let r = ColumnMap { names: Vec::new(), columns: Vec::new() };
        assert(r.keys() =~= Seq::<Seq<char>>::empty());
        r
    }

    /// The number of entries.
    pub fn len(&self) -> (r: usize)
        ensures
            r == self.spec_len(),
    {
        self.names.len()
    }

    /// Whether the map has no entries.
    pub fn is_empty(&self) -> (r: bool)
        ensures
            r == (self.spec_len() == 0),
    {
        self.names.len() == 0
    }

    /// The position of the identifier named like `id`, if there is one.
    pub fn get_index_of(&self, id: &Identifier) -> (r: Option<usize>)
        ensures
            r is Some <==> has_key(self.names(), id@),
            r matches Some(i) ==> i < self.spec_len() && i == position_of(self.names(), id@),
    {
        proof {
            use_type_invariant(self);
        }
        let mut i: usize = 0;
        while i < self.names.len()
            invariant
                self.wf(),
                i <= self.names@.len(),
                forall|j: int| 0 <= j < i ==> (#[trigger] self.names@[j])@ != id@,
            decreases self.names@.len() - i,
        {
            if self.names[i] == *id {
                proof {
                    assert(self.names()[i as int]@ == id@);
                    let p = position_of(self.names(), id@);
                    assert(0 <= p < self.names().len() && self.names()[p]@ == id@);
                    assert(self.keys()[p] == self.names()[p]@);
                    assert(self.keys()[i as int] == self.names()[i as int]@);
                }
                return Some(i);
            }
            i = i + 1;
        }
        None
    }

    /// The column of the identifier named like `id`, if there is one.
    pub fn get(&self, id: &Identifier) -> (r: Option<&Column<'a, S>>)
        ensures
            r is Some <==> has_key(self.names(), id@),
            r matches Some(c) ==> *c == self.columns()[position_of(self.names(), id@)],
    {
        proof {
            use_type_invariant(self);
        }
        match self.get_index_of(id) {
            Some(i) => Some(&self.columns[i]),
            None => None,
        }
    }

    /// The identifier and column at position `i`, if `i` is a position of the map.
    pub fn get_index(&self, i: usize) -> (r: Option<(&Identifier, &Column<'a, S>)>)
        ensures
            r is Some <==> i < self.spec_len(),
            r matches Some(e) ==> *e.0 == self.names()[i as int] && *e.1 == self.columns()[i as int],
    {
        proof {
            use_type_invariant(self);
        }
        if i < self.names.len() {
            Some((&self.names[i], &self.columns[i]))
        } else {
            None
        }
    }

    /// Inserts `col` under `id`. An identifier already present keeps its position, its
    /// column is replaced and returned; a new identifier goes after all others.
    pub fn insert(&mut self, id: Identifier, col: Column<'a, S>) -> (r: Option<Column<'a, S>>)
        ensures
            final(self).wf(),
            (final(self).names(), final(self).columns()) == insert_entry(
                old(self).names(),
                old(self).columns(),
                id,
                col,
            ),
            r is Some <==> has_key(old(self).names(), id@),
            r matches Some(c) ==> c == old(self).columns()[position_of(old(self).names(), id@)],
    {
        proof {
            use_type_invariant(&*self);
        }
        let found = self.get_index_of(&id);
        let mut taken = ColumnMap::new();
        std::mem::swap(self, &mut taken);
        proof {
            use_type_invariant(&taken);
        }
        let ColumnMap { mut names, mut columns } = taken;
        match found {
            Some(i) => {
                let prev = columns.remove(i);
                columns.insert(i, col);
                assert(columns@ =~= old(self).columns@.update(i as int, col));
                *self = ColumnMap { names, columns };
                Some(prev)
            },
            None => {
                names.push(id);
                columns.push(col);
                proof {
                    let keys = key_views(names@);
                    let n = old(self).names@.len() as int;
                    assert forall|a: int, b: int|
                        0 <= a < keys.len() && 0 <= b < keys.len() && a != b implies #[trigger] keys[a]
                        != #[trigger] keys[b] by {
                        assert(keys[a] == names@[a]@);
                        assert(keys[b] == names@[b]@);
                        if a < n && b < n {
                            assert(old(self).keys()[a] == keys[a]);
                            assert(old(self).keys()[b] == keys[b]);
                        } else if a == n {
                            assert(old(self).names@[b] == names@[b]);
                        } else {
                            assert(old(self).names@[a] == names@[a]);
                        }
                    }
                }
                *self = ColumnMap { names, columns };
                None
            },
        }
    }

    /// The map holding the pairs in order, where a later pair with an identifier already
    /// present replaces that identifier's column.
    pub fn from_pairs(pairs: Vec<(Identifier, Column<'a, S>)>) -> (r: Self)
        ensures
            r.wf(),
            (r.names(), r.columns()) == entries_from_pairs(pairs@),
    {
        let ghost all = pairs@;
        let mut pairs = pairs;
        let mut r = ColumnMap::new();
        let ghost k: int = 0;
        while pairs.len() > 0
            invariant
                r.wf(),
                0 <= k <= all.len(),
                pairs@ == all.skip(k),
                (r.names(), r.columns()) == entries_from_pairs(all.take(k)),
            decreases pairs@.len(),
        {
            let (id, col) = pairs.remove(0);
            proof {
                assert(all.take(k + 1).drop_last() =~= all.take(k));
                assert(all[k] == (id, col));
            }
            r.insert(id, col);
            proof {
                k = k + 1;
                assert(pairs@ =~= all.skip(k));
            }
        }
        assert(all.take(k) =~= all);
        r
    }

    /// The identifiers, in insertion order.
    pub fn keys_slice(&self) -> (r: &[Identifier])
        ensures
            r@ == self.names(),
    {
        self.names.as_slice()
    }

    /// The columns, in insertion order of their identifiers.
    pub fn values_slice(&self) -> (r: &[Column<'a, S>])
        ensures
            r@ == self.columns(),
    {
        self.columns.as_slice()
    }
}

/// Whether the entry at position `i` of `a` has a counterpart in `b`: an identifier with
/// the same name, whose column is equal to it.
pub open spec fn entry_matches<'a, S: PartialEqSpec>(
    a: &ColumnMap<'a, S>,
    b: &ColumnMap<'a, S>,
    i: int,
) -> bool {
    &&& has_key(b.names(), a.keys()[i])
    &&& a.columns()[i].eq_spec(&b.columns()[position_of(b.names(), a.keys()[i])])
}

impl<'a, S: PartialEq + PartialEqSpec> PartialEq for ColumnMap<'a, S> {
    /// Map equality: the same number of entries, and each entry of `self` has an equal
    /// counterpart in `other`, wherever it stands there.
    fn eq(&self, other: &Self) -> (r: bool) {
        proof {
            use_type_invariant(self);
            use_type_invariant(other);
        }
        if self.names.len() != other.names.len() {
            return false;
        }
        let mut i: usize = 0;
        while i < self.names.len()
            invariant
                self.wf(),
                other.wf(),
                self.spec_len() == other.spec_len(),
                i <= self.spec_len(),
                S::obeys_eq_spec() ==> forall|j: int|
                    0 <= j < i ==> #[trigger] entry_matches(self, other, j),
            decreases self.spec_len() - i,
        {
            assert(self.keys()[i as int] == self.names@[i as int]@);
            match other.get_index_of(&self.names[i]) {
                Some(j) => {
                    if self.columns[i] != other.columns[j] {
                        assert(S::obeys_eq_spec() ==> !entry_matches(self, other, i as int));
                        return false;
                    }
                },
                None => {
                    assert(!entry_matches(self, other, i as int));
                    return false;
                },
            }
            i = i + 1;
        }
        true
    }
}

impl<'a, S: Eq + PartialEqSpec> Eq for ColumnMap<'a, S> {
}

impl<'a, S: PartialEq + PartialEqSpec> vstd::std_specs::cmp::PartialEqSpecImpl for ColumnMap<'a, S> {
    open spec fn obeys_eq_spec() -> bool {
        S::obeys_eq_spec()
    }

    open spec fn eq_spec(&self, other: &ColumnMap<'a, S>) -> bool {
        &&& self.spec_len() == other.spec_len()
        &&& forall|i: int| 0 <= i < self.spec_len() ==> #[trigger] entry_matches(self, other, i)
    }
}

} // verus!
