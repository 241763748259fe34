use proof_of_sql_table::column::Column;
use proof_of_sql_table::column_map::ColumnMap;
use proof_of_sql_table::identifier::{Identifier, IdentifierError};
use proof_of_sql_table::table::{Table, TableError};

fn ident(s: &str) -> Identifier {
    Identifier::try_new(s).unwrap()
}

fn names_of(ids: &[Identifier]) -> Vec<String> {
    ids.iter().map(|id| id.name().to_string()).collect()
}

#[test]
fn bigint_and_varchar_of_three_rows_make_a_table() {
    let a = [1i64, 2, 3];
    let b = ["x", "y", "z"];
    let mut m: ColumnMap<i64> = ColumnMap::new();
    m.insert(ident("a"), Column::BigInt(&a));
    m.insert(ident("b"), Column::VarChar(&b));
    let t = Table::try_new(m).unwrap();
    assert_eq!(t.num_columns(), 2);
    assert_eq!(t.num_rows(), 3);
    assert!(!t.is_empty());
}

#[test]
fn columns_of_two_and_three_rows_are_refused() {
    let a = [1i64, 2];
    let b = ["x", "y", "z"];
    let mut m: ColumnMap<i64> = ColumnMap::new();
    m.insert(ident("a"), Column::BigInt(&a));
    m.insert(ident("b"), Column::VarChar(&b));
    assert_eq!(Table::try_new(m).unwrap_err(), TableError::ColumnLengthMismatch);
}

#[test]
fn mismatch_after_the_first_column_is_refused() {
    let a = [true, false];
    let b = [1i8, 2];
    let c = [7i32];
    let r = Table::<i64>::try_from_iter(vec![
        (ident("a"), Column::Boolean(&a)),
        (ident("b"), Column::TinyInt(&b)),
        (ident("c"), Column::Int(&c)),
    ]);
    assert_eq!(r.unwrap_err(), TableError::ColumnLengthMismatch);
}

#[test]
fn empty_mapping_makes_an_empty_table() {
    let t = Table::<i64>::try_new(ColumnMap::new()).unwrap();
    assert_eq!(t.num_rows(), 0);
    assert_eq!(t.num_columns(), 0);
    assert!(t.is_empty());
    assert!(t.column_names().is_empty());
}

#[test]
fn columns_without_rows_make_a_table_of_zero_rows() {
    let a: [i64; 0] = [];
    let b: [&str; 0] = [];
    let t = Table::<i64>::try_from_iter(vec![
        (ident("a"), Column::BigInt(&a)),
        (ident("b"), Column::VarChar(&b)),
    ])
    .unwrap();
    assert_eq!(t.num_rows(), 0);
    assert_eq!(t.num_columns(), 2);
    assert!(!t.is_empty());
}

#[test]
fn all_kinds_of_equal_length_make_a_table() {
    let a = [true, false, true, true];
    let b = [1i8, -2, 3, 4];
    let c = [10i32, 20, 30, 40];
    let d = [i64::MIN, 0, 1, i64::MAX];
    let e = [i128::MAX, 0, -1, 5];
    let f = ["p", "q", "r", "s"];
    let g = [9u64, 8, 7, 6];
    let t = Table::<u64>::try_from_iter(vec![
        (ident("a"), Column::Boolean(&a)),
        (ident("b"), Column::TinyInt(&b)),
        (ident("c"), Column::Int(&c)),
        (ident("d"), Column::BigInt(&d)),
        (ident("e"), Column::Int128(&e)),
        (ident("f"), Column::VarChar(&f)),
        (ident("g"), Column::Scalar(&g)),
    ])
    .unwrap();
    assert_eq!(t.num_rows(), 4);
    assert_eq!(t.num_columns(), 7);
}

#[test]
fn swapped_columns_make_unequal_tables() {
    let a = [1i64, 2, 3];
    let b = [1i64, 2, 3];
    let t1 = Table::<i64>::try_from_iter(vec![
        (ident("a"), Column::BigInt(&a)),
        (ident("b"), Column::BigInt(&b)),
    ])
    .unwrap();
    let t2 = Table::<i64>::try_from_iter(vec![
        (ident("b"), Column::BigInt(&b)),
        (ident("a"), Column::BigInt(&a)),
    ])
    .unwrap();
    assert!(t1 != t2);
    assert!(t1.inner_table() == t2.inner_table());
}

#[test]
fn tables_with_same_columns_in_same_order_are_equal() {
    let a1 = [1i64, 2];
    let a2 = [1i64, 2];
    let b1 = ["x", "y"];
    let b2 = [String::from("x"), String::from("y")];
    let b2: Vec<&str> = b2.iter().map(|s| s.as_str()).collect();
    let t1 = Table::<i64>::try_from_iter(vec![
        (ident("a"), Column::BigInt(&a1)),
        (ident("b"), Column::VarChar(&b1)),
    ])
    .unwrap();
    let t2 = Table::<i64>::try_from_iter(vec![
        (ident("A"), Column::BigInt(&a2)),
        (ident("b"), Column::VarChar(&b2)),
    ])
    .unwrap();
    assert!(t1 == t2);
}

#[test]
fn tables_with_different_values_are_unequal() {
    let a1 = [1i64, 2];
    let a2 = [1i64, 3];
    let t1 = Table::<i64>::try_from_iter(vec![(ident("a"), Column::BigInt(&a1))]).unwrap();
    let t2 = Table::<i64>::try_from_iter(vec![(ident("a"), Column::BigInt(&a2))]).unwrap();
    assert!(t1 != t2);
    let s1 = [5u64, 6];
    let s2 = [5u64, 7];
    let t3 = Table::<u64>::try_from_iter(vec![(ident("s"), Column::Scalar(&s1))]).unwrap();
    let t4 = Table::<u64>::try_from_iter(vec![(ident("s"), Column::Scalar(&s2))]).unwrap();
    assert!(t3 != t4);
}

#[test]
fn columns_of_different_kinds_are_unequal() {
    let a = [1i64, 2];
    let b = [1i32, 2];
    let t1 = Table::<i64>::try_from_iter(vec![(ident("a"), Column::BigInt(&a))]).unwrap();
    let t2 = Table::<i64>::try_from_iter(vec![(ident("a"), Column::Int(&b))]).unwrap();
    assert!(t1 != t2);
}

#[test]
fn tables_with_different_names_are_unequal() {
    let a = [1i64, 2];
    let t1 = Table::<i64>::try_from_iter(vec![(ident("a"), Column::BigInt(&a))]).unwrap();
    let t2 = Table::<i64>::try_from_iter(vec![(ident("b"), Column::BigInt(&a))]).unwrap();
    assert!(t1 != t2);
}

#[test]
fn into_inner_returns_the_mapping() {
    let a = [1i64, 2, 3];
    let b = ["x", "y", "z"];
    let mut m: ColumnMap<i64> = ColumnMap::new();
    m.insert(ident("zeta"), Column::BigInt(&a));
    m.insert(ident("alpha"), Column::VarChar(&b));
    let mut expected: ColumnMap<i64> = ColumnMap::new();
    expected.insert(ident("zeta"), Column::BigInt(&a));
    expected.insert(ident("alpha"), Column::VarChar(&b));
    let back = Table::try_new(m).unwrap().into_inner();
    assert!(back == expected);
    assert_eq!(names_of(back.keys_slice()), vec!["zeta", "alpha"]);
    assert_eq!(back.len(), 2);
    assert_eq!(back.values_slice()[0].len(), 3);
}

#[test]
fn column_names_follow_insertion_order_on_every_call() {
    let a = [1i64];
    let t = Table::<i64>::try_from_iter(vec![
        (ident("c"), Column::BigInt(&a)),
        (ident("a"), Column::BigInt(&a)),
        (ident("b"), Column::BigInt(&a)),
    ])
    .unwrap();
    let first = names_of(t.column_names());
    let second = names_of(t.column_names());
    assert_eq!(first, vec!["c", "a", "b"]);
    assert_eq!(first, second);
}

#[test]
fn repeated_identifier_keeps_its_place_and_takes_the_last_column() {
    let a = [1i64, 2];
    let b = [3i64, 4];
    let c = [5i64, 6, 7];
    let t = Table::<i64>::try_from_iter(vec![
        (ident("a"), Column::BigInt(&c)),
        (ident("b"), Column::BigInt(&b)),
        (ident("a"), Column::BigInt(&a)),
    ])
    .unwrap();
    assert_eq!(t.num_columns(), 2);
    assert_eq!(t.num_rows(), 2);
    assert_eq!(names_of(t.column_names()), vec!["a", "b"]);
    assert!(t.inner_table().get(&ident("a")) == Some(&Column::BigInt(&a)));
}

#[test]
fn map_insert_returns_the_replaced_column() {
    let a = [1i64, 2];
    let b = [3i64, 4];
    let mut m: ColumnMap<i64> = ColumnMap::new();
    assert!(m.is_empty());
    assert!(m.insert(ident("a"), Column::BigInt(&a)).is_none());
    let prev = m.insert(ident("a"), Column::BigInt(&b));
    assert!(prev == Some(Column::BigInt(&a)));
    assert_eq!(m.len(), 1);
    assert_eq!(m.get_index_of(&ident("a")), Some(0));
    assert_eq!(m.get_index_of(&ident("b")), None);
    assert!(m.get(&ident("b")).is_none());
    let (id, col) = m.get_index(0).unwrap();
    assert_eq!(id.name(), "a");
    assert!(*col == Column::BigInt(&b));
    assert!(m.get_index(1).is_none());
}

#[test]
fn maps_compare_regardless_of_order() {
    let a = [1i64];
    let b = [2i64];
    let m1 = ColumnMap::<i64>::from_pairs(vec![
        (ident("a"), Column::BigInt(&a)),
        (ident("b"), Column::BigInt(&b)),
    ]);
    let m2 = ColumnMap::<i64>::from_pairs(vec![
        (ident("b"), Column::BigInt(&b)),
        (ident("a"), Column::BigInt(&a)),
    ]);
    let m3 = ColumnMap::<i64>::from_pairs(vec![
        (ident("b"), Column::BigInt(&a)),
        (ident("a"), Column::BigInt(&b)),
    ]);
    assert!(m1 == m2);
    assert!(m1 != m3);
}

#[test]
fn column_len_counts_values() {
    let b = ["x", "yy"];
    let c: Column<u64> = Column::VarChar(&b);
    assert_eq!(c.len(), 2);
    assert!(!c.is_empty());
    let e: [u64; 0] = [];
    assert!(Column::Scalar(&e).is_empty());
}

#[test]
fn identifier_names_are_lower_case() {
    let id = ident("Good_Name13");
    assert_eq!(id.name(), "good_name13");
    assert!(ident("ABC") == ident("abc"));
    assert!(ident("abc") != ident("abd"));
}

#[test]
fn malformed_identifiers_are_refused() {
    assert_eq!(Identifier::try_new("1abc").unwrap_err(), IdentifierError::InvalidIdentifier);
    assert_eq!(Identifier::try_new("a b").unwrap_err(), IdentifierError::InvalidIdentifier);
    assert_eq!(Identifier::try_new("").unwrap_err(), IdentifierError::InvalidIdentifier);
    let long = "a".repeat(65);
    assert_eq!(Identifier::try_new(&long).unwrap_err(), IdentifierError::InvalidIdentifier);
    assert!(Identifier::try_new(&"a".repeat(64)).is_ok());
}

#[test]
fn error_messages() {
    assert_eq!(TableError::ColumnLengthMismatch.message(), "Columns have different lengths");
    assert_eq!(IdentifierError::InvalidIdentifier.message(), "Unable to parse identifier");
}

fn column<'b, 'a>(t: &'b Table<'a, i64>, name: &str) -> &'b Column<'a, i64> {
    t.inner_table().get(&ident(name)).unwrap()
}

#[test]
fn columns_are_found_by_name() {
    let a = [1i64, 2];
    let b = ["x", "y"];
    let t = Table::<i64>::try_from_iter(vec![
        (ident("a"), Column::BigInt(&a)),
        (ident("b"), Column::VarChar(&b)),
    ])
    .unwrap();
    assert!(*column(&t, "B") == Column::VarChar(&b));
    assert!(*column(&t, "a") == Column::BigInt(&a));
    assert!(t.inner_table().get(&ident("c")).is_none());
}
