use mmio_bus::table::{find_first, range_is_valid, ranges_overlap, table_is_disjoint};

#[test]
fn valid_ranges() {
    assert!(range_is_valid((0, 0)));
    assert!(range_is_valid((0, 65536)));
    assert!(range_is_valid((65536, 65536)));
    assert!(range_is_valid((5, 7)));
    assert!(!range_is_valid((7, 5)));
    assert!(!range_is_valid((0, 65537)));
}

#[test]
fn overlap_means_a_shared_address() {
    assert!(ranges_overlap((0, 4), (3, 5)));
    assert!(ranges_overlap((3, 5), (0, 4)));
    assert!(ranges_overlap((0, 10), (2, 3)));
    assert!(ranges_overlap((2, 3), (2, 3)));
    assert!(!ranges_overlap((0, 4), (4, 8)));
    assert!(!ranges_overlap((4, 8), (0, 4)));
    assert!(!ranges_overlap((5, 5), (0, 10)));
    assert!(!ranges_overlap((0, 10), (5, 5)));
    assert!(!ranges_overlap((5, 5), (5, 5)));
}

#[test]
fn find_first_returns_the_first_entry_that_contains() {
    let table = vec![(0, 2), (10, 12), (11, 20)];
    assert_eq!(find_first(&table, 0), Some(0));
    assert_eq!(find_first(&table, 1), Some(0));
    assert_eq!(find_first(&table, 2), None);
    assert_eq!(find_first(&table, 10), Some(1));
    assert_eq!(find_first(&table, 11), Some(1));
    assert_eq!(find_first(&table, 12), Some(2));
    assert_eq!(find_first(&table, 20), None);
    assert_eq!(find_first(&Vec::new(), 0), None);
}

#[test]
fn disjoint_tables() {
    assert!(table_is_disjoint(&Vec::new()));
    assert!(table_is_disjoint(&vec![(0, 2)]));
    assert!(table_is_disjoint(&vec![(0, 2), (2, 4), (10, 12)]));
    assert!(!table_is_disjoint(&vec![(0, 2), (10, 12), (1, 3)]));
    assert!(!table_is_disjoint(&vec![(0, 2), (10, 12), (11, 13)]));
}
