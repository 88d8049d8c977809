use gene::cell::Cell;

#[test]
fn cell_new() {
    let cell = Cell::new(10, Vec::new());
    assert_eq!(cell.id, 10);
    assert_eq!(cell.score, 0);
    assert_eq!(cell.genetic_code.len(), 0);
}

#[test]
fn cell_breed() {
    let cell_a = Cell::new(10, vec![1, 2, 3, 4]);
    let cell_b = Cell::new(11, vec![5, 6, 7, 8]);

    let cell_c_code = cell_a.breed(&cell_b);
    assert_eq!(cell_c_code, vec![1, 2, 7, 8]);
}

#[test]
fn cell_breed_odd_length_pivots_down() {
    let cell_a = Cell::new(0, vec![1, 2, 3, 4, 5]);
    let cell_b = Cell::new(1, vec![6, 7, 8, 9, 10]);

    let child = cell_a.breed(&cell_b);
    assert_eq!(child, vec![1, 2, 8, 9, 10]);
}

#[test]
fn cell_breed_keeps_both_halves() {
    let cell_a = Cell::new(0, vec![9; 6]);
    let cell_b = Cell::new(1, vec![4; 6]);

    let child = cell_a.breed(&cell_b);
    assert_eq!(&child[..3], &[9, 9, 9]);
    assert_eq!(&child[3..], &[4, 4, 4]);
}
