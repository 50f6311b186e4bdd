use intricate::layout::flatten;
use intricate::layout::flatten_rows;
use intricate::layout::unflatten;

#[test]
fn flatten_lays_rows_one_after_another() {
    let m: Vec<Vec<f32>> = vec![vec![1.0, 2.0, 3.0], vec![4.0, 5.0, 6.0]];
    assert_eq!(flatten(&m), vec![1.0, 2.0, 3.0, 4.0, 5.0, 6.0]);
}

#[test]
fn flatten_takes_rows_of_any_length() {
    let m: Vec<Vec<u8>> = vec![vec![1], vec![], vec![2, 3]];
    assert_eq!(flatten(&m), vec![1, 2, 3]);
    let none: Vec<Vec<u8>> = vec![];
    assert_eq!(flatten(&none), Vec::<u8>::new());
}

#[test]
fn unflatten_reads_rows_back() {
    let flat: Vec<f32> = vec![1.0, 2.0, 3.0, 4.0, 5.0, 6.0];
    assert_eq!(unflatten(&flat, 2, 3), Some(vec![vec![1.0, 2.0, 3.0], vec![4.0, 5.0, 6.0]]));
    assert_eq!(unflatten(&flat, 3, 2), Some(vec![vec![1.0, 2.0], vec![3.0, 4.0], vec![5.0, 6.0]]));
}

#[test]
fn unflatten_refuses_a_wrong_shape() {
    let flat: Vec<f32> = vec![1.0, 2.0, 3.0, 4.0, 5.0, 6.0];
    assert_eq!(unflatten(&flat, 4, 2), None);
    assert_eq!(unflatten(&flat, 2, 2), None);
    assert_eq!(unflatten(&flat, usize::MAX, 2), None);
}

#[test]
fn unflatten_of_nothing() {
    let flat: Vec<f32> = vec![];
    assert_eq!(unflatten(&flat, 0, 7), Some(vec![]));
    assert_eq!(unflatten(&flat, 2, 0), Some(vec![vec![], vec![]]));
}

#[test]
fn flatten_undoes_unflatten_and_back() {
    let flat: Vec<i32> = (0..12).collect();
    let m = unflatten(&flat, 3, 4).unwrap();
    assert_eq!(m[2][1], flat[2 * 4 + 1]);
    assert_eq!(flatten(&m), flat);
    assert_eq!(unflatten(&flatten(&m), 3, 4), Some(m));
}

#[test]
fn flatten_rows_takes_a_stretch_of_rows() {
    let m: Vec<Vec<u8>> = vec![vec![1, 2], vec![3, 4], vec![5, 6], vec![7, 8]];
    assert_eq!(flatten_rows(&m, 1, 2), Some(vec![3, 4, 5, 6]));
    assert_eq!(flatten_rows(&m, 0, 4), Some(flatten(&m)));
    assert_eq!(flatten_rows(&m, 4, 0), Some(vec![]));
    assert_eq!(flatten_rows(&m, 3, 2), None);
    assert_eq!(flatten_rows(&m, 5, 0), None);
    assert_eq!(flatten_rows(&m, 1, usize::MAX), None);
}
