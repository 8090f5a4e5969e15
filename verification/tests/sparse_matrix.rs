use sync_primitives::compressed_sparse_row::CompressedSparseRow;

#[test]
fn test_sparse_matrix() {
    let matrix: Vec<Vec<i64>> = vec![
        vec![0, 0, 0, 0],
        vec![5, 8, 0, 0],
        vec![0, 0, 3, 0],
        vec![0, 6, 0, 0],
        vec![0, 2, 0, 1],
    ];

    let csr = CompressedSparseRow::new(matrix.clone());

    let reconstructed = csr.reconstruct();
    assert_eq!(reconstructed, matrix);

    assert_eq!(csr.get(1, 0), 5);
    assert_eq!(csr.get(1, 1), 8);
    assert_eq!(csr.get(2, 2), 3);
    assert_eq!(csr.get(3, 1), 6);
    assert_eq!(csr.get(4, 1), 2);
    assert_eq!(csr.get(4, 3), 1);
    assert_eq!(csr.get(0, 0), 0);
}

#[test]
fn all_zero_matrix_reconstructs() {
    let matrix: Vec<Vec<i64>> = vec![vec![0, 0, 0], vec![0, 0, 0]];
    let csr = CompressedSparseRow::new(matrix.clone());
    assert_eq!(csr.reconstruct(), matrix);
    assert_eq!(csr.get(0, 0), 0);
    assert_eq!(csr.get(1, 2), 0);
}

#[test]
fn single_row_matrix() {
    let matrix: Vec<Vec<i64>> = vec![vec![7, 0, -3]];
    let csr = CompressedSparseRow::new(matrix.clone());
    assert_eq!(csr.reconstruct(), matrix);
    assert_eq!(csr.get(0, 0), 7);
    assert_eq!(csr.get(0, 1), 0);
    assert_eq!(csr.get(0, 2), -3);
}
