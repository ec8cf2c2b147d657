use uimage::body::assemble;

#[test]
fn chunks_are_joined() {
    let chunks = vec![vec![1u8, 2], vec![], vec![3], vec![4, 5, 6]];
    assert_eq!(assemble(&chunks, 6), Some(vec![1, 2, 3, 4, 5, 6]));
    assert_eq!(assemble(&chunks, 100), Some(vec![1, 2, 3, 4, 5, 6]));
}

#[test]
fn body_over_the_limit_is_not_joined() {
    let chunks = vec![vec![1u8, 2], vec![3], vec![4, 5, 6]];
    assert_eq!(assemble(&chunks, 5), None);
    assert_eq!(assemble(&chunks, 0), None);
    assert_eq!(assemble(&chunks, 2), None);
}

#[test]
fn empty_body_fits_every_limit() {
    assert_eq!(assemble(&Vec::new(), 0), Some(Vec::new()));
    assert_eq!(assemble(&vec![Vec::new(), Vec::new()], 0), Some(Vec::new()));
}
