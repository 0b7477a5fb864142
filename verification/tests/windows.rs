use wmb_scene::error::DecodeError;
use wmb_scene::windows::derive_vertex_window;
use wmb_scene::windows::slice_indexes;

#[test]
fn winding_reverses_each_triple() {
    let indexes = vec![5u32, 7, 2, 9, 4, 1];
    let out = slice_indexes(&indexes, 0, 6).unwrap();
    assert_eq!(out, vec![2, 7, 5, 1, 4, 9]);
    // the same triple at the second aligned position
    let out2 = slice_indexes(&indexes, 3, 3).unwrap();
    assert_eq!(out2, vec![1, 4, 9]);
}

#[test]
fn window_truncates_at_triple_aligned_end() {
    let indexes = vec![1u32, 2, 3, 4, 5, 6];
    let out = slice_indexes(&indexes, 3, 99).unwrap();
    assert_eq!(out, vec![6, 5, 4]);
}

#[test]
fn window_into_partial_triple_fails() {
    let indexes = vec![1u32, 2, 3, 4, 5];
    assert_eq!(
        slice_indexes(&indexes, 3, 3),
        Err(DecodeError::IndexWindowOutOfBounds)
    );
}

#[test]
fn vertex_window_derivation() {
    let sliced = vec![10u32, 12, 11, 13, 10, 12];
    let (start, count, rebased) = derive_vertex_window(&sliced).unwrap();
    assert_eq!(start, 10);
    assert_eq!(count, 4);
    assert_eq!(rebased, vec![0, 2, 1, 3, 0, 2]);
}

#[test]
fn empty_window_cannot_derive() {
    let sliced: Vec<u32> = Vec::new();
    assert_eq!(
        derive_vertex_window(&sliced),
        Err(DecodeError::EmptyIndexWindow)
    );
}
