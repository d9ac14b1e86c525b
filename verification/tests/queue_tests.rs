use arrayvec::ArrayVec;
use voxel_world::array_queue::{ArrayVecExt, MAX_CHUNK_GEN_PER_FRAME};

fn key(c: &(u32, u64)) -> u32 {
    c.0
}

#[test]
fn keeps_the_nearest_candidates_sorted() {
    let mut q: ArrayVec<(u32, u64), MAX_CHUNK_GEN_PER_FRAME> = ArrayVec::new();
    assert_eq!(q.insert_by_key((5, 1), key), None);
    assert_eq!(q.as_slice(), &[(5, 1)]);
    assert_eq!(q.insert_by_key((3, 2), key), None);
    assert_eq!(q.as_slice(), &[(3, 2), (5, 1)]);
    // full: the farthest one is handed back
    assert_eq!(q.insert_by_key((4, 3), key), Some((5, 1)));
    assert_eq!(q.as_slice(), &[(3, 2), (4, 3)]);
    // farther than everything kept: handed back unchanged
    assert_eq!(q.insert_by_key((9, 4), key), Some((9, 4)));
    assert_eq!(q.as_slice(), &[(3, 2), (4, 3)]);
    // nearer than everything kept
    assert_eq!(q.insert_by_key((1, 5), key), Some((4, 3)));
    assert_eq!(q.as_slice(), &[(1, 5), (3, 2)]);
}

#[test]
fn equal_keys_go_before_the_equal_ones() {
    let mut q: ArrayVec<(u32, u64), MAX_CHUNK_GEN_PER_FRAME> = ArrayVec::new();
    q.insert_by_key((2, 1), key);
    assert_eq!(q.insert_by_key((2, 2), |c: &(u32, u64)| c.0), None);
    assert_eq!(q.as_slice(), &[(2, 2), (2, 1)]);
    assert_eq!(q.insert_by_key((2, 3), key), Some((2, 1)));
    assert_eq!(q.as_slice(), &[(2, 3), (2, 2)]);
}
