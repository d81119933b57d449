use fyin::index::{nearest_positions, IndexPhase, IndexStateError, VectorIndex, DIMENSION};

fn euclid_key(a: &[f64], b: &[f64]) -> u64 {
    let d: f64 = a.iter().zip(b).map(|(x, y)| (x - y) * (x - y)).sum();
    d.to_bits()
}

#[test]
fn init_uses_default_dimension() {
    assert_eq!(VectorIndex::init(None).dimension(), DIMENSION);
    assert_eq!(VectorIndex::init(Some(3)).dimension(), 3);
    assert_eq!(VectorIndex::init(Some(3)).phase_now(), IndexPhase::Empty);
}

#[test]
fn search_before_build_fails() {
    let mut index = VectorIndex::new(2);
    index.upsert_embedding(2, 1).unwrap();
    assert_eq!(index.phase_now(), IndexPhase::Building);
    assert_eq!(index.search(&vec![0], 1), Err(IndexStateError::SearchBeforeBuild));
}

#[test]
fn insert_after_build_fails() {
    let mut index = VectorIndex::new(2);
    index.upsert_embedding(2, 1).unwrap();
    index.build_index().unwrap();
    assert_eq!(index.phase_now(), IndexPhase::Queryable);
    assert_eq!(index.upsert_embedding(2, 2), Err(IndexStateError::InsertAfterBuild));
    assert_eq!(index.len(), 1);
}

#[test]
fn build_twice_fails() {
    let mut index = VectorIndex::new(2);
    assert_eq!(index.build_index(), Ok(()));
    assert_eq!(index.build_index(), Err(IndexStateError::AlreadyBuilt));
}

#[test]
fn dimension_mismatch_fails() {
    let mut index = VectorIndex::new(3);
    assert_eq!(index.upsert_embedding(2, 1), Err(IndexStateError::DimensionMismatch));
    assert_eq!(index.len(), 0);
}

#[test]
fn duplicate_id_fails() {
    let mut index = VectorIndex::new(1);
    assert_eq!(index.upsert_embedding(1, 4), Ok(()));
    assert_eq!(index.upsert_embedding(1, 4), Err(IndexStateError::DuplicateId));
    assert_eq!(index.len(), 1);
}

#[test]
fn search_needs_one_distance_per_entry() {
    let mut index = VectorIndex::new(1);
    index.upsert_embedding(1, 4).unwrap();
    index.build_index().unwrap();
    assert_eq!(index.search(&vec![1, 2], 1), Err(IndexStateError::DistanceCountMismatch));
}

#[test]
fn nearest_positions_orders_by_key_then_position() {
    assert_eq!(nearest_positions(&vec![5, 1, 3, 1], 3), vec![1, 3, 2]);
    assert_eq!(nearest_positions(&vec![5, 1, 3, 1], 10), vec![1, 3, 2, 0]);
    assert_eq!(nearest_positions(&vec![5, 1], 0), Vec::<usize>::new());
    assert_eq!(nearest_positions(&vec![], 4), Vec::<usize>::new());
    assert_eq!(nearest_positions(&vec![2, 2, 2], 2), vec![0, 1]);
}

#[test]
fn search_returns_nearest_ids_first() {
    let query = [0.0, 0.0];
    let points: Vec<(usize, [f64; 2])> =
        vec![(10, [3.0, 4.0]), (20, [1.0, 0.0]), (30, [0.0, 2.0]), (40, [-1.0, 0.0])];
    let mut index = VectorIndex::new(2);
    for (id, _) in &points {
        index.upsert_embedding(2, *id).unwrap();
    }
    index.build_index().unwrap();
    let keys: Vec<u64> = points.iter().map(|(_, p)| euclid_key(p, &query)).collect();
    assert_eq!(index.search(&keys, 3), Ok(vec![20, 40, 30]));
    assert_eq!(index.search(&keys, 9), Ok(vec![20, 40, 30, 10]));
}
