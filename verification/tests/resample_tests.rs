use flowtype::resample::{chunk_plan, pad_with_zeros};

#[test]
fn test_chunk_plan_exact_fit() {
    assert_eq!(chunk_plan(8, 4), (2, 0));
    assert_eq!(chunk_plan(4, 4), (1, 0));
    assert_eq!(chunk_plan(0, 4), (0, 0));
}

#[test]
fn test_chunk_plan_pads_last_chunk() {
    assert_eq!(chunk_plan(10, 4), (3, 2));
    assert_eq!(chunk_plan(1, 1440), (1, 1439));
    assert_eq!(chunk_plan(1441, 1440), (2, 1439));
}

#[test]
fn test_pad_with_zeros() {
    let mut v: Vec<i16> = vec![5, 6];
    pad_with_zeros(&mut v, 3);
    assert_eq!(v, vec![5, 6, 0, 0, 0]);
}
