use flowtype::staging::{drain, pending_len, push_frame, push_sample, staging_split, write_i16, write_u16};

#[test]
fn test_round_trip_preserves_order() {
    let (mut producer, mut consumer) = staging_split(64);
    push_frame(&vec![1, -2, 3], &mut producer);
    assert_eq!(pending_len(&consumer), 3);
    assert_eq!(drain(&mut consumer), vec![1, -2, 3]);
    assert_eq!(drain(&mut consumer), Vec::<i16>::new());
}

#[test]
fn test_full_ring_drops_newest() {
    let (mut producer, mut consumer) = staging_split(4);
    for s in 0..6 {
        let _ = push_sample(&mut producer, s);
    }
    // Capacity four: the two newest samples were dropped.
    assert_eq!(drain(&mut consumer), vec![0, 1, 2, 3]);
}

#[test]
fn test_push_reports_refusal() {
    let (mut producer, _consumer) = staging_split(1);
    assert!(push_sample(&mut producer, 7));
    assert!(!push_sample(&mut producer, 8));
}

#[test]
fn test_write_i16_downmixes_stereo() {
    let (mut producer, mut consumer) = staging_split(64);
    write_i16(&vec![100, 200, -100, 100], 2, &mut producer);
    assert_eq!(drain(&mut consumer), vec![150, 0]);
}

#[test]
fn test_write_u16_recenters() {
    let (mut producer, mut consumer) = staging_split(64);
    write_u16(&vec![32768, 0, 65535], 1, &mut producer);
    assert_eq!(drain(&mut consumer), vec![0, -32768, 32767]);
}
