use flowtype::sample::{downmix_frames, downmix_stereo, normalize_i16, normalize_u16};

// A fixed-point sample s stands for s / 32768, so the representable range
// is [-1, 1): 0 is silence, -32768 is -1.0 and 32767 is just under 1.0.

#[test]
fn test_i16_conversion() {
    assert_eq!(normalize_i16(0), 0);
    assert_eq!(normalize_i16(-32768), -32768); // -1.0
    assert_eq!(normalize_i16(32767), 32767); // below 1.0
    assert_eq!(normalize_i16(1234), 1234);
    for x in [-32768i16, -1, 0, 1, 32767] {
        let s = normalize_i16(x) as f64 / 32768.0;
        assert!((-1.0..1.0).contains(&s));
    }
}

#[test]
fn test_u16_conversion() {
    assert_eq!(normalize_u16(32768), 0); // midpoint is silence
    assert_eq!(normalize_u16(0), -32768); // -1.0
    assert_eq!(normalize_u16(65535), 32767);
    for x in [0u16, 1, 32767, 32768, 65535] {
        let s = normalize_u16(x) as f64 / 32768.0;
        assert!((-1.0..1.0).contains(&s));
    }
}

#[test]
fn test_stereo_downmix() {
    assert_eq!(downmix_stereo(2, 4), 3);
    assert_eq!(downmix_stereo(-3, 0), -2); // floor of -1.5
    assert_eq!(downmix_stereo(-32768, -32768), -32768);
    assert_eq!(downmix_stereo(32767, 32767), 32767);
    assert_eq!(downmix_stereo(-32768, 32767), -1);
}

#[test]
fn test_downmix_frames() {
    let stereo: Vec<i16> = vec![100, 200, -100, 100, 7, 7];
    assert_eq!(downmix_frames(&stereo, 2), vec![150, 0, 7]);
    let mono: Vec<i16> = vec![5, -5, 9];
    assert_eq!(downmix_frames(&mono, 1), vec![5, -5, 9]);
    // More than two channels: the first channel passes through.
    let quad: Vec<i16> = vec![1, 2, 3, 4, 5, 6, 7, 8];
    assert_eq!(downmix_frames(&quad, 4), vec![1, 5]);
}
