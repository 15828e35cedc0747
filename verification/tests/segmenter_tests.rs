use flowtype::segmenter::Segmenter;
use flowtype::vad::{EnergyVad, VadState};

// The engine's defaults: 30ms frames at 48kHz, start threshold 0.008 and
// stop threshold 0.005 in fixed point, 300ms start and 500ms stop windows.
const FRAME_MS: u64 = 30;
const FRAME_SAMPLES: usize = 1440;

fn default_segmenter() -> Segmenter {
    let vad = EnergyVad::new(262, 164, 300, 500, FRAME_MS);
    Segmenter::new(vad, FRAME_MS)
}

fn zeros() -> Vec<i16> {
    vec![0; FRAME_SAMPLES]
}

fn tone() -> Vec<i16> {
    // Constant amplitude 0.02 of full scale.
    vec![655; FRAME_SAMPLES]
}

#[test]
fn test_silence_only() {
    // Two seconds of zeros at 48kHz: no segment, no event, still silence.
    let mut seg = default_segmenter();
    for _ in 0..67 {
        let out = seg.tick(&zeros());
        assert!(out.segment.is_none());
        assert!(out.event.is_none());
    }
    assert!(matches!(seg.last_state, VadState::Silence));
    assert!(seg.voice.is_empty());
}

#[test]
fn test_single_utterance() {
    // 510ms zeros, 1.5s of 0.02-amplitude tone, 1s zeros.
    let mut seg = default_segmenter();
    let mut segments: Vec<Vec<i16>> = Vec::new();
    let mut events: Vec<(usize, VadState, u32)> = Vec::new();
    let mut tick_no: usize = 0;
    let mut feed = |seg: &mut Segmenter, frame: &Vec<i16>, n: usize| {
        for _ in 0..n {
            let out = seg.tick(frame);
            if let Some(s) = out.segment {
                segments.push(s);
            }
            if let Some(e) = out.event {
                events.push((tick_no, e.state, e.rms));
            }
            tick_no += 1;
        }
    };
    feed(&mut seg, &zeros(), 17);
    feed(&mut seg, &tone(), 50);
    feed(&mut seg, &zeros(), 33);

    // One speaking event at the 10th tone frame (start window 300ms), one
    // silence event 16 quiet frames after the tone (stop window 500ms).
    assert_eq!(events.len(), 2);
    assert!(matches!(events[0].1, VadState::Speaking));
    assert_eq!(events[0].0, 26); // 17 zero frames + 10th tone frame
    assert_eq!(events[0].2, 655);
    assert!(matches!(events[1].1, VadState::Silence));
    assert_eq!(events[1].0, 82); // 16 quiet frames after the 67th tick
    assert_eq!(events[1].2, 0);

    // One segment: 16 pre-roll frames, 41 speaking tone frames, 15 trailing
    // quiet frames that were still inside the stop window.
    assert_eq!(segments.len(), 1);
    assert_eq!(segments[0].len(), 72 * FRAME_SAMPLES);
    // It is at least the pre-roll plus the whole tone.
    assert!(segments[0].len() >= 16 * FRAME_SAMPLES + 50 * FRAME_SAMPLES);
}

#[test]
fn test_pre_roll_stays_bounded() {
    let mut seg = default_segmenter();
    for _ in 0..100 {
        let _ = seg.tick(&zeros());
        assert!(seg.pre_roll.len() <= 17); // ceil(500 / 30)
    }
    assert_eq!(seg.pre_roll.len(), 16); // 500 / 30 frames kept
}

#[test]
fn test_empty_frame_changes_nothing() {
    let mut seg = default_segmenter();
    let empty: Vec<i16> = Vec::new();
    for _ in 0..5 {
        let out = seg.tick(&empty);
        assert!(out.segment.is_none());
        assert!(out.event.is_none());
    }
    assert!(seg.pre_roll.is_empty());
}

#[test]
fn test_segment_not_lost_on_timeout_change() {
    let mut seg = default_segmenter();
    for _ in 0..17 {
        let _ = seg.tick(&zeros());
    }
    for _ in 0..12 {
        let _ = seg.tick(&tone());
    }
    assert!(matches!(seg.last_state, VadState::Speaking));
    let accumulated = seg.voice.len();
    assert!(accumulated > 0);
    // Shrinking the stop window mid-segment keeps the accumulator.
    seg.update_stop_window(120, FRAME_MS);
    assert_eq!(seg.voice.len(), accumulated);
    // Four quiet frames (120ms) now end the segment.
    let mut segments = 0;
    for _ in 0..4 {
        if seg.tick(&zeros()).segment.is_some() {
            segments += 1;
        }
    }
    assert_eq!(segments, 1);
}
