use flowtype::vad::{discriminant, EnergyVad, VadState};

// RMS values and thresholds are fixed point: the value v stands for the
// normalized amplitude v / 32768.
fn q15(x: f64) -> u32 {
    (x * 32768.0) as u32
}

#[test]
fn test_rms_calculation() {
    // Full-scale alternating samples: amplitude 1.0 within fixed-point range.
    let samples: Vec<i16> = vec![32767, -32767, 32767, -32767];
    let rms = EnergyVad::calculate_rms(&samples);
    assert!((rms as f64 / 32768.0 - 1.0).abs() < 0.001);

    let silence: Vec<i16> = vec![0; 100];
    assert_eq!(EnergyVad::calculate_rms(&silence), 0);
}

#[test]
fn test_state_transitions() {
    // Frame rate = 10ms
    // Start window = 30ms (3 frames)
    // Stop window = 50ms (5 frames)
    let mut vad = EnergyVad::new(q15(0.5), q15(0.2), 30, 50, 10);

    // Initial state
    assert!(matches!(vad.current_state, VadState::Silence));

    // 1. Trigger Talk (Need 3 frames > 0.5)
    vad.process(q15(0.6)); // 1
    assert!(matches!(vad.current_state, VadState::Silence));
    vad.process(q15(0.6)); // 2
    assert!(matches!(vad.current_state, VadState::Silence));
    let state = vad.process(q15(0.6)); // 3 -> Trigger!
    assert!(matches!(state, VadState::Speaking));

    // 2. Sustain Talk
    vad.process(q15(0.4)); // > stop_threshold (0.2), so still speaking
    assert!(matches!(vad.current_state, VadState::Speaking));

    // 3. Stop Talk (Need 5 frames < 0.2)
    vad.process(q15(0.1)); // 1
    vad.process(q15(0.1)); // 2
    vad.process(q15(0.1)); // 3
    vad.process(q15(0.1)); // 4
    assert!(matches!(vad.current_state, VadState::Speaking)); // Still speaking
    let state = vad.process(q15(0.1)); // 5 -> Drop!
    assert!(matches!(state, VadState::Silence));
}

#[test]
fn test_rms_exact_values() {
    // A constant frame has its amplitude as RMS.
    let tone: Vec<i16> = vec![655; 1440];
    assert_eq!(EnergyVad::calculate_rms(&tone), 655);
    // Mixed frame: mean square of {3, 4} amplitudes -> floor(sqrt(12.5)) = 3.
    let mixed: Vec<i16> = vec![3, 4, -3, -4];
    assert_eq!(EnergyVad::calculate_rms(&mixed), 3);
    let empty: Vec<i16> = Vec::new();
    assert_eq!(EnergyVad::calculate_rms(&empty), 0);
}

#[test]
fn test_silence_never_starts_speech() {
    // Everything below the stop threshold keeps the detector silent forever.
    let mut vad = EnergyVad::new(262, 164, 300, 500, 30);
    for _ in 0..1000 {
        let state = vad.process(163);
        assert!(matches!(state, VadState::Silence));
    }
}

#[test]
fn test_update_stop_window() {
    // Frame 10ms; stop window starts at 50ms (5 frames).
    let mut vad = EnergyVad::new(q15(0.5), q15(0.2), 30, 50, 10);
    for _ in 0..3 {
        vad.process(q15(0.6));
    }
    assert!(matches!(vad.current_state, VadState::Speaking));
    // Shrink the stop window to 20ms (2 frames): two quiet frames suffice.
    vad.update_stop_window(20, 10);
    vad.process(q15(0.1));
    assert!(matches!(vad.current_state, VadState::Speaking));
    let state = vad.process(q15(0.1));
    assert!(matches!(state, VadState::Silence));
}

#[test]
fn test_discriminant_distinguishes_states() {
    assert_eq!(discriminant(&VadState::Silence), 0);
    assert_eq!(discriminant(&VadState::Speaking), 1);
    assert_ne!(
        discriminant(&VadState::Silence),
        discriminant(&VadState::Speaking)
    );
}
