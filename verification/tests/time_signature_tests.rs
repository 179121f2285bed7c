use beatr::time_signature::TimeSignature;
use beatr::time_signature::InvalidTimeSignature;

#[test]
fn test_time_signature_creation() {
    // Test valid time signatures
    assert!(TimeSignature::new(4, 4).is_ok());
    assert!(TimeSignature::new(3, 4).is_ok());
    assert!(TimeSignature::new(5, 4).is_ok());
    assert!(TimeSignature::new(6, 8).is_ok());
    assert!(TimeSignature::new(7, 8).is_ok());
    assert!(TimeSignature::new(12, 8).is_ok());
    assert!(TimeSignature::new(1, 1).is_ok());
    assert!(TimeSignature::new(32, 32).is_ok());

    // Test invalid numerators
    assert!(TimeSignature::new(0, 4).is_err());
    assert!(TimeSignature::new(33, 4).is_err());

    // Test invalid denominators (not power of 2)
    assert!(TimeSignature::new(4, 3).is_err());
    assert!(TimeSignature::new(4, 5).is_err());
    assert!(TimeSignature::new(4, 6).is_err());
    assert!(TimeSignature::new(4, 7).is_err());
    assert!(TimeSignature::new(4, 9).is_err());

    // Test invalid denominators (0 or too large)
    assert!(TimeSignature::new(4, 0).is_err());
    assert!(TimeSignature::new(4, 64).is_err());
}

#[test]
fn test_time_signature_presets() {
    let four_four = TimeSignature::four_four();
    assert_eq!(four_four.numerator, 4);
    assert_eq!(four_four.denominator, 4);

    let three_four = TimeSignature::three_four();
    assert_eq!(three_four.numerator, 3);
    assert_eq!(three_four.denominator, 4);

    let five_four = TimeSignature::five_four();
    assert_eq!(five_four.numerator, 5);
    assert_eq!(five_four.denominator, 4);

    let six_eight = TimeSignature::six_eight();
    assert_eq!(six_eight.numerator, 6);
    assert_eq!(six_eight.denominator, 8);

    assert_eq!(four_four.display_string(), "4/4");
    assert_eq!(three_four.display_string(), "3/4");
    assert_eq!(five_four.display_string(), "5/4");
    assert_eq!(six_eight.display_string(), "6/8");
}

#[test]
fn test_time_signature_calculations() {
    let four_four = TimeSignature::four_four();
    let three_four = TimeSignature::three_four();
    let five_four = TimeSignature::five_four();

    // Test optimal loop lengths
    assert_eq!(four_four.optimal_loop_length(4), 16); // 4 beats * 4 subdivisions = 16 steps
    assert_eq!(three_four.optimal_loop_length(4), 12); // 3 beats * 4 subdivisions = 12 steps
    assert_eq!(five_four.optimal_loop_length(4), 20); // 5 beats * 4 subdivisions = 20 steps

    // Test beat boundary detection
    assert!(four_four.is_beat_boundary(0, 16)); // Step 0 is beat 1
    assert!(four_four.is_beat_boundary(4, 16)); // Step 4 is beat 2
    assert!(four_four.is_beat_boundary(8, 16)); // Step 8 is beat 3
    assert!(four_four.is_beat_boundary(12, 16)); // Step 12 is beat 4
    assert!(!four_four.is_beat_boundary(1, 16)); // Step 1 is not a beat boundary
    assert!(!four_four.is_beat_boundary(3, 16)); // Step 3 is not a beat boundary

    // Test downbeat detection (only beat 1)
    assert!(four_four.is_downbeat(0, 16)); // Step 0 is the downbeat
    assert!(!four_four.is_downbeat(4, 16)); // Step 4 is beat 2, not downbeat
    assert!(!four_four.is_downbeat(8, 16)); // Step 8 is beat 3, not downbeat
    assert!(!four_four.is_downbeat(12, 16)); // Step 12 is beat 4, not downbeat

    // Test beat index calculation
    assert_eq!(four_four.beat_for_step(0, 16), 0); // Step 0 is beat 0 (1st beat)
    assert_eq!(four_four.beat_for_step(4, 16), 1); // Step 4 is beat 1 (2nd beat)
    assert_eq!(four_four.beat_for_step(8, 16), 2); // Step 8 is beat 2 (3rd beat)
    assert_eq!(four_four.beat_for_step(12, 16), 3); // Step 12 is beat 3 (4th beat)

    // Test 3/4 time signature
    assert_eq!(three_four.beat_for_step(0, 12), 0); // Step 0 is beat 0 (1st beat)
    assert_eq!(three_four.beat_for_step(4, 12), 1); // Step 4 is beat 1 (2nd beat)
    assert_eq!(three_four.beat_for_step(8, 12), 2); // Step 8 is beat 2 (3rd beat)
    assert!(three_four.is_downbeat(0, 12)); // Step 0 is downbeat
    assert!(!three_four.is_downbeat(4, 12)); // Step 4 is not downbeat
    assert!(!three_four.is_downbeat(8, 12)); // Step 8 is not downbeat
}

#[test]
fn test_musical_step_labeling() {
    let four_four = TimeSignature::four_four();
    let three_four = TimeSignature::three_four();

    // Test 4/4 with 16 steps (4 steps per beat)
    assert_eq!(four_four.step_label(0, 16), "1.1"); // Beat 1, subdivision 1
    assert_eq!(four_four.step_label(1, 16), "1.2"); // Beat 1, subdivision 2
    assert_eq!(four_four.step_label(2, 16), "1.3"); // Beat 1, subdivision 3
    assert_eq!(four_four.step_label(3, 16), "1.4"); // Beat 1, subdivision 4
    assert_eq!(four_four.step_label(4, 16), "2.1"); // Beat 2, subdivision 1
    assert_eq!(four_four.step_label(8, 16), "3.1"); // Beat 3, subdivision 1
    assert_eq!(four_four.step_label(12, 16), "4.1"); // Beat 4, subdivision 1
    assert_eq!(four_four.step_label(15, 16), "4.4"); // Beat 4, subdivision 4

    // Test 3/4 with 12 steps (4 steps per beat)
    assert_eq!(three_four.step_label(0, 12), "1.1"); // Beat 1, subdivision 1
    assert_eq!(three_four.step_label(4, 12), "2.1"); // Beat 2, subdivision 1
    assert_eq!(three_four.step_label(8, 12), "3.1"); // Beat 3, subdivision 1
    assert_eq!(three_four.step_label(11, 12), "3.4"); // Beat 3, subdivision 4

    // Test 3/4 with 6 steps (2 steps per beat - should show just beat numbers)
    assert_eq!(three_four.step_label(0, 6), "1"); // Beat 1
    assert_eq!(three_four.step_label(1, 6), "1"); // Beat 1, subdivision 2
    assert_eq!(three_four.step_label(2, 6), "2"); // Beat 2
    assert_eq!(three_four.step_label(4, 6), "3"); // Beat 3

    // Test 3/4 with 3 steps (1 step per beat)
    assert_eq!(three_four.step_label(0, 3), "1"); // Beat 1
    assert_eq!(three_four.step_label(1, 3), "2"); // Beat 2
    assert_eq!(three_four.step_label(2, 3), "3"); // Beat 3
}

#[test]
fn test_beat_boundary_dividers_for_different_time_signatures() {
    // Test that beat boundaries are correctly identified for different time signatures
    let four_four = TimeSignature::four_four();
    let three_four = TimeSignature::three_four();
    let six_eight = TimeSignature::six_eight();

    // 4/4 time signature with 16 steps - boundaries at 0, 4, 8, 12
    assert!(four_four.is_beat_boundary(0, 16));
    assert!(four_four.is_beat_boundary(4, 16));
    assert!(four_four.is_beat_boundary(8, 16));
    assert!(four_four.is_beat_boundary(12, 16));
    assert!(!four_four.is_beat_boundary(1, 16));
    assert!(!four_four.is_beat_boundary(3, 16));

    // 3/4 time signature with 12 steps - boundaries at 0, 4, 8
    assert!(three_four.is_beat_boundary(0, 12));
    assert!(three_four.is_beat_boundary(4, 12));
    assert!(three_four.is_beat_boundary(8, 12));
    assert!(!three_four.is_beat_boundary(2, 12));
    assert!(!three_four.is_beat_boundary(6, 12));

    // 6/8 time signature - compound meter
    assert!(six_eight.is_beat_boundary(0, 12));
    assert!(!six_eight.is_beat_boundary(1, 12));
}

#[test]
fn test_downbeat_identification() {
    let four_four = TimeSignature::four_four();
    let three_four = TimeSignature::three_four();

    // Only step 0 should be a downbeat
    assert!(four_four.is_downbeat(0, 16));
    assert!(!four_four.is_downbeat(4, 16));
    assert!(!four_four.is_downbeat(8, 16));
    assert!(!four_four.is_downbeat(12, 16));

    assert!(three_four.is_downbeat(0, 12));
    assert!(!three_four.is_downbeat(4, 12));
    assert!(!three_four.is_downbeat(8, 12));
}

#[test]
fn test_invalid_time_signature_errors() {

    assert_eq!(
        TimeSignature::new(0, 4),
        Err(InvalidTimeSignature::Numerator(0))
    );
    assert_eq!(
        TimeSignature::new(33, 8),
        Err(InvalidTimeSignature::Numerator(33))
    );
    assert_eq!(
        TimeSignature::new(4, 6),
        Err(InvalidTimeSignature::Denominator(6))
    );
    assert_eq!(
        TimeSignature::new(4, 64),
        Err(InvalidTimeSignature::Denominator(64))
    );
}
