//! Sequencer behavior, with tempo in thousandths of a beat per minute and
//! velocities in thousandths of full scale.

use beatr::pattern::Pattern;
use beatr::samples::{Sample, SampleBank};
use beatr::sequencer::Sequencer;
use beatr::time_signature::TimeSignature;

fn bank_with_default_names() -> SampleBank {
    let mut bank = SampleBank::new();
    let names = [
        "kick",
        "snare",
        "hihat",
        "crash",
        "open_hihat",
        "clap",
        "rimshot",
        "tom",
    ];
    for name in names {
        let mut data = Vec::new();
        for i in 0..8000i32 {
            data.push((8000 - i) as i16);
        }
        bank.add_sample(name.to_string(), Sample::from_data(data, 44100, 1));
    }
    bank
}

#[test]
fn test_sequencer_with_additional_samples() {
    let mut sequencer = Sequencer::new(44100, 120_000);
    sequencer.initialize_default_patterns();

    // Verify all 8 patterns are created (3 original + 5 new)
    let patterns = sequencer.get_patterns();
    assert_eq!(patterns.len(), 8);

    // Verify pattern names match expected samples
    let expected_names = vec![
        "Kick",
        "Snare",
        "Hi-Hat",
        "Crash",
        "Open Hi-Hat",
        "Clap",
        "Rim Shot",
        "Tom",
    ];
    for (i, expected_name) in expected_names.iter().enumerate() {
        assert_eq!(&patterns[i].name, expected_name);
    }

    // Verify sample names are correctly mapped
    assert_eq!(&patterns[3].sample_name, "crash");
    assert_eq!(&patterns[4].sample_name, "open_hihat");
    assert_eq!(&patterns[5].sample_name, "clap");
    assert_eq!(&patterns[6].sample_name, "rimshot");
    assert_eq!(&patterns[7].sample_name, "tom");
}

#[test]
fn test_pattern_step_manipulation() {
    let mut pattern = Pattern::new("Test".to_string(), "test_sample".to_string(), 16);

    // Test step toggling
    assert!(!pattern.steps[0].active);
    pattern.toggle_step(0);
    assert!(pattern.steps[0].active);
    pattern.toggle_step(0);
    assert!(!pattern.steps[0].active);

    // Test clearing
    pattern.toggle_step(0);
    pattern.toggle_step(5);
    pattern.clear();
    assert!(!pattern.steps[0].active);
    assert!(!pattern.steps[5].active);
}

#[test]
fn test_backward_compatibility() {
    let mut sequencer = Sequencer::new(44100, 120_000);
    sequencer.initialize_default_patterns();

    // Verify original 3 samples are still in the same positions
    let patterns = sequencer.get_patterns();
    assert_eq!(&patterns[0].sample_name, "kick");
    assert_eq!(&patterns[1].sample_name, "snare");
    assert_eq!(&patterns[2].sample_name, "hihat");
}

#[test]
fn test_variable_loop_lengths() {
    let mut sequencer = Sequencer::new(44100, 120_000);

    // Test default loop length
    assert_eq!(sequencer.get_loop_length(), 16);

    // Test setting different loop lengths
    sequencer.set_loop_length(4);
    assert_eq!(sequencer.get_loop_length(), 4);

    sequencer.set_loop_length(8);
    assert_eq!(sequencer.get_loop_length(), 8);

    sequencer.set_loop_length(32);
    assert_eq!(sequencer.get_loop_length(), 32);

    // Test boundary conditions
    sequencer.set_loop_length(1);
    assert_eq!(sequencer.get_loop_length(), 1);

    sequencer.set_loop_length(64);
    assert_eq!(sequencer.get_loop_length(), 64);

    // Test invalid values (should not change loop length)
    sequencer.set_loop_length(0);
    assert_eq!(sequencer.get_loop_length(), 64); // Should remain unchanged

    sequencer.set_loop_length(65);
    assert_eq!(sequencer.get_loop_length(), 64); // Should remain unchanged
}

#[test]
fn test_pattern_resize_functionality() {
    let mut pattern = Pattern::new("Test".to_string(), "test_sample".to_string(), 16);

    // Set some steps as active
    pattern.toggle_step(0);
    pattern.toggle_step(5);
    pattern.toggle_step(10);
    pattern.toggle_step(15);

    // Test extending pattern (should preserve existing steps and add empty ones)
    pattern.resize(20);
    assert_eq!(pattern.length(), 20);
    assert!(pattern.steps[0].active);
    assert!(pattern.steps[5].active);
    assert!(pattern.steps[10].active);
    assert!(pattern.steps[15].active);
    assert!(!pattern.steps[16].active); // New steps should be inactive
    assert!(!pattern.steps[19].active);

    // Test truncating pattern (should preserve remaining steps)
    pattern.resize(8);
    assert_eq!(pattern.length(), 8);
    assert!(pattern.steps[0].active);
    assert!(pattern.steps[5].active);
    // Steps 10 and 15 should be gone now

    // Test no-op resize
    let original_length = pattern.length();
    pattern.resize(8);
    assert_eq!(pattern.length(), original_length);
}

#[test]
fn test_sequencer_step_advancement_with_variable_lengths() {
    let mut sequencer = Sequencer::new(44100, 120_000);

    // Test with 4-step loop
    sequencer.set_loop_length(4);
    assert_eq!(sequencer.get_current_step(), 0);

    // Manually advance steps to test wrapping
    for _ in 0..3 {
        sequencer.advance_step();
    }
    assert_eq!(sequencer.get_current_step(), 3);

    // Next step should wrap to 0
    sequencer.advance_step();
    assert_eq!(sequencer.get_current_step(), 0);

    // Test with different loop length
    sequencer.set_loop_length(6);
    sequencer.advance_step(); // Should be at step 1 now
    for _ in 0..5 {
        sequencer.advance_step();
    }
    assert_eq!(sequencer.get_current_step(), 0); // Should wrap after step 5
}

#[test]
fn test_current_step_reset_when_loop_length_changes() {
    let mut sequencer = Sequencer::new(44100, 120_000);

    // Advance to a later step
    for _ in 0..10 {
        sequencer.advance_step();
    }
    assert_eq!(sequencer.get_current_step(), 10);

    // Change to a shorter loop length that would put current_step out of bounds
    sequencer.set_loop_length(8);
    assert_eq!(sequencer.get_current_step(), 0); // Should reset to 0
    assert_eq!(sequencer.get_sample_counter(), 0); // Sample counter should also reset

    // Test changing to a longer loop length (should not reset if current step is valid)
    sequencer.advance_step();
    sequencer.advance_step();
    assert_eq!(sequencer.get_current_step(), 2);

    sequencer.set_loop_length(16);
    assert_eq!(sequencer.get_current_step(), 2); // Should not reset since 2 < 16
}

#[test]
fn test_odd_time_signatures() {
    let mut sequencer = Sequencer::new(44100, 120_000);

    // Test various odd loop lengths that should be supported
    let odd_lengths = [3, 5, 7, 9, 11, 13, 15, 17, 19];

    for &length in &odd_lengths {
        sequencer.set_loop_length(length);
        assert_eq!(
            sequencer.get_loop_length(),
            length,
            "Failed to set loop length to {}",
            length
        );

        // Test step advancement wraps correctly
        for _ in 0..length {
            sequencer.advance_step();
        }
        assert_eq!(
            sequencer.get_current_step(),
            0,
            "Step should wrap to 0 after {} steps",
            length
        );

        // Test that patterns are resized correctly
        sequencer.initialize_default_patterns();
        let patterns = sequencer.get_patterns();
        for pattern in patterns.iter() {
            assert_eq!(
                pattern.length(),
                length,
                "Pattern should be resized to {}",
                length
            );
        }
    }
}

#[test]
fn test_sequencer_time_signature_integration() {
    let mut sequencer = Sequencer::new(44100, 120_000);

    // Test default time signature
    let default_ts = sequencer.get_time_signature();
    assert_eq!(default_ts.numerator, 4);
    assert_eq!(default_ts.denominator, 4);

    // Test setting different time signatures
    sequencer.set_time_signature(TimeSignature::three_four());
    let ts = sequencer.get_time_signature();
    assert_eq!(ts.numerator, 3);
    assert_eq!(ts.denominator, 4);

    // Verify loop length was automatically adjusted to optimal
    assert_eq!(sequencer.get_loop_length(), 12); // 3 beats * 4 subdivisions

    // Test 5/4 time signature
    sequencer.set_time_signature(TimeSignature::five_four());
    assert_eq!(sequencer.get_loop_length(), 20); // 5 beats * 4 subdivisions

    // Test that patterns are resized when time signature changes
    sequencer.initialize_default_patterns();
    let patterns = sequencer.get_patterns();
    for pattern in patterns.iter() {
        assert_eq!(
            pattern.length(),
            20,
            "Pattern should be resized to match new time signature"
        );
    }
}

#[test]
fn test_default_patterns_have_active_steps() {
    let mut sequencer = Sequencer::new(44100, 120_000);
    sequencer.initialize_default_patterns();

    let patterns = sequencer.get_patterns();
    assert_eq!(patterns.len(), 8, "Should have 8 default patterns");

    // Test kick pattern (should have steps 0, 4, 8, 12 active)
    let kick_pattern = &patterns[0];
    assert_eq!(kick_pattern.name, "Kick");
    assert_eq!(kick_pattern.sample_name, "kick");

    let active_steps: Vec<usize> = kick_pattern
        .steps
        .iter()
        .enumerate()
        .filter(|(_, step)| step.active)
        .map(|(i, _)| i)
        .collect();

    assert_eq!(
        active_steps,
        vec![0, 4, 8, 12],
        "Kick should be active on downbeats"
    );

    // Test snare pattern (should have steps 4, 12 active)
    let snare_pattern = &patterns[1];
    assert_eq!(snare_pattern.name, "Snare");
    assert_eq!(snare_pattern.sample_name, "snare");

    let snare_active_steps: Vec<usize> = snare_pattern
        .steps
        .iter()
        .enumerate()
        .filter(|(_, step)| step.active)
        .map(|(i, _)| i)
        .collect();

    assert_eq!(
        snare_active_steps,
        vec![4, 12],
        "Snare should be active on beats 2 & 4"
    );

    // Test hi-hat pattern (should have steps 2, 6, 10, 14 active)
    let hihat_pattern = &patterns[2];
    assert_eq!(hihat_pattern.name, "Hi-Hat");
    assert_eq!(hihat_pattern.sample_name, "hihat");

    let hihat_active_steps: Vec<usize> = hihat_pattern
        .steps
        .iter()
        .enumerate()
        .filter(|(_, step)| step.active)
        .map(|(i, _)| i)
        .collect();

    assert_eq!(
        hihat_active_steps,
        vec![2, 6, 10, 14],
        "Hi-hat should be active on off-beats"
    );
}

#[test]
fn test_audio_processing_with_active_patterns() {
    let mut sequencer = Sequencer::new(44100, 120_000);
    sequencer.initialize_default_patterns();

    let sample_bank = bank_with_default_names();

    // Start sequencer
    sequencer.play();
    assert!(sequencer.is_playing(), "Sequencer should be playing");

    // Create audio buffer
    let buffer_size = 1024;
    let mut audio_buffer = vec![0i32; buffer_size];

    // Process several audio buffers to trigger some steps
    let mut total_max_sample = 0i32;
    let mut step_triggers = 0;

    // Need enough buffers to advance steps: 5512 samples/step / 1024 samples/buffer,
    // about 6 buffers per step; process enough to advance at least 2 steps
    for _ in 0..15 {
        let step_before = sequencer.get_current_step();

        sequencer.process_audio(&mut audio_buffer, &sample_bank);

        // Check if any audio was generated
        let max_sample = audio_buffer.iter().map(|s| s.abs()).max().unwrap_or(0);
        if max_sample > total_max_sample {
            total_max_sample = max_sample;
        }

        let step_after = sequencer.get_current_step();
        if step_after != step_before {
            step_triggers += 1;
        }
    }

    assert!(
        step_triggers > 0,
        "Sequencer should advance steps during processing"
    );
    assert!(
        total_max_sample > 0,
        "Audio processing should generate non-zero samples"
    );
}

#[test]
fn test_voice_triggering() {
    let mut sequencer = Sequencer::new(44100, 120_000);
    sequencer.initialize_default_patterns();

    let sample_bank = SampleBank::new();
    // Note: sample_bank is empty, but we can still test voice allocation

    let patterns = sequencer.get_patterns().clone(); // Clone to avoid borrow issues

    // Manually trigger step 0 (should have kick active)
    sequencer.state.current_step = 0;
    sequencer.trigger_current_step(&sample_bank, &patterns);

    // Check if any voices were activated
    let active_voices = sequencer.state.voices.iter().filter(|v| v.active).count();
    assert!(
        active_voices > 0,
        "At least one voice should be active after triggering step 0"
    );
}

#[test]
fn test_sequencer_timing_calculations() {
    let mut sequencer = Sequencer::new(44100, 120_000);

    // At 120 BPM, 16th notes should be:
    // 120 BPM = 2 beats per second
    // 16th notes = 2 * 4 = 8 steps per second
    // At 44100 Hz: 44100 / 8 = 5512.5 samples per step
    let expected_samples_per_step = 44100.0f32 / (120.0 / 60.0 * 4.0);

    assert!(
        (sequencer.state.samples_per_step as f32 - expected_samples_per_step).abs() < 1.0,
        "Timing calculation should be approximately correct"
    );

    // Test step advancement with small buffer
    sequencer.play();
    let sample_bank = bank_with_default_names();

    let small_buffer_size = 512; // Much smaller than samples_per_step
    let mut audio_buffer = vec![0i32; small_buffer_size];

    let initial_step = sequencer.get_current_step();

    // Process multiple small buffers
    for _ in 0..20 {
        sequencer.process_audio(&mut audio_buffer, &sample_bank);
        let current_step = sequencer.get_current_step();

        if current_step != initial_step {
            return; // Success!
        }
    }

    panic!("Sequencer did not advance steps after processing 20 buffers");
}
