//! Timeline behavior, with time in microseconds and tempo in thousandths of
//! a beat per minute: 1 second is 1_000_000 and 120 BPM is 120_000.

use beatr::pattern::Pattern;
use beatr::time_signature::TimeSignature;
use beatr::timeline::{Timeline, TimelineSegment};

#[test]
fn test_timeline_segment_creation() {
    let ts = TimeSignature::four_four();
    let pattern = Pattern::new("kick_pattern".to_string(), "kick".to_string(), 16);
    let patterns = vec![pattern];
    let segment = TimelineSegment::new(
        "kick_pattern".to_string(),
        patterns,
        0,
        4, // 4 loops
        ts,
        120_000, // BPM
    );

    assert_eq!(segment.pattern_id, "kick_pattern");
    assert_eq!(segment.start_time, 0);
    assert_eq!(segment.loop_count, 4);
    assert_eq!(segment.time_signature, ts);
    assert_eq!(segment.bpm, 120_000);

    // Duration = (4 beats per loop * 4 loops) / (120 BPM / 60) = 16 / 2 = 8 seconds
    assert_eq!(segment.duration, 8_000_000);
    assert_eq!(segment.end_time(), 8_000_000);
}

#[test]
fn test_timeline_segment_contains_time() {
    let pattern = Pattern::new("test".to_string(), "kick".to_string(), 16);
    let patterns = vec![pattern];
    let segment = TimelineSegment::new(
        "test".to_string(),
        patterns,
        5_000_000,
        2,
        TimeSignature::four_four(),
        120_000,
    );

    assert!(!segment.contains_time(4_900_000));
    assert!(segment.contains_time(5_000_000));
    assert!(segment.contains_time(7_000_000));
    assert!(!segment.contains_time(segment.end_time()));
}

#[test]
fn test_timeline_segment_duration_updates() {
    let pattern = Pattern::new("test".to_string(), "kick".to_string(), 16);
    let patterns = vec![pattern];
    let mut segment = TimelineSegment::new(
        "test".to_string(),
        patterns,
        0,
        2,
        TimeSignature::four_four(),
        120_000,
    );

    let original_duration = segment.duration;

    // Changing loop count should update duration
    segment.set_loop_count(4);
    assert_eq!(segment.duration, original_duration * 2);

    // Changing BPM should update duration
    segment.set_bpm(240_000);
    assert_eq!(segment.duration, original_duration); // Double BPM = half duration

    // Changing time signature should update duration
    segment.set_time_signature(TimeSignature::three_four());
    // 3 beats * 4 loops at 240 BPM: 12 beats / 4 beats-per-second = 3 seconds
    assert_eq!(segment.duration, 3_000_000);
}

#[test]
fn test_timeline_basic_operations() {
    let mut timeline = Timeline::new();

    // Test empty timeline
    assert!(timeline.is_empty());
    assert_eq!(timeline.total_duration(), 0);
    assert!(timeline.get_current_segment().is_none());

    // Add first segment
    let pattern1 = Pattern::new("pattern1".to_string(), "kick".to_string(), 16);
    let patterns1 = vec![pattern1];
    let segment1 = TimelineSegment::new(
        "pattern1".to_string(),
        patterns1,
        0,
        2,
        TimeSignature::four_four(),
        120_000,
    );
    let id1 = timeline.add_segment(segment1);

    assert!(!timeline.is_empty());
    assert!(timeline.total_duration() > 0);

    // Add second segment
    let pattern2 = Pattern::new("pattern2".to_string(), "snare".to_string(), 12);
    let patterns2 = vec![pattern2];
    let segment2 = TimelineSegment::new(
        "pattern2".to_string(),
        patterns2,
        10_000_000,
        1,
        TimeSignature::three_four(),
        120_000,
    );
    let id2 = timeline.add_segment(segment2);

    assert_eq!(timeline.segments.len(), 2);

    // Test segments are ordered by start time
    assert!(timeline.segments[0].start_time <= timeline.segments[1].start_time);

    // Test get operations
    assert!(timeline.get_segment(&id1).is_some());
    assert!(timeline.get_segment(&id2).is_some());
    assert!(timeline.get_segment("nonexistent").is_none());

    // Test current segment detection
    timeline.current_position = 2_000_000; // Within first segment (0-4 seconds)
    let current = timeline.get_current_segment();
    assert!(current.is_some());
    assert_eq!(current.unwrap().id, id1);

    timeline.current_position = 10_500_000; // Within second segment (starts at 10.0)
    let current = timeline.get_current_segment();
    assert!(current.is_some());
    assert_eq!(current.unwrap().id, id2);

    // Test remove
    let removed = timeline.remove_segment(&id1);
    assert!(removed.is_some());
    assert_eq!(timeline.segments.len(), 1);
    assert!(timeline.get_segment(&id1).is_none());
}

#[test]
fn test_timeline_segment_manipulation() {
    let mut timeline = Timeline::new();

    let pattern = Pattern::new("pattern1".to_string(), "kick".to_string(), 16);
    let patterns = vec![pattern];
    let segment = TimelineSegment::new(
        "pattern1".to_string(),
        patterns,
        0,
        2,
        TimeSignature::four_four(),
        120_000,
    );
    let id = timeline.add_segment(segment);

    // Test move segment
    assert!(timeline.move_segment(&id, 5_000_000));
    let moved_segment = timeline.get_segment(&id).unwrap();
    assert_eq!(moved_segment.start_time, 5_000_000);

    // Test duplicate segment
    let duplicate_id = timeline.duplicate_segment(&id, 15_000_000);
    assert!(duplicate_id.is_some());
    assert_eq!(timeline.segments.len(), 2);

    let duplicate = timeline.get_segment(duplicate_id.as_ref().unwrap()).unwrap();
    assert_eq!(duplicate.start_time, 15_000_000);
    assert_eq!(duplicate.pattern_id, "pattern1");
    assert_ne!(duplicate.id, id);

    // Test split segment
    let split_id = timeline.split_segment(&id, 6_000_000);
    assert!(split_id.is_some());
    assert_eq!(timeline.segments.len(), 3); // Original + duplicate + split

    let original = timeline.get_segment(&id).unwrap();
    let split = timeline.get_segment(split_id.as_ref().unwrap()).unwrap();
    assert!(original.end_time() <= split.start_time);
}

#[test]
fn test_timeline_playback_control() {
    let mut timeline = Timeline::new();

    // Add segment
    let pattern = Pattern::new("pattern1".to_string(), "kick".to_string(), 16);
    let patterns = vec![pattern];
    let segment = TimelineSegment::new(
        "pattern1".to_string(),
        patterns,
        0,
        4,
        TimeSignature::four_four(),
        120_000,
    );
    timeline.add_segment(segment);

    // Test playback states
    assert!(!timeline.is_playing());
    timeline.play();
    assert!(timeline.is_playing());

    timeline.pause();
    assert!(!timeline.is_playing());

    timeline.stop();
    assert!(!timeline.is_playing());
    assert_eq!(timeline.current_position, 0);

    // Test seeking
    timeline.seek(5_000_000);
    assert_eq!(timeline.current_position, 5_000_000);

    // Test seeking beyond timeline
    timeline.seek(100_000_000);
    assert_eq!(timeline.current_position, timeline.total_duration());

    // Test position advancement
    timeline.current_position = 0;
    timeline.play();

    let advanced = timeline.advance_position(2_000_000);
    assert!(advanced);
    assert_eq!(timeline.current_position, 2_000_000);

    // Test advancement beyond end
    timeline.current_position = timeline.total_duration() - 1_000_000;
    let advanced = timeline.advance_position(2_000_000);
    assert!(!advanced); // Should return false when timeline ends
    assert!(!timeline.is_playing()); // Should stop automatically
}

#[test]
fn test_timeline_with_different_time_signatures() {
    let mut timeline = Timeline::new();

    // 4/4 segment: 4 beats * 2 loops = 8 beats at 120 BPM = 4 seconds
    let pattern1 = Pattern::new("pattern_4_4".to_string(), "kick".to_string(), 16);
    let patterns1 = vec![pattern1];
    let segment1 = TimelineSegment::new(
        "pattern_4_4".to_string(),
        patterns1,
        0,
        2,
        TimeSignature::four_four(),
        120_000,
    );
    timeline.add_segment(segment1);

    // 3/4 segment: 3 beats * 3 loops = 9 beats at 120 BPM = 4.5 seconds
    let pattern2 = Pattern::new("pattern_3_4".to_string(), "snare".to_string(), 12);
    let patterns2 = vec![pattern2];
    let segment2 = TimelineSegment::new(
        "pattern_3_4".to_string(),
        patterns2,
        4_000_000,
        3,
        TimeSignature::three_four(),
        120_000,
    );
    timeline.add_segment(segment2);

    // 5/4 segment: 5 beats * 1 loop = 5 beats at 120 BPM = 2.5 seconds
    let pattern3 = Pattern::new("pattern_5_4".to_string(), "hihat".to_string(), 20);
    let patterns3 = vec![pattern3];
    let segment3 = TimelineSegment::new(
        "pattern_5_4".to_string(),
        patterns3,
        8_500_000,
        1,
        TimeSignature::five_four(),
        120_000,
    );
    timeline.add_segment(segment3);

    // Test total duration
    let expected_total = 8_500_000 + 2_500_000; // Last segment end time
    assert_eq!(timeline.total_duration(), expected_total);

    // Test segment detection at various times
    timeline.current_position = 2_000_000;
    let current = timeline.get_current_segment().unwrap();
    assert_eq!(current.pattern_id, "pattern_4_4");

    timeline.current_position = 5_000_000;
    let current = timeline.get_current_segment().unwrap();
    assert_eq!(current.pattern_id, "pattern_3_4");

    timeline.current_position = 9_000_000;
    let current = timeline.get_current_segment().unwrap();
    assert_eq!(current.pattern_id, "pattern_5_4");
}

#[test]
fn test_timeline_bpm_synchronization() {
    let mut timeline = Timeline::new();

    // Add segments with different BPMs
    let pattern1 = Pattern::new("pattern1".to_string(), "kick".to_string(), 16);
    let patterns1 = vec![pattern1];
    let segment1 = TimelineSegment::new(
        "segment1".to_string(),
        patterns1,
        0,
        2, // 2 loops
        TimeSignature::four_four(),
        120_000, // 120 BPM
    );
    let id1 = timeline.add_segment(segment1);

    let pattern2 = Pattern::new("pattern2".to_string(), "snare".to_string(), 16);
    let patterns2 = vec![pattern2];
    let segment2 = TimelineSegment::new(
        "segment2".to_string(),
        patterns2,
        5_000_000,
        1, // 1 loop
        TimeSignature::four_four(),
        140_000, // 140 BPM
    );
    let id2 = timeline.add_segment(segment2);

    // Test initial durations at different BPMs
    let segment1_duration = timeline.get_segment(&id1).unwrap().duration;
    let segment2_duration = timeline.get_segment(&id2).unwrap().duration;

    // At 120 BPM: 2 loops * 4 beats / (120/60) = 8 beats / 2 beats/sec = 4 seconds
    assert_eq!(segment1_duration, 4_000_000);

    // At 140 BPM: 1 loop * 4 beats / (140/60) = ~1.714285 seconds
    assert_eq!(segment2_duration, 1_714_285);

    let initial_total_duration = timeline.total_duration();

    // Test global BPM update - set all segments to 100 BPM
    timeline.set_global_bpm(100_000);

    // Check that all segments now have 100 BPM
    assert_eq!(timeline.get_segment(&id1).unwrap().bpm, 100_000);
    assert_eq!(timeline.get_segment(&id2).unwrap().bpm, 100_000);

    // Check that durations were recalculated
    let new_segment1_duration = timeline.get_segment(&id1).unwrap().duration;
    let new_segment2_duration = timeline.get_segment(&id2).unwrap().duration;

    // At 100 BPM: segment1 = 8 beats / 1.67 beats/sec = 4.8 seconds
    assert_eq!(new_segment1_duration, 4_800_000);

    // At 100 BPM: segment2 = 4 beats / 1.67 beats/sec = 2.4 seconds
    assert_eq!(new_segment2_duration, 2_400_000);

    // Total timeline duration should have changed
    let new_total_duration = timeline.total_duration();
    assert!(new_total_duration != initial_total_duration);

    // Test average BPM calculation
    assert_eq!(timeline.get_average_bpm(), 100_000);

    // Test with no segments
    let empty_timeline = Timeline::new();
    assert_eq!(empty_timeline.get_average_bpm(), 120_000); // Default
}

#[test]
fn test_complex_time_signatures_and_polyrhythms() {
    let mut timeline = Timeline::new();

    // Test odd meters: 7/8, 5/4, 11/8
    let test_signatures = [
        (TimeSignature::new(7, 8).unwrap(), "7/8"),
        (TimeSignature::new(5, 4).unwrap(), "5/4"),
        (TimeSignature::new(11, 8).unwrap(), "11/8"),
        (TimeSignature::new(13, 16).unwrap(), "13/16"),
        (TimeSignature::new(15, 8).unwrap(), "15/8"),
    ];

    let mut current_time: u64 = 0;
    let mut segment_ids = Vec::new();

    // Create segments with different complex time signatures
    for (time_sig, name) in &test_signatures {
        let pattern = Pattern::new(
            format!("Pattern {}", name),
            "kick".to_string(),
            time_sig.optimal_loop_length(4),
        );
        let patterns = vec![pattern];

        let segment = TimelineSegment::new(
            format!("Complex {}", name),
            patterns,
            current_time,
            2, // 2 loops each
            *time_sig,
            120_000,
        );

        current_time = segment.end_time();
        let id = timeline.add_segment(segment);
        segment_ids.push(id);
    }

    // Verify each segment has correct time signature and duration calculations
    for (i, (time_sig, name)) in test_signatures.iter().enumerate() {
        let segment = timeline.get_segment(&segment_ids[i]).unwrap();

        // Verify time signature matches
        assert_eq!(
            segment.time_signature, *time_sig,
            "Time signature mismatch for {}",
            name
        );

        // Verify optimal loop length calculation
        let expected_loop_length = time_sig.optimal_loop_length(4);
        let actual_loop_length = segment.patterns[0].steps.len();
        assert_eq!(
            actual_loop_length, expected_loop_length,
            "Loop length mismatch for {}: expected {}, got {}",
            name, expected_loop_length, actual_loop_length
        );

        // Verify mathematical functions work correctly
        assert!(
            time_sig.is_beat_boundary(0, actual_loop_length),
            "Step 0 should be a beat boundary for {}",
            name
        );
        assert!(
            time_sig.is_downbeat(0, actual_loop_length),
            "Step 0 should be downbeat for {}",
            name
        );

        // Test step labeling
        let label_0 = time_sig.step_label(0, actual_loop_length);
        assert!(
            label_0.starts_with("1"),
            "First step should start with '1' for {}",
            name
        );
    }

    // Test polyrhythmic timeline (sequential segments with different time signatures)
    let total_duration = timeline.total_duration();
    assert!(total_duration > 0, "Timeline should have positive duration");

    // Test smooth transitions between time signatures
    for i in 0..segment_ids.len() - 1 {
        let current_segment = timeline.get_segment(&segment_ids[i]).unwrap();
        let next_segment = timeline.get_segment(&segment_ids[i + 1]).unwrap();

        // Verify segments are contiguous (no gaps)
        assert_eq!(
            next_segment.start_time,
            current_segment.end_time(),
            "Gap between segments {} and {}",
            i,
            i + 1
        );
    }

    // Test timeline navigation through complex time signatures
    timeline.current_position = 0;
    let first_segment = timeline.get_current_segment();
    assert!(first_segment.is_some());
    assert_eq!(first_segment.unwrap().time_signature, test_signatures[0].0);

    // Test position in middle of timeline
    timeline.current_position = total_duration / 2;
    let middle_segment = timeline.get_current_segment();
    assert!(middle_segment.is_some());
}

#[test]
fn test_timeline_stop_start_cycles() {
    let mut timeline = Timeline::new();

    // Create a test segment
    let mut test_pattern = Pattern::new("Test".to_string(), "kick".to_string(), 16);
    test_pattern.steps[0].active = true;
    test_pattern.steps[4].active = true;
    test_pattern.steps[8].active = true;

    let segment = TimelineSegment::new(
        "Test Segment".to_string(),
        vec![test_pattern],
        0,
        2, // 2 loops
        TimeSignature::four_four(),
        120_000,
    );

    timeline.add_segment(segment);

    // Test initial state
    assert!(!timeline.is_playing());
    assert_eq!(timeline.current_position, 0);

    // Test play
    timeline.play();
    assert!(timeline.is_playing());

    // Advance timeline
    let advanced = timeline.advance_position(1_000_000);
    assert!(advanced);
    assert_eq!(timeline.current_position, 1_000_000);

    // Test stop - should reset position
    timeline.stop();
    assert!(!timeline.is_playing());
    assert_eq!(
        timeline.current_position, 0,
        "Timeline position should reset to 0 on stop"
    );

    // Test play again - should start from beginning
    timeline.play();
    assert!(timeline.is_playing());
    assert_eq!(
        timeline.current_position, 0,
        "Timeline should start from 0 after stop/play cycle"
    );

    // Test seeking and its impact
    timeline.seek(1_500_000);
    assert_eq!(timeline.current_position, 1_500_000);

    timeline.stop();
    assert_eq!(
        timeline.current_position, 0,
        "Stop should reset position even after seeking"
    );
}

#[test]
fn test_timeline_snapshot_round_trip() {
    let mut timeline = Timeline::new();

    let mut kick = Pattern::new("Kick".to_string(), "kick".to_string(), 16);
    kick.steps[0].active = true;
    kick.steps[4].active = true;
    let segment1 = TimelineSegment::new(
        "first".to_string(),
        vec![kick],
        0,
        2,
        TimeSignature::four_four(),
        120_000,
    );
    let snare = Pattern::new("Snare".to_string(), "snare".to_string(), 12);
    let segment2 = TimelineSegment::new(
        "second".to_string(),
        vec![snare],
        6_000_000,
        1,
        TimeSignature::three_four(),
        140_000,
    );
    timeline.add_segment(segment1);
    timeline.add_segment(segment2);
    timeline.seek(1_000_000);

    let snapshot = timeline.to_snapshot();
    let restored = Timeline::from_snapshot(snapshot);

    assert_eq!(restored.total_duration(), timeline.total_duration());
    assert_eq!(restored.segments.len(), timeline.segments.len());
    assert_eq!(restored.current_position, timeline.current_position);
    for i in 0..timeline.segments.len() {
        assert_eq!(restored.segments[i].id, timeline.segments[i].id);
        assert_eq!(restored.segments[i].start_time, timeline.segments[i].start_time);
        assert_eq!(restored.segments[i].duration, timeline.segments[i].duration);
        assert_eq!(restored.segments[i].patterns.len(), timeline.segments[i].patterns.len());
        for p in 0..timeline.segments[i].patterns.len() {
            assert_eq!(
                restored.segments[i].patterns[p].name,
                timeline.segments[i].patterns[p].name
            );
            assert_eq!(
                restored.segments[i].patterns[p].sample_name,
                timeline.segments[i].patterns[p].sample_name
            );
            assert_eq!(
                restored.segments[i].patterns[p].steps,
                timeline.segments[i].patterns[p].steps
            );
        }
    }
}

#[test]
fn test_get_segment_mut_edits_in_place() {
    let mut timeline = Timeline::new();
    let pattern = Pattern::new("Kick".to_string(), "kick".to_string(), 16);
    let segment = TimelineSegment::new(
        "kick".to_string(),
        vec![pattern],
        0,
        2,
        TimeSignature::four_four(),
        120_000,
    );
    let id = timeline.add_segment(segment);

    {
        let seg = timeline.get_segment_mut(&id).unwrap();
        seg.set_loop_count(4);
    }
    assert_eq!(timeline.get_segment(&id).unwrap().loop_count, 4);
    assert_eq!(timeline.get_segment(&id).unwrap().duration, 8_000_000);

    assert!(timeline.get_segment_mut("missing").is_none());
}

#[test]
fn test_split_segment_exactly_when_inside() {
    let mut timeline = Timeline::new();
    let pattern = Pattern::new("Kick".to_string(), "kick".to_string(), 16);
    let segment = TimelineSegment::new(
        "kick".to_string(),
        vec![pattern],
        1_000_000,
        2,
        TimeSignature::four_four(),
        120_000,
    );
    let id = timeline.add_segment(segment);
    let end = timeline.get_segment(&id).unwrap().end_time();

    // No split at or before the start, at or after the end, or for a
    // missing identifier; the timeline is untouched.
    assert!(timeline.split_segment(&id, 1_000_000).is_none());
    assert!(timeline.split_segment(&id, 500_000).is_none());
    assert!(timeline.split_segment(&id, end).is_none());
    assert!(timeline.split_segment(&id, end + 1).is_none());
    assert!(timeline.split_segment("missing", 2_000_000).is_none());
    assert_eq!(timeline.segments.len(), 1);

    // Strictly inside, the split is owed: two segments spanning the old
    // interval, the second under the fresh identifier.
    let second_id = timeline.split_segment(&id, 3_000_000);
    assert!(second_id.is_some());
    assert_eq!(timeline.segments.len(), 2);
    let first = timeline.get_segment(&id).unwrap();
    let second = timeline.get_segment(second_id.as_ref().unwrap()).unwrap();
    assert_eq!(first.start_time, 1_000_000);
    assert_eq!(first.duration, 2_000_000);
    assert_eq!(second.start_time, 3_000_000);
    assert_eq!(second.duration, end - 3_000_000);
}
