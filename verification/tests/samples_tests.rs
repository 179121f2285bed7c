//! Sample and bank behavior, with PCM held as 16-bit integers (full scale
//! 32767).

use beatr::samples::{Sample, SampleBank};

#[test]
fn test_sample_creation() {
    let data = vec![0i16, 16384, -16384, 32767];
    let sample = Sample::from_data(data.clone(), 44100, 1);
    assert_eq!(sample.data, data);
    assert_eq!(sample.sample_rate, 44100);
    assert_eq!(sample.channels, 1);
}

#[test]
fn test_sample_bank_operations() {
    let mut bank = SampleBank::new();
    let sample = Sample::from_data(vec![100, 200, 300], 44100, 1);

    bank.add_sample("test".to_string(), sample);
    assert!(bank.get_sample("test").is_some());
    assert!(bank.get_sample("nonexistent").is_none());
}

#[test]
fn test_sample_bank_replace_and_remove() {
    let mut bank = SampleBank::new();
    bank.add_sample("kick".to_string(), Sample::from_data(vec![1, 2, 3], 44100, 1));
    bank.add_sample("snare".to_string(), Sample::from_data(vec![4, 5], 22050, 1));

    // Adding under an existing name replaces what it held.
    bank.add_sample("kick".to_string(), Sample::from_data(vec![9, 9], 48000, 2));
    let kick = bank.get_sample("kick").unwrap();
    assert_eq!(kick.data, vec![9, 9]);
    assert_eq!(kick.sample_rate, 48000);
    assert_eq!(kick.channels, 2);

    // Other names are untouched.
    assert_eq!(bank.get_sample("snare").unwrap().data, vec![4, 5]);

    // Removing hands the sample back and leaves the name empty.
    let removed = bank.remove_sample("kick").unwrap();
    assert_eq!(removed.data, vec![9, 9]);
    assert!(bank.get_sample("kick").is_none());
    assert!(bank.remove_sample("kick").is_none());
    assert_eq!(bank.get_sample("snare").unwrap().data, vec![4, 5]);
}

#[test]
fn test_sample_bank_lists_names_in_order() {
    let mut bank = SampleBank::new();
    assert!(bank.list_samples().is_empty());
    bank.add_sample("kick".to_string(), Sample::from_data(vec![1], 44100, 1));
    bank.add_sample("snare".to_string(), Sample::from_data(vec![2], 44100, 1));
    let names = bank.list_samples();
    assert_eq!(names.len(), 2);
    assert_eq!(names[0], "kick");
    assert_eq!(names[1], "snare");
}

#[test]
fn test_sample_len() {
    let sample = Sample::from_data(vec![5; 123], 44100, 1);
    assert_eq!(sample.len(), 123);
}
