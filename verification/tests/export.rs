use voice_recorder::export::{
    collect, file_name, get_bytes, output_format, EncodeFailure, EncodeOutcome, FailedExport,
};

fn outcome(user_id: u64, name: &str, result: Result<Vec<u8>, EncodeFailure>) -> EncodeOutcome {
    EncodeOutcome { user_id, name: name.to_string(), result }
}

#[test]
fn samples_become_bytes_most_significant_first() {
    assert_eq!(get_bytes(&vec![]), Vec::<u8>::new());
    assert_eq!(get_bytes(&vec![1]), vec![0x00, 0x01]);
    assert_eq!(get_bytes(&vec![0x1234]), vec![0x12, 0x34]);
    assert_eq!(get_bytes(&vec![256, 255]), vec![0x01, 0x00, 0x00, 0xff]);
}

#[test]
fn negative_samples_are_in_twos_complement() {
    assert_eq!(get_bytes(&vec![-1]), vec![0xff, 0xff]);
    assert_eq!(get_bytes(&vec![-2]), vec![0xff, 0xfe]);
    assert_eq!(get_bytes(&vec![-256]), vec![0xff, 0x00]);
    assert_eq!(get_bytes(&vec![i16::MIN, i16::MAX]), vec![0x80, 0x00, 0x7f, 0xff]);
}

#[test]
fn bytes_agree_with_the_native_encoding() {
    let mut samples: Vec<i16> = Vec::new();
    let mut expected: Vec<u8> = Vec::new();
    let mut value: i32 = i32::from(i16::MIN);
    while value <= i32::from(i16::MAX) {
        let sample = value as i16;
        samples.push(sample);
        expected.extend_from_slice(&sample.to_be_bytes());
        value += 1;
    }
    assert_eq!(get_bytes(&samples), expected);
}

#[test]
fn format_defaults_to_ogg() {
    assert_eq!(output_format(None), "ogg");
    assert_eq!(output_format(Some("wav".to_string())), "wav");
    assert_eq!(output_format(Some(String::new())), "");
}

#[test]
fn file_is_named_after_speaker_and_format() {
    assert_eq!(file_name("ada", "ogg"), "ada.ogg");
    assert_eq!(file_name("", "wav"), ".wav");
    assert_eq!(file_name("grace hopper", ""), "grace hopper.");
    assert_eq!(file_name("zoë", "flac"), "zoë.flac");
}

#[test]
fn no_outcomes_give_an_empty_report() {
    let report = collect(Vec::new(), "ogg");
    assert!(report.files.is_empty());
    assert!(report.failures.is_empty());
}

#[test]
fn failed_spawn_for_one_speaker_keeps_the_other_file() {
    let report = collect(
        vec![
            outcome(1, "a", Err(EncodeFailure::Spawn)),
            outcome(2, "b", Ok(vec![9, 8, 7])),
        ],
        "ogg",
    );
    assert_eq!(report.files, vec![(vec![9, 8, 7], "b.ogg".to_string())]);
    assert_eq!(
        report.failures,
        vec![FailedExport { user_id: 1, failure: EncodeFailure::Spawn }]
    );
}

#[test]
fn outcomes_keep_their_order_in_both_lists() {
    let report = collect(
        vec![
            outcome(1, "a", Ok(vec![1])),
            outcome(2, "b", Err(EncodeFailure::Stream)),
            outcome(3, "c", Ok(vec![])),
            outcome(4, "d", Err(EncodeFailure::Exit)),
            outcome(5, "e", Err(EncodeFailure::Timeout)),
            outcome(6, "f", Ok(vec![6, 6])),
        ],
        "wav",
    );
    assert_eq!(
        report.files,
        vec![
            (vec![1], "a.wav".to_string()),
            (vec![], "c.wav".to_string()),
            (vec![6, 6], "f.wav".to_string()),
        ]
    );
    assert_eq!(
        report.failures,
        vec![
            FailedExport { user_id: 2, failure: EncodeFailure::Stream },
            FailedExport { user_id: 4, failure: EncodeFailure::Exit },
            FailedExport { user_id: 5, failure: EncodeFailure::Timeout },
        ]
    );
}

#[test]
fn all_failures_give_no_file() {
    let report = collect(
        vec![outcome(1, "a", Err(EncodeFailure::Exit)), outcome(1, "a", Err(EncodeFailure::Spawn))],
        "ogg",
    );
    assert!(report.files.is_empty());
    assert_eq!(report.failures.len(), 2);
}

#[test]
fn speakers_of_one_name_each_get_their_file() {
    let report = collect(vec![outcome(1, "a", Ok(vec![1])), outcome(2, "a", Ok(vec![2]))], "ogg");
    assert_eq!(
        report.files,
        vec![(vec![1], "a.ogg".to_string()), (vec![2], "a.ogg".to_string())]
    );
    assert!(report.failures.is_empty());
}
