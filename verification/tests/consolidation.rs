use consolidator::batch::{collect_failures, run_batch, BatchItem};
use consolidator::consolidate::{consolidate, process};
use consolidator::errors::{Error, TrackFault};
use consolidator::track::{DecodeEvent, FormatDesc, Frame};

fn fmt(rate: u32, channels: u32) -> FormatDesc {
    FormatDesc { sample_rate: rate, channels }
}

fn valid_item(label: &str, format: FormatDesc, samples: Vec<u32>) -> BatchItem {
    BatchItem {
        label: label.to_string(),
        events: vec![
            DecodeEvent::Frame(Frame { format, capacity_hint: samples.len(), samples }),
            DecodeEvent::Reset,
        ],
    }
}

fn corrupt_item(label: &str) -> BatchItem {
    BatchItem {
        label: label.to_string(),
        events: vec![DecodeEvent::Reset],
    }
}

#[test]
fn run_batch_keeps_order_and_labels() {
    let items = vec![
        valid_item("first", fmt(8000, 1), vec![1]),
        corrupt_item("second"),
        valid_item("third", fmt(8000, 1), vec![2]),
    ];
    let batch = run_batch(&items);
    assert_eq!(batch.entries.len(), 3);
    assert_eq!(batch.entries[0].label, "first");
    assert_eq!(batch.entries[1].label, "second");
    assert_eq!(batch.entries[2].label, "third");
    assert!(batch.entries[0].outcome.is_ok());
    assert_eq!(
        batch.entries[1].outcome.as_ref().err(),
        Some(&TrackFault::PrematureReset)
    );
    assert!(batch.entries[2].outcome.is_ok());
}

#[test]
fn collect_failures_lists_failed_inputs() {
    let items = vec![
        valid_item("good", fmt(8000, 2), vec![1, 2]),
        corrupt_item("bad"),
        BatchItem {
            label: "worse".to_string(),
            events: vec![DecodeEvent::Fault(TrackFault::UnsupportedFormat)],
        },
    ];
    let batch = run_batch(&items);
    let notes = collect_failures(&batch);
    assert_eq!(notes.len(), 2);
    assert_eq!(notes[0].label, "bad");
    assert_eq!(notes[0].fault, TrackFault::PrematureReset);
    assert_eq!(notes[1].label, "worse");
    assert_eq!(notes[1].fault, TrackFault::UnsupportedFormat);
}

/// The example scenario: two valid inputs of 3 and 5 seconds and one
/// corrupt input. With a rate of 4 Hz and 2 channels, 3 seconds are 24
/// interleaved samples and 5 seconds are 40 more.
#[test]
fn corrupt_input_is_isolated_and_chapters_cover_the_rest() {
    let f = fmt(4, 2);
    let a: Vec<u32> = (0..24).collect();
    let b: Vec<u32> = (100..140).collect();
    let items = vec![
        valid_item("a.mp3", f, a.clone()),
        valid_item("b.flac", f, b.clone()),
        corrupt_item("c.wav"),
    ];
    let report = process(&items);

    let notes = collect_failures(&report.batch);
    assert_eq!(notes.len(), 1);
    assert_eq!(notes[0].label, "c.wav");

    let out = report.output.ok().expect("two valid inputs must consolidate");
    assert_eq!(out.format, f);
    assert_eq!(out.chapters.len(), 2);
    assert_eq!(out.chapters[0].label, "a.mp3");
    assert_eq!(out.chapters[0].start, 0);
    assert_eq!(out.chapters[0].end, 24);
    assert_eq!(out.chapters[1].label, "b.flac");
    assert_eq!(out.chapters[1].start, 24);
    assert_eq!(out.chapters[1].end, 64);
    let mut expected = a;
    expected.extend(b);
    assert_eq!(out.samples, expected);
}

#[test]
fn chapters_are_gapless_and_cover_the_output() {
    let f = fmt(10, 2);
    let items = vec![
        valid_item("one", f, vec![1, 2, 3, 4]),
        valid_item("two", f, vec![5, 6]),
        valid_item("three", f, vec![7, 8, 9, 10, 11, 12]),
    ];
    let report = process(&items);
    let out = report.output.ok().expect("all inputs valid");
    assert_eq!(out.chapters.len(), 3);
    assert_eq!(out.chapters[0].start, 0);
    for w in out.chapters.windows(2) {
        assert_eq!(w[0].end, w[1].start);
        assert!(w[0].start <= w[0].end);
    }
    assert_eq!(out.chapters[2].end, out.samples.len());
}

#[test]
fn mono_track_is_upmixed_by_duplication() {
    let stereo = fmt(8000, 2);
    let mono = fmt(8000, 1);
    let items = vec![
        valid_item("lead", stereo, vec![1, 2, 3, 4]),
        valid_item("tail", mono, vec![5, 6]),
    ];
    let report = process(&items);
    let out = report.output.ok().expect("mono normalizes to stereo");
    assert_eq!(out.format, stereo);
    assert_eq!(out.samples, vec![1, 2, 3, 4, 5, 5, 6, 6]);
    assert_eq!(out.chapters[1].start, 4);
    assert_eq!(out.chapters[1].end, 8);
}

#[test]
fn rate_mismatch_is_fatal_to_the_run() {
    let items = vec![
        valid_item("lead", fmt(44100, 2), vec![1, 2]),
        valid_item("tail", fmt(48000, 2), vec![3, 4]),
    ];
    let report = process(&items);
    assert_eq!(report.output.err(), Some(Error::ConsolidationFailure));
}

#[test]
fn channel_mismatch_beyond_mono_is_fatal_to_the_run() {
    let items = vec![
        valid_item("lead", fmt(8000, 1), vec![1, 2]),
        valid_item("tail", fmt(8000, 2), vec![3, 4]),
    ];
    // the target is mono here, so the stereo track cannot be normalized
    let report = process(&items);
    assert_eq!(report.output.err(), Some(Error::ConsolidationFailure));
}

#[test]
fn batch_with_no_successful_track_has_no_output() {
    let report = process(&vec![corrupt_item("only")]);
    assert_eq!(report.output.err(), Some(Error::ConsolidationFailure));

    let empty = process(&Vec::new());
    assert_eq!(empty.output.err(), Some(Error::ConsolidationFailure));
}

#[test]
fn first_successful_track_fixes_the_target_format() {
    let f = fmt(22050, 2);
    let items = vec![
        corrupt_item("broken"),
        valid_item("keeper", f, vec![9, 9]),
    ];
    let report = process(&items);
    let out = report.output.ok().expect("one valid input suffices");
    assert_eq!(out.format, f);
    assert_eq!(out.chapters.len(), 1);
    assert_eq!(out.chapters[0].label, "keeper");
}

#[test]
fn consolidate_alone_matches_process_output() {
    let f = fmt(8000, 2);
    let items = vec![valid_item("solo", f, vec![1, 2, 3, 4])];
    let batch = run_batch(&items);
    let out = consolidate(&batch).ok().expect("valid input");
    assert_eq!(out.samples, vec![1, 2, 3, 4]);
    assert_eq!(out.chapters.len(), 1);
    assert_eq!(out.chapters[0].label, "solo");
    assert_eq!(out.chapters[0].start, 0);
    assert_eq!(out.chapters[0].end, 4);
}
