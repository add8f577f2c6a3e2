//! Overwriting a sink and reading a source back.
use e_waste::raw_write;
use e_waste::raw_write::{
    sample_offsets, OverwriteRun, SampleAction, SampleEvent, SampleRun, VerifyOutcome, WriteAction,
    WriteEvent, WriteFault, WriteOutcome, WriteProgress,
};
use std::io::{Cursor, Error, ErrorKind, Read, Seek, SeekFrom, Write};

/// Overwrites `sink`, asking `cancel` and telling `progress` on the way.
fn overwrite<W: Write>(
    sink: &mut W,
    total_bytes: u64,
    pattern: u8,
    chunk_size: usize,
    cancel: &dyn Fn() -> bool,
    progress: &mut dyn FnMut(WriteProgress),
) -> WriteOutcome<Error> {
    let (mut run, mut action) = OverwriteRun::begin(total_bytes, pattern, chunk_size);
    loop {
        let event = match action {
            WriteAction::PollCancel => WriteEvent::CancelPolled(cancel()),
            WriteAction::Write => match sink.write(run.offer()) {
                Ok(n) => WriteEvent::Accepted(n),
                Err(e) if e.kind() == ErrorKind::Interrupted => WriteEvent::Interrupted,
                Err(e) => WriteEvent::Failed(e),
            },
            WriteAction::Report(p) => {
                progress(p);
                WriteEvent::Reported
            }
            WriteAction::Finish(outcome) => return outcome,
        };
        action = raw_write::overwrite(&mut run, event);
    }
}

fn kind_of(fault: &WriteFault<Error>) -> ErrorKind {
    match fault {
        WriteFault::ZeroChunkSize => ErrorKind::InvalidInput,
        WriteFault::WriteZero => ErrorKind::WriteZero,
        WriteFault::Sink(e) => e.kind(),
    }
}

/// Reads samples of `source` back.
fn verify_sample<R: Read + Seek>(
    source: &mut R,
    bytes_written: u64,
    pattern: u8,
    sample_size: usize,
    sample_count: usize,
) -> VerifyOutcome<Error> {
    let (mut run, mut action) =
        SampleRun::begin(bytes_written, pattern, sample_size, sample_count);
    loop {
        let event = match action {
            SampleAction::Read { offset, len } => {
                let mut buffer = vec![0u8; len];
                match source
                    .seek(SeekFrom::Start(offset))
                    .and_then(|_| source.read_exact(&mut buffer))
                {
                    Ok(()) => SampleEvent::Read(buffer),
                    Err(e) => SampleEvent::Failed(e),
                }
            }
            SampleAction::Finish(outcome) => return outcome,
        };
        action = raw_write::verify_sample(&mut run, event);
    }
}

fn never_cancel() -> impl Fn() -> bool {
    || false
}

fn ignore_progress() -> impl FnMut(WriteProgress) {
    |_| {}
}

struct ShortWriteSink {
    limit: usize,
    written: Vec<u8>,
}

impl Write for ShortWriteSink {
    fn write(&mut self, buf: &[u8]) -> std::io::Result<usize> {
        let n = buf.len().min(self.limit);
        self.written.extend_from_slice(&buf[..n]);
        Ok(n)
    }
    fn flush(&mut self) -> std::io::Result<()> {
        Ok(())
    }
}

struct FaultSink {
    accepted: u64,
    fail_at: u64,
    kind: ErrorKind,
    interrupt_budget: u32,
}

impl Write for FaultSink {
    fn write(&mut self, buf: &[u8]) -> std::io::Result<usize> {
        if self.accepted >= self.fail_at {
            if self.kind == ErrorKind::Interrupted && self.interrupt_budget > 0 {
                self.interrupt_budget -= 1;
                return Err(Error::from(ErrorKind::Interrupted));
            }
            if self.kind != ErrorKind::Interrupted {
                return Err(Error::from(self.kind));
            }
        }
        self.accepted += buf.len() as u64;
        Ok(buf.len())
    }
    fn flush(&mut self) -> std::io::Result<()> {
        Ok(())
    }
}

#[test]
fn writes_exact_byte_count_and_pattern() {
    let mut sink: Vec<u8> = Vec::new();
    let outcome = overwrite(
        &mut sink,
        4096,
        0xAA,
        1024,
        &never_cancel(),
        &mut ignore_progress(),
    );

    assert!(matches!(
        outcome,
        WriteOutcome::Completed {
            bytes_written: 4096
        }
    ));
    assert_eq!(sink.len(), 4096);
    assert!(sink.iter().all(|&b| b == 0xAA));
}

#[test]
fn final_chunk_is_a_remainder_when_total_is_not_a_multiple() {
    let mut sink: Vec<u8> = Vec::new();
    let outcome = overwrite(
        &mut sink,
        2500,
        0xFF,
        1024,
        &never_cancel(),
        &mut ignore_progress(),
    );

    assert_eq!(outcome.bytes_written(), 2500);
    assert_eq!(sink.len(), 2500, "must not write past the requested range");
}

#[test]
fn short_writes_are_absorbed_not_treated_as_failure() {
    let mut sink = ShortWriteSink {
        limit: 7,
        written: Vec::new(),
    };
    let outcome = overwrite(
        &mut sink,
        1000,
        0x5A,
        256,
        &never_cancel(),
        &mut ignore_progress(),
    );

    assert!(matches!(
        outcome,
        WriteOutcome::Completed {
            bytes_written: 1000
        }
    ));
    assert_eq!(sink.written.len(), 1000);
    assert!(sink.written.iter().all(|&b| b == 0x5A));
}

#[test]
fn failure_reports_the_offset_reached() {
    let mut sink = FaultSink {
        accepted: 0,
        fail_at: 512,
        kind: ErrorKind::PermissionDenied,
        interrupt_budget: 0,
    };
    let outcome = overwrite(
        &mut sink,
        4096,
        0x00,
        256,
        &never_cancel(),
        &mut ignore_progress(),
    );

    match outcome {
        WriteOutcome::Failed {
            bytes_written,
            source,
        } => {
            assert_eq!(bytes_written, 512, "failure offset must be exact");
            assert_eq!(kind_of(&source), ErrorKind::PermissionDenied);
        }
        other => panic!("expected Failed, got {:?}", other),
    }
}

#[test]
fn interrupted_is_retried_not_reported_as_failure() {
    let mut sink = FaultSink {
        accepted: 0,
        fail_at: 512,
        kind: ErrorKind::Interrupted,
        interrupt_budget: 3,
    };
    let outcome = overwrite(
        &mut sink,
        2048,
        0x11,
        256,
        &never_cancel(),
        &mut ignore_progress(),
    );

    assert!(
        matches!(
            outcome,
            WriteOutcome::Completed {
                bytes_written: 2048
            }
        ),
        "a signal-interrupted syscall must be retried, not surfaced"
    );
}

#[test]
fn zero_byte_sink_is_a_failure_with_the_offset() {
    struct ZeroSink;
    impl Write for ZeroSink {
        fn write(&mut self, _buf: &[u8]) -> std::io::Result<usize> {
            Ok(0)
        }
        fn flush(&mut self) -> std::io::Result<()> {
            Ok(())
        }
    }

    let outcome = overwrite(
        &mut ZeroSink,
        1024,
        0x00,
        256,
        &never_cancel(),
        &mut ignore_progress(),
    );

    match outcome {
        WriteOutcome::Failed {
            bytes_written,
            source,
        } => {
            assert_eq!(bytes_written, 0);
            assert_eq!(kind_of(&source), ErrorKind::WriteZero);
        }
        other => panic!("expected Failed, got {:?}", other),
    }
}

#[test]
fn cancellation_stops_on_a_chunk_boundary() {
    let mut sink: Vec<u8> = Vec::new();
    let seen = std::cell::Cell::new(0u32);
    let cancel = || {
        let n = seen.get();
        seen.set(n + 1);
        n >= 2
    };

    let outcome = overwrite(&mut sink, 4096, 0x77, 256, &cancel, &mut ignore_progress());

    match outcome {
        WriteOutcome::Cancelled { bytes_written } => {
            assert_eq!(bytes_written, 512, "must stop on a clean chunk boundary");
            assert_eq!(sink.len(), 512);
        }
        other => panic!("expected Cancelled, got {:?}", other),
    }
}

#[test]
fn progress_is_monotonic_and_ends_at_total() {
    let mut sink: Vec<u8> = Vec::new();
    let mut seen: Vec<u64> = Vec::new();
    let mut record = |p: WriteProgress| {
        assert_eq!(p.total_bytes, 1000);
        seen.push(p.bytes_written);
    };

    overwrite(&mut sink, 1000, 0x01, 256, &never_cancel(), &mut record);

    assert_eq!(seen, vec![256, 512, 768, 1000]);
    assert!(seen.windows(2).all(|w| w[0] < w[1]));
}

#[test]
fn zero_total_completes_without_writing() {
    let mut sink: Vec<u8> = Vec::new();
    let outcome = overwrite(
        &mut sink,
        0,
        0xAA,
        256,
        &never_cancel(),
        &mut ignore_progress(),
    );

    assert!(matches!(
        outcome,
        WriteOutcome::Completed { bytes_written: 0 }
    ));
    assert!(sink.is_empty());
}

#[test]
fn zero_chunk_size_is_rejected() {
    let mut sink: Vec<u8> = Vec::new();
    let outcome = overwrite(
        &mut sink,
        1024,
        0xAA,
        0,
        &never_cancel(),
        &mut ignore_progress(),
    );

    assert!(matches!(outcome, WriteOutcome::Failed { .. }));
    assert!(sink.is_empty());
}

fn cursor_of(pattern: u8, len: usize) -> Cursor<Vec<u8>> {
    Cursor::new(vec![pattern; len])
}

#[test]
fn verify_zero_bytes_written_is_trivially_verified() {
    let mut source = cursor_of(0x00, 0);
    let outcome = verify_sample(&mut source, 0, 0xAA, 64, 8);
    assert!(matches!(
        outcome,
        VerifyOutcome::Verified { samples_checked: 0 }
    ));
}

#[test]
fn verify_matching_pattern_across_whole_range_succeeds() {
    let mut source = cursor_of(0x5A, 10_000);
    let outcome = verify_sample(&mut source, 10_000, 0x5A, 256, 8);
    assert!(matches!(
        outcome,
        VerifyOutcome::Verified { samples_checked: 8 }
    ));
}

#[test]
fn verify_detects_a_mismatch_and_reports_its_offset() {
    let mut data = vec![0xAA; 10_000];
    data[9999] = 0xFF;
    let mut source = Cursor::new(data);

    let outcome = verify_sample(&mut source, 10_000, 0xAA, 256, 8);
    match outcome {
        VerifyOutcome::Mismatch {
            offset,
            expected,
            found,
        } => {
            assert_eq!(offset, 9999);
            assert_eq!(expected, 0xAA);
            assert_eq!(found, 0xFF);
        }
        other => panic!("expected Mismatch, got {:?}", other),
    }
}

#[test]
fn verify_sample_smaller_than_window_still_checks_available_bytes() {
    let mut source = cursor_of(0x11, 10);
    let outcome = verify_sample(&mut source, 10, 0x11, 256, 8);
    assert!(matches!(
        outcome,
        VerifyOutcome::Verified { samples_checked: 1 }
    ));
}

#[test]
fn verify_read_error_is_reported_not_panicked() {
    struct FailingSeek;
    impl Read for FailingSeek {
        fn read(&mut self, _buf: &mut [u8]) -> std::io::Result<usize> {
            Err(Error::from(ErrorKind::UnexpectedEof))
        }
    }
    impl Seek for FailingSeek {
        fn seek(&mut self, _pos: SeekFrom) -> std::io::Result<u64> {
            Ok(0)
        }
    }

    let outcome = verify_sample(&mut FailingSeek, 1000, 0xAA, 64, 4);
    assert!(matches!(outcome, VerifyOutcome::ReadError { .. }));
}

#[test]
fn sample_offsets_are_evenly_spread_and_deduplicated() {
    let offsets = sample_offsets(1_000_000, 100, 5);
    assert_eq!(offsets.len(), 5);
    assert_eq!(offsets[0], 0);
    assert_eq!(*offsets.last().unwrap(), 1_000_000 - 100);
    assert!(offsets.windows(2).all(|w| w[0] < w[1]));

    assert_eq!(sample_offsets(100, 100, 8), vec![0]);
}

#[test]
fn faults_say_what_went_wrong() {
    let zero_chunk: WriteFault<Error> = WriteFault::ZeroChunkSize;
    let zero_bytes: WriteFault<Error> = WriteFault::WriteZero;
    assert_eq!(zero_chunk.message(), Some("chunk_size must be non-zero"));
    assert_eq!(
        zero_bytes.message(),
        Some("sink accepted zero bytes; device may be full or detached")
    );
    assert_eq!(
        WriteFault::Sink(Error::from(ErrorKind::Other)).message(),
        None
    );
}

#[test]
fn a_failure_inside_a_chunk_reports_the_exact_offset() {
    let mut sink = ShortWriteSink {
        limit: 7,
        written: Vec::new(),
    };
    let (mut run, mut action) = OverwriteRun::begin::<Error>(1000, 0x5A, 256);
    let mut writes = 0;
    let outcome = loop {
        let event = match action {
            WriteAction::PollCancel => WriteEvent::CancelPolled(false),
            WriteAction::Write => {
                writes += 1;
                if writes > 3 {
                    WriteEvent::Failed(Error::from(ErrorKind::Other))
                } else {
                    WriteEvent::Accepted(sink.write(run.offer()).unwrap())
                }
            }
            WriteAction::Report(_) => WriteEvent::Reported,
            WriteAction::Finish(outcome) => break outcome,
        };
        action = raw_write::overwrite(&mut run, event);
    };
    assert_eq!(outcome.bytes_written(), 21);
    assert_eq!(sink.written, vec![0x5A; 21]);
}

#[test]
fn no_samples_wanted_is_verified() {
    let mut source = cursor_of(0x00, 10);
    assert!(matches!(
        verify_sample(&mut source, 10, 0xAA, 4, 0),
        VerifyOutcome::Verified { samples_checked: 0 }
    ));
}

#[test]
fn what_is_written_verifies() {
    for (total, chunk) in [(1, 1), (1000, 256), (4096, 1024), (10, 64)] {
        let mut sink: Vec<u8> = Vec::new();
        let outcome = overwrite(
            &mut sink,
            total,
            0xC3,
            chunk,
            &never_cancel(),
            &mut ignore_progress(),
        );
        assert_eq!(outcome.bytes_written(), total);
        let mut source = Cursor::new(sink);
        assert!(matches!(
            verify_sample(&mut source, total, 0xC3, 16, 5),
            VerifyOutcome::Verified { .. }
        ));
        assert!(matches!(
            verify_sample(&mut source, total, 0xC4, 16, 5),
            VerifyOutcome::Mismatch {
                offset: 0,
                expected: 0xC4,
                found: 0xC3
            }
        ));
    }
}

#[test]
fn read_errors_name_the_start_of_their_window() {
    let mut source = cursor_of(0xAA, 500);
    match verify_sample(&mut source, 1000, 0xAA, 100, 4) {
        VerifyOutcome::ReadError { offset, .. } => assert_eq!(offset, 600),
        other => panic!("expected ReadError, got {:?}", other),
    }
}

#[test]
fn sample_offsets_have_exact_values() {
    assert_eq!(sample_offsets(1_000, 100, 4), vec![0, 300, 600, 900]);
    assert_eq!(sample_offsets(1_000, 100, 1), vec![0]);
    assert_eq!(sample_offsets(1_000, 100, 0), vec![0]);
    assert_eq!(sample_offsets(10, 8, 6), vec![0, 1, 2]);
    assert_eq!(sample_offsets(4, 8, 6), vec![0]);
}

#[test]
fn sample_offsets_are_evenly_spread_over_any_range() {
    assert_eq!(
        sample_offsets(u64::MAX, 1, 3),
        vec![0, 9223372036854775807, 18446744073709551614]
    );
    let offsets = sample_offsets(u64::MAX, 1 << 20, 1000);
    assert_eq!(offsets.len(), 1000);
    assert_eq!(offsets[999], u64::MAX - (1 << 20));
    let (run, action) = SampleRun::begin::<Error>(u64::MAX, 0, 1, 3);
    assert_eq!(run.offsets, sample_offsets(u64::MAX, 1, 3));
    assert!(matches!(action, SampleAction::Read { offset: 0, len: 1 }));
}

#[test]
fn a_wrong_byte_at_either_end_is_found() {
    for at in [0, 9_999] {
        let mut data = vec![0xAA; 10_000];
        data[at] = 0;
        match verify_sample(&mut Cursor::new(data), 10_000, 0xAA, 3, 2) {
            VerifyOutcome::Mismatch { offset, .. } => assert_eq!(offset, at as u64),
            other => panic!("expected Mismatch, got {:?}", other),
        }
    }
}

#[test]
fn interruptions_leave_the_reports_as_they_are() {
    let reports_with = |interrupt_budget: u32| {
        let mut sink = FaultSink {
            accepted: 0,
            fail_at: 512,
            kind: ErrorKind::Interrupted,
            interrupt_budget,
        };
        let mut seen: Vec<u64> = Vec::new();
        let outcome = overwrite(
            &mut sink,
            1000,
            0x11,
            256,
            &never_cancel(),
            &mut |p: WriteProgress| seen.push(p.bytes_written),
        );
        assert_eq!(outcome.bytes_written(), 1000);
        seen
    };
    assert_eq!(reports_with(0), vec![256, 512, 768, 1000]);
    assert_eq!(reports_with(5), reports_with(0));
}
