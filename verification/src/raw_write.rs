//! The chunked overwrite of a device, and the sampling that reads it back.
//!
//! Neither opens, writes or reads anything. Each is a machine that says what to
//! do next and is told how that went, so that the offset an overwrite reached
//! is known exactly however it ends: it is the boundary between what is
//! provably overwritten and what is untouched.
use vstd::arithmetic::div_mod::*;
use vstd::prelude::*;

verus! {

/// Bytes completed so far against the total requested, reported at every chunk
/// boundary.
#[derive(Debug, Clone, Copy, PartialEq, Eq, Structural)]
pub struct WriteProgress {
    pub bytes_written: u64,
    pub total_bytes: u64,
}

/// Why an overwrite failed. `Sink` carries the sink's own error.
#[derive(Debug)]
pub enum WriteFault<E> {
    ZeroChunkSize,
    WriteZero,
    Sink(E),
}

/// How an overwrite ended. Every variant carries `bytes_written`: a run that
/// stopped early is still evidence of how far it got.
#[derive(Debug)]
pub enum WriteOutcome<E> {
    Completed { bytes_written: u64 },
    Cancelled { bytes_written: u64 },
    Failed { bytes_written: u64, source: WriteFault<E> },
}

impl<E> WriteFault<E> {
    /// What went wrong, in words, where the sink did not say so itself.
    pub fn message(&self) -> (r: Option<&'static str>)
        ensures
            match *self {
                WriteFault::ZeroChunkSize => r matches Some(m) && m@
                    == "chunk_size must be non-zero"@,
                WriteFault::WriteZero => r matches Some(m) && m@
                    == "sink accepted zero bytes; device may be full or detached"@,
                WriteFault::Sink(_) => r is None,
            },
    {
        match self {
            WriteFault::ZeroChunkSize => Some("chunk_size must be non-zero"),
            WriteFault::WriteZero => Some(
                "sink accepted zero bytes; device may be full or detached",
            ),
            WriteFault::Sink(_) => None,
        }
    }
}

impl<E> WriteOutcome<E> {
    /// The offset that an outcome records.
    pub open spec fn offset(self) -> u64 {
        match self {
            WriteOutcome::Completed { bytes_written } => bytes_written,
            WriteOutcome::Cancelled { bytes_written } => bytes_written,
            WriteOutcome::Failed { bytes_written, .. } => bytes_written,
        }
    }

    /// The offset reached, whatever the ending. Only a `Completed` outcome
    /// means that the whole requested range was covered.
    pub fn bytes_written(&self) -> (r: u64)
        ensures
            r == self.offset(),
    {
        match self {
            WriteOutcome::Completed { bytes_written } => *bytes_written,
            WriteOutcome::Cancelled { bytes_written } => *bytes_written,
            WriteOutcome::Failed { bytes_written, .. } => *bytes_written,
        }
    }
}

/// What an overwrite is waiting for.
#[derive(Debug, Clone, Copy, PartialEq, Eq, Structural)]
pub enum WriteStage {
    /// At a chunk boundary: whether to cancel.
    Boundary,
    /// Inside a chunk: how many bytes the sink accepts.
    Writing,
    /// A chunk is complete: that the progress was reported.
    Reporting,
    /// Nothing; the run is over.
    Ended,
}

/// What to do next.
#[derive(Debug)]
pub enum WriteAction<E> {
    /// Ask whether the run is to be cancelled.
    PollCancel,
    /// Write to the sink what [`OverwriteRun::offer`] gives, in one call.
    Write,
    /// Report this progress.
    Report(WriteProgress),
    /// Stop: the run ended like this.
    Finish(WriteOutcome<E>),
}

/// How the last action went.
#[derive(Debug)]
pub enum WriteEvent<E> {
    /// Whether the run is to be cancelled.
    CancelPolled(bool),
    /// The sink took this many of the bytes that it was offered.
    Accepted(usize),
    /// The write was interrupted before it took any byte.
    Interrupted,
    /// The write failed.
    Failed(E),
    /// The progress was reported.
    Reported,
}

/// An overwrite in progress.
pub struct OverwriteRun {
    pub total_bytes: u64,
    pub pattern: u8,
    /// One chunk of the pattern.
    pub buffer: Vec<u8>,
    /// How many bytes the sink has accepted so far.
    pub accepted: u64,
    pub stage: WriteStage,
}

/// The part of an overwrite that its decisions depend on.
pub struct RunState {
    pub total: nat,
    pub chunk: nat,
    pub accepted: nat,
    pub stage: WriteStage,
}

impl RunState {
    /// Whether this is the end of a chunk: a multiple of the chunk size, or the
    /// end of the range.
    pub open spec fn at_boundary(self) -> bool {
        self.accepted % self.chunk == 0 || self.accepted == self.total
    }

    /// How many bytes are left of the chunk under way; the last chunk ends
    /// where the range ends.
    pub open spec fn left_in_chunk(self) -> nat {
        let to_boundary = (self.chunk - self.accepted % self.chunk) as nat;
        let to_end = (self.total - self.accepted) as nat;
        if to_boundary <= to_end {
            to_boundary
        } else {
            to_end
        }
    }

    /// What holds between any two events.
    pub open spec fn valid(self) -> bool {
        &&& self.accepted <= self.total
        &&& match self.stage {
            WriteStage::Boundary => self.chunk > 0 && self.accepted < self.total && self.accepted
                % self.chunk == 0,
            WriteStage::Writing => self.chunk > 0 && self.accepted < self.total,
            WriteStage::Reporting => self.chunk > 0 && self.accepted > 0 && self.at_boundary(),
            WriteStage::Ended => true,
        }
    }

    /// Whether `event` answers what the run is waiting for. A sink never
    /// accepts more than it was offered.
    pub open spec fn awaits<E>(self, event: WriteEvent<E>) -> bool {
        match event {
            WriteEvent::CancelPolled(_) => self.stage is Boundary,
            WriteEvent::Accepted(n) => self.stage is Writing && n <= self.left_in_chunk(),
            WriteEvent::Interrupted => self.stage is Writing,
            WriteEvent::Failed(_) => self.stage is Writing,
            WriteEvent::Reported => self.stage is Reporting,
        }
    }

    pub open spec fn at_stage(self, stage: WriteStage) -> RunState {
        RunState { stage, ..self }
    }

    pub open spec fn progress(self) -> WriteProgress {
        WriteProgress { bytes_written: self.accepted as u64, total_bytes: self.total as u64 }
    }

    /// How a run starts, and what it asks for first.
    pub open spec fn begun<E>(total: nat, chunk: nat) -> (RunState, WriteAction<E>) {
        let start = RunState { total, chunk, accepted: 0, stage: WriteStage::Boundary };
        if chunk == 0 {
            (
                start.at_stage(WriteStage::Ended),
                WriteAction::Finish(
                    WriteOutcome::Failed { bytes_written: 0, source: WriteFault::ZeroChunkSize },
                ),
            )
        } else if total == 0 {
            (
                start.at_stage(WriteStage::Ended),
                WriteAction::Finish(WriteOutcome::Completed { bytes_written: 0 }),
            )
        } else {
            (start, WriteAction::PollCancel)
        }
    }

    /// What an event leads to, and what is asked for next.
    pub open spec fn after<E>(self, event: WriteEvent<E>) -> (RunState, WriteAction<E>) {
        let here = self.accepted as u64;
        let ended = self.at_stage(WriteStage::Ended);
        match event {
            WriteEvent::CancelPolled(true) => (
                ended,
                WriteAction::Finish(WriteOutcome::Cancelled { bytes_written: here }),
            ),
            WriteEvent::CancelPolled(false) => (
                self.at_stage(WriteStage::Writing),
                WriteAction::Write,
            ),
            WriteEvent::Accepted(n) => if n == 0 {
                (
                    ended,
                    WriteAction::Finish(
                        WriteOutcome::Failed { bytes_written: here, source: WriteFault::WriteZero },
                    ),
                )
            } else {
                let grown = RunState { accepted: self.accepted + n as nat, ..self };
                if grown.at_boundary() {
                    (
                        grown.at_stage(WriteStage::Reporting),
                        WriteAction::Report(grown.progress()),
                    )
                } else {
                    (grown, WriteAction::Write)
                }
            },
            WriteEvent::Interrupted => (self, WriteAction::Write),
            WriteEvent::Failed(e) => (
                ended,
                WriteAction::Finish(
                    WriteOutcome::Failed { bytes_written: here, source: WriteFault::Sink(e) },
                ),
            ),
            WriteEvent::Reported => if self.accepted == self.total {
                (ended, WriteAction::Finish(WriteOutcome::Completed { bytes_written: here }))
            } else {
                (self.at_stage(WriteStage::Boundary), WriteAction::PollCancel)
            },
        }
    }
}

impl OverwriteRun {
    /// The part of this overwrite that its decisions depend on.
    pub open spec fn state(&self) -> RunState {
        RunState {
            total: self.total_bytes as nat,
            chunk: self.buffer@.len(),
            accepted: self.accepted as nat,
            stage: self.stage,
        }
    }

    /// The buffer holds nothing but the pattern, and the counts are consistent.
    pub open spec fn wf(&self) -> bool {
        &&& self.state().valid()
        &&& forall|i: int| 0 <= i < self.buffer@.len() ==> self.buffer@[i] == self.pattern
    }

    /// Begins to write `pattern` over `total_bytes`, in chunks of `chunk_size`,
    /// and says what to do first. A chunk has to fit into one allocation.
    pub fn begin<E>(total_bytes: u64, pattern: u8, chunk_size: usize) -> (r: (
        OverwriteRun,
        WriteAction<E>,
    ))
        requires
            chunk_size <= isize::MAX,
        ensures
            r.0.wf(),
            r.0.pattern == pattern,
            (r.0.state(), r.1) == RunState::begun::<E>(total_bytes as nat, chunk_size as nat),
    {
        if chunk_size == 0 {
            let run = OverwriteRun {
                total_bytes,
                pattern,
                buffer: Vec::new(),
                accepted: 0,
                stage: WriteStage::Ended,
            };
            return (
                run,
                WriteAction::Finish(
                    WriteOutcome::Failed { bytes_written: 0, source: WriteFault::ZeroChunkSize },
                ),
            );
        }
        let buffer: Vec<u8> = vec![pattern; chunk_size];
        assert forall|i: int| 0 <= i < buffer@.len() implies buffer@[i] == pattern by {
            assert(cloned(pattern, buffer@[i]));
        }
        let mut run = OverwriteRun {
            total_bytes,
            pattern,
            buffer,
            accepted: 0,
            stage: WriteStage::Boundary,
        };
        if total_bytes == 0 {
            run.stage = WriteStage::Ended;
            (run, WriteAction::Finish(WriteOutcome::Completed { bytes_written: 0 }))
        } else {
            proof {
                lemma_small_mod(0, chunk_size as nat);
            }
            (run, WriteAction::PollCancel)
        }
    }

    /// How many bytes are left of the chunk under way.
    fn left(&self) -> (r: usize)
        requires
            self.wf(),
            self.stage is Writing,
        ensures
            r == self.state().left_in_chunk(),
            0 < r <= self.buffer@.len(),
    {
        let chunk: u64 = self.buffer.len() as u64;
        let to_boundary: u64 = chunk - self.accepted % chunk;
        let to_end: u64 = self.total_bytes - self.accepted;
        if to_boundary <= to_end {
            to_boundary as usize
        } else {
            to_end as usize
        }
    }

    /// The bytes to write next: the pattern, up to the end of the chunk under
    /// way and never past the requested range.
    pub fn offer(&self) -> (r: &[u8])
        requires
            self.wf(),
            self.stage is Writing,
        ensures
            r@.len() == self.state().left_in_chunk(),
            0 < r@.len(),
            self.accepted + r@.len() <= self.total_bytes,
            forall|i: int| 0 <= i < r@.len() ==> r@[i] == self.pattern,
    {
        let n = self.left();
        vstd::slice::slice_subrange(self.buffer.as_slice(), 0, n)
    }
}

/// Takes one event of an overwrite and says what to do next.
///
/// Cancellation is asked for at chunk boundaries only, so a chunk is never
/// abandoned half-written. A short write goes on with the rest of the chunk, an
/// interrupted one is tried again, and any other failure ends the run with the
/// offset that was reached.
pub fn overwrite<E>(run: &mut OverwriteRun, event: WriteEvent<E>) -> (r: WriteAction<E>)
    requires
        old(run).wf(),
        old(run).state().awaits(event),
    ensures
        final(run).wf(),
        final(run).pattern == old(run).pattern,
        (final(run).state(), r) == old(run).state().after(event),
{
    match event {
        WriteEvent::CancelPolled(cancel) => {
            if cancel {
                run.stage = WriteStage::Ended;
                WriteAction::Finish(WriteOutcome::Cancelled { bytes_written: run.accepted })
            } else {
                run.stage = WriteStage::Writing;
                WriteAction::Write
            }
        },
        WriteEvent::Accepted(n) => {
            if n == 0 {
                run.stage = WriteStage::Ended;
                return WriteAction::Finish(
                    WriteOutcome::Failed {
                        bytes_written: run.accepted,
                        source: WriteFault::WriteZero,
                    },
                );
            }
            let chunk: u64 = run.buffer.len() as u64;
            run.accepted = run.accepted + n as u64;
            if run.accepted % chunk == 0 || run.accepted == run.total_bytes {
                run.stage = WriteStage::Reporting;
                WriteAction::Report(
                    WriteProgress { bytes_written: run.accepted, total_bytes: run.total_bytes },
                )
            } else {
                WriteAction::Write
            }
        },
        WriteEvent::Interrupted => WriteAction::Write,
        WriteEvent::Failed(e) => {
            run.stage = WriteStage::Ended;
            WriteAction::Finish(
                WriteOutcome::Failed { bytes_written: run.accepted, source: WriteFault::Sink(e) },
            )
        },
        WriteEvent::Reported => {
            if run.accepted == run.total_bytes {
                run.stage = WriteStage::Ended;
                WriteAction::Finish(WriteOutcome::Completed { bytes_written: run.accepted })
            } else {
                run.stage = WriteStage::Boundary;
                WriteAction::PollCancel
            }
        },
    }
}

// --- Laws of a whole overwrite -----------------------------------------------

/// The state that `events` lead to from `start`.
pub open spec fn ran<E>(start: RunState, events: Seq<WriteEvent<E>>) -> RunState
    decreases events.len(),
{
    if events.len() == 0 {
        start
    } else {
        ran(start, events.drop_last()).after(events.last()).0
    }
}

/// Whether each event answers what the run was waiting for when it came.
pub open spec fn conforms<E>(start: RunState, events: Seq<WriteEvent<E>>) -> bool
    decreases events.len(),
{
    events.len() == 0 || {
        &&& conforms(start, events.drop_last())
        &&& ran(start, events.drop_last()).awaits(events.last())
    }
}

/// What a run of `total` bytes in chunks of `chunk` asks for after `events`.
pub open spec fn asked<E>(total: nat, chunk: nat, events: Seq<WriteEvent<E>>) -> WriteAction<E> {
    let begun = RunState::begun::<E>(total, chunk);
    if events.len() == 0 {
        begun.1
    } else {
        ran(begun.0, events.drop_last()).after(events.last()).1
    }
}

/// How many bytes the sink accepted in all.
pub open spec fn taken<E>(events: Seq<WriteEvent<E>>) -> nat
    decreases events.len(),
{
    if events.len() == 0 {
        0
    } else {
        let before = taken(events.drop_last());
        match events.last() {
            WriteEvent::Accepted(n) => before + n as nat,
            _ => before,
        }
    }
}

/// The progress reports of a run, in order.
pub open spec fn reports<E>(total: nat, chunk: nat, events: Seq<WriteEvent<E>>) -> Seq<
    WriteProgress,
>
    decreases events.len(),
{
    if events.len() == 0 {
        Seq::empty()
    } else {
        let before = reports(total, chunk, events.drop_last());
        match asked(total, chunk, events) {
            WriteAction::Report(progress) => before.push(progress),
            _ => before,
        }
    }
}

/// An event keeps a state valid, and the range and chunk size as they are.
proof fn lemma_after_valid<E>(s: RunState, event: WriteEvent<E>)
    requires
        s.valid(),
        s.awaits(event),
    ensures
        s.after(event).0.valid(),
        s.after(event).0.total == s.total,
        s.after(event).0.chunk == s.chunk,
{
}

/// The offset of an overwrite is, at every moment and however it ends, the
/// number of bytes that the sink accepted; and it never passes the requested
/// range.
pub proof fn law_offset_is_bytes_accepted<E>(total: nat, chunk: nat, events: Seq<WriteEvent<E>>)
    requires
        total <= u64::MAX,
        conforms(RunState::begun::<E>(total, chunk).0, events),
    ensures
        ({
            let state = ran(RunState::begun::<E>(total, chunk).0, events);
            &&& state.valid()
            &&& state.total == total
            &&& state.chunk == chunk
            &&& state.accepted == taken(events)
            &&& taken(events) <= total
        }),
        asked(total, chunk, events) matches WriteAction::Finish(outcome) ==> outcome.offset()
            == taken(events),
    decreases events.len(),
{
    let start = RunState::begun::<E>(total, chunk).0;
    if events.len() == 0 {
        if chunk > 0 {
            lemma_small_mod(0, chunk);
        }
    } else {
        law_offset_is_bytes_accepted(total, chunk, events.drop_last());
        lemma_after_valid(ran(start, events.drop_last()), events.last());
    }
}

/// Only a run that covered the whole range is reported as completed.
pub proof fn law_completed_covers_the_range<E>(total: nat, chunk: nat, events: Seq<WriteEvent<E>>)
    requires
        total <= u64::MAX,
        conforms(RunState::begun::<E>(total, chunk).0, events),
    ensures
        asked(total, chunk, events) matches WriteAction::Finish(
            WriteOutcome::Completed { bytes_written },
        ) ==> bytes_written == total && taken(events) == total,
{
    law_offset_is_bytes_accepted(total, chunk, events);
    if events.len() > 0 {
        law_offset_is_bytes_accepted(total, chunk, events.drop_last());
    }
}

/// A cancelled run stops on a chunk boundary, short of the end.
pub proof fn law_cancellation_lands_on_a_boundary<E>(
    total: nat,
    chunk: nat,
    events: Seq<WriteEvent<E>>,
)
    requires
        total <= u64::MAX,
        conforms(RunState::begun::<E>(total, chunk).0, events),
    ensures
        asked(total, chunk, events) matches WriteAction::Finish(
            WriteOutcome::Cancelled { bytes_written },
        ) ==> chunk > 0 && bytes_written as nat % chunk == 0 && bytes_written < total
            && bytes_written == taken(events),
{
    law_offset_is_bytes_accepted(total, chunk, events);
    if events.len() > 0 {
        law_offset_is_bytes_accepted(total, chunk, events.drop_last());
    }
}

/// Each report is the number of bytes accepted so far, at a chunk boundary or
/// at the end of the range; the reports grow strictly; and a completed run that
/// had anything to write ends with a report of the whole range.
pub proof fn law_progress_grows_to_the_total<E>(total: nat, chunk: nat, events: Seq<WriteEvent<E>>)
    requires
        total <= u64::MAX,
        conforms(RunState::begun::<E>(total, chunk).0, events),
    ensures
        forall|i: int|
            0 <= i < reports(total, chunk, events).len() ==> report_fits(
                #[trigger] reports(total, chunk, events)[i],
                total,
                chunk,
                taken(events),
            ),
        forall|i: int, j: int|
            0 <= i < j < reports(total, chunk, events).len() ==> (#[trigger] reports(
                total,
                chunk,
                events,
            )[i]).bytes_written < (#[trigger] reports(total, chunk, events)[j]).bytes_written,
        asked(total, chunk, events) matches WriteAction::Finish(
            WriteOutcome::Completed { .. },
        ) ==> total > 0 ==> reports(total, chunk, events).len() > 0 && reports(
            total,
            chunk,
            events,
        ).last().bytes_written == total,
    decreases events.len(),
{
    law_offset_is_bytes_accepted(total, chunk, events);
    if events.len() > 0 {
        let before = reports(total, chunk, events.drop_last());
        law_offset_is_bytes_accepted(total, chunk, events.drop_last());
        law_progress_grows_to_the_total(total, chunk, events.drop_last());
        lemma_reporting_follows_a_report(total, chunk, events.drop_last());
        assert(taken(events.drop_last()) <= taken(events));
        assert forall|i: int| 0 <= i < before.len() implies report_fits(
            #[trigger] before[i],
            total,
            chunk,
            taken(events),
        ) by {}
        if let WriteAction::Report(progress) = asked(total, chunk, events) {
            assert(report_fits(progress, total, chunk, taken(events)));
            assert(progress.bytes_written == taken(events) > taken(events.drop_last()));
        }
    }
}

/// A report of some bytes out of `total`, of which `accepted` have been taken
/// by now: at a chunk boundary, or at the end of the range.
pub open spec fn report_fits(report: WriteProgress, total: nat, chunk: nat, accepted: nat) -> bool {
    &&& report.total_bytes == total
    &&& 0 < report.bytes_written <= accepted
    &&& report.bytes_written as nat % chunk == 0 || report.bytes_written == total
}

/// A run that waits for a report to be made has just asked for it.
proof fn lemma_reporting_follows_a_report<E>(total: nat, chunk: nat, events: Seq<WriteEvent<E>>)
    requires
        total <= u64::MAX,
        conforms(RunState::begun::<E>(total, chunk).0, events),
    ensures
        ({
            let state = ran(RunState::begun::<E>(total, chunk).0, events);
            state.stage is Reporting ==> {
                &&& reports(total, chunk, events).len() > 0
                &&& reports(total, chunk, events).last() == state.progress()
            }
        }),
{
    law_offset_is_bytes_accepted(total, chunk, events);
}

/// An interrupted write is tried again and leaves no other trace: a run reaches
/// the state, has the bytes accepted and makes the reports that it does without
/// its interruptions; and what it asks for after any other event is the same.
pub proof fn law_interruptions_change_nothing<E>(
    total: nat,
    chunk: nat,
    events: Seq<WriteEvent<E>>,
)
    requires
        conforms(RunState::begun::<E>(total, chunk).0, events),
    ensures
        ({
            let start = RunState::begun::<E>(total, chunk).0;
            let kept = events.filter(|e: WriteEvent<E>| !(e is Interrupted));
            &&& conforms(start, kept)
            &&& ran(start, kept) == ran(start, events)
            &&& taken(kept) == taken(events)
            &&& reports(total, chunk, kept) == reports(total, chunk, events)
            &&& if events.len() > 0 && events.last() is Interrupted {
                asked(total, chunk, events) == WriteAction::<E>::Write
            } else {
                asked(total, chunk, events) == asked(total, chunk, kept)
            }
        }),
    decreases events.len(),
{
    reveal(Seq::filter);
    let pred = |e: WriteEvent<E>| !(e is Interrupted);
    if events.len() > 0 {
        let before = events.drop_last();
        law_interruptions_change_nothing(total, chunk, before);
        let kept_before = before.filter(pred);
        if pred(events.last()) {
            assert(events.filter(pred) == kept_before.push(events.last()));
            assert(kept_before.push(events.last()).drop_last() =~= kept_before);
        } else {
            assert(events.filter(pred) == kept_before);
        }
    }
}

/// What a run asks for, told by its events alone and at whatever offset it is.
///
/// A cancellation ends it at once, with the bytes accepted so far; so do a
/// failure, with the sink's own error, and a sink that accepts nothing. A write
/// that ends a chunk or the range is reported, and after a report the run asks
/// whether to cancel, unless it is complete. Everything else is written on.
pub proof fn law_what_a_run_asks_for<E>(total: nat, chunk: nat, events: Seq<WriteEvent<E>>)
    requires
        total <= u64::MAX,
        conforms(RunState::begun::<E>(total, chunk).0, events),
    ensures
        asked(total, chunk, events) == if events.len() == 0 {
            if chunk == 0 {
                WriteAction::Finish(
                    WriteOutcome::<E>::Failed {
                        bytes_written: 0,
                        source: WriteFault::ZeroChunkSize,
                    },
                )
            } else if total == 0 {
                WriteAction::Finish(WriteOutcome::Completed { bytes_written: 0 })
            } else {
                WriteAction::PollCancel
            }
        } else {
            let n = taken(events) as u64;
            match events.last() {
                WriteEvent::CancelPolled(true) => WriteAction::Finish(
                    WriteOutcome::Cancelled { bytes_written: n },
                ),
                WriteEvent::CancelPolled(false) => WriteAction::Write,
                WriteEvent::Accepted(0) => WriteAction::Finish(
                    WriteOutcome::Failed { bytes_written: n, source: WriteFault::WriteZero },
                ),
                WriteEvent::Accepted(_) => if taken(events) % chunk == 0 || taken(events)
                    == total {
                    WriteAction::Report(
                        WriteProgress { bytes_written: n, total_bytes: total as u64 },
                    )
                } else {
                    WriteAction::Write
                },
                WriteEvent::Interrupted => WriteAction::Write,
                WriteEvent::Failed(e) => WriteAction::Finish(
                    WriteOutcome::Failed { bytes_written: n, source: WriteFault::Sink(e) },
                ),
                WriteEvent::Reported => if taken(events) == total {
                    WriteAction::Finish(WriteOutcome::Completed { bytes_written: n })
                } else {
                    WriteAction::PollCancel
                },
            }
        },
{
    law_offset_is_bytes_accepted(total, chunk, events);
    if events.len() > 0 {
        law_offset_is_bytes_accepted(total, chunk, events.drop_last());
    }
}

/// Which events may follow: exactly those that answer what was asked for. A
/// write is offered the bytes up to the next multiple of the chunk size or the
/// end of the range, whichever comes first, and can accept no more than those.
pub proof fn law_what_may_follow<E>(
    total: nat,
    chunk: nat,
    events: Seq<WriteEvent<E>>,
    next: WriteEvent<E>,
)
    requires
        total <= u64::MAX,
        conforms(RunState::begun::<E>(total, chunk).0, events),
    ensures
        conforms(RunState::begun::<E>(total, chunk).0, events.push(next)) <==> match asked(
            total,
            chunk,
            events,
        ) {
            WriteAction::PollCancel => next is CancelPolled,
            WriteAction::Write => match next {
                WriteEvent::Accepted(n) => n <= chunk - taken(events) % chunk && n <= total
                    - taken(events),
                WriteEvent::Interrupted => true,
                WriteEvent::Failed(_) => true,
                _ => false,
            },
            WriteAction::Report(_) => next is Reported,
            WriteAction::Finish(_) => false,
        },
{
    law_offset_is_bytes_accepted(total, chunk, events);
    lemma_stage_is_what_was_asked(total, chunk, events);
    assert(events.push(next).drop_last() =~= events);
}

/// The stage of a run tells what it asked for last.
proof fn lemma_stage_is_what_was_asked<E>(total: nat, chunk: nat, events: Seq<WriteEvent<E>>)
    requires
        total <= u64::MAX,
        conforms(RunState::begun::<E>(total, chunk).0, events),
    ensures
        match ran(RunState::begun::<E>(total, chunk).0, events).stage {
            WriteStage::Boundary => asked(total, chunk, events) is PollCancel,
            WriteStage::Writing => asked(total, chunk, events) is Write,
            WriteStage::Reporting => asked(total, chunk, events) is Report,
            WriteStage::Ended => asked(total, chunk, events) is Finish,
        },
{
    law_offset_is_bytes_accepted(total, chunk, events);
    if events.len() > 0 {
        law_offset_is_bytes_accepted(total, chunk, events.drop_last());
    }
}

/// Nothing follows an event that ends a run: a cancellation, a failure, or a
/// write of nothing is the last event, so no byte is accepted after it.
pub proof fn law_nothing_follows_the_end<E>(
    total: nat,
    chunk: nat,
    events: Seq<WriteEvent<E>>,
    i: int,
)
    requires
        total <= u64::MAX,
        conforms(RunState::begun::<E>(total, chunk).0, events),
        0 <= i < events.len(),
        events[i] == WriteEvent::<E>::CancelPolled(true) || events[i] == WriteEvent::<E>::Accepted(
            0,
        ) || events[i] is Failed,
    ensures
        i == events.len() - 1,
    decreases events.len(),
{
    if i < events.len() - 1 {
        let before = events.drop_last();
        law_nothing_follows_the_end(total, chunk, before, i);
        law_what_a_run_asks_for(total, chunk, before);
        law_what_may_follow(total, chunk, before, events.last());
        assert(before.push(events.last()) =~= events);
    }
}

/// Whether to cancel is asked at every multiple of the chunk size short of the
/// end, and nowhere else; each time before anything behind it is written.
pub proof fn law_every_chunk_begins_with_a_question<E>(
    total: nat,
    chunk: nat,
    events: Seq<WriteEvent<E>>,
    i: int,
)
    requires
        total <= u64::MAX,
        conforms(RunState::begun::<E>(total, chunk).0, events),
        0 <= i < events.len(),
    ensures
        events[i] is CancelPolled ==> taken(events.take(i)) % chunk == 0 && taken(events.take(i))
            < total,
        events[i] matches WriteEvent::Accepted(n) && n > 0 && taken(events.take(i)) % chunk == 0
            ==> exists|j: int|
            0 <= j < i && events[j] == WriteEvent::<E>::CancelPolled(false) && taken(
                events.take(j),
            ) == taken(events.take(i)),
{
    lemma_conforms_prefix(total, chunk, events, i);
    lemma_conforms_prefix(total, chunk, events, i + 1);
    let before = events.take(i);
    assert(events.take(i + 1).drop_last() =~= before);
    assert(events.take(i + 1).last() == events[i]);
    law_offset_is_bytes_accepted(total, chunk, before);
    if ran(RunState::begun::<E>(total, chunk).0, before).stage is Writing && taken(before) % chunk
        == 0 {
        lemma_writing_follows_a_question(total, chunk, before);
        let j = choose|j: int|
            0 <= j < before.len() && #[trigger] before[j] == WriteEvent::<E>::CancelPolled(false)
                && taken(before.take(j)) == taken(before);
        assert(before.take(j) =~= events.take(j));
        assert(events[j] == WriteEvent::<E>::CancelPolled(false));
    }
}

/// What conforms, conforms up to any event.
proof fn lemma_conforms_prefix<E>(total: nat, chunk: nat, events: Seq<WriteEvent<E>>, k: int)
    requires
        conforms(RunState::begun::<E>(total, chunk).0, events),
        0 <= k <= events.len(),
    ensures
        conforms(RunState::begun::<E>(total, chunk).0, events.take(k)),
    decreases events.len(),
{
    if k < events.len() {
        lemma_conforms_prefix(total, chunk, events.drop_last(), k);
        assert(events.drop_last().take(k) =~= events.take(k));
    } else {
        assert(events.take(k) =~= events);
    }
}

/// A chunk that is about to be written from its start was asked about.
proof fn lemma_writing_follows_a_question<E>(total: nat, chunk: nat, events: Seq<WriteEvent<E>>)
    requires
        total <= u64::MAX,
        conforms(RunState::begun::<E>(total, chunk).0, events),
        ran(RunState::begun::<E>(total, chunk).0, events).stage is Writing,
        taken(events) % chunk == 0,
    ensures
        exists|j: int|
            0 <= j < events.len() && #[trigger] events[j] == WriteEvent::<E>::CancelPolled(false)
                && taken(events.take(j)) == taken(events),
    decreases events.len(),
{
    law_offset_is_bytes_accepted(total, chunk, events);
    if events.len() > 0 {
        let before = events.drop_last();
        law_offset_is_bytes_accepted(total, chunk, before);
        assert(events.take(events.len() - 1) =~= before);
        if events.last() is CancelPolled {
            assert(events[events.len() - 1] == WriteEvent::<E>::CancelPolled(false));
        } else {
            lemma_writing_follows_a_question(total, chunk, before);
            let j = choose|j: int|
                0 <= j < before.len() && #[trigger] before[j] == WriteEvent::<E>::CancelPolled(
                    false,
                ) && taken(before.take(j)) == taken(before);
            assert(events[j] == before[j]);
            assert(events.take(j) =~= before.take(j));
        }
    }
}

/// The reports of a run are one for each chunk: the first of the whole first
/// chunk, each further one of a chunk more, and the last of the whole range;
/// and there is one for each chunk that is complete.
pub proof fn law_one_report_per_chunk<E>(total: nat, chunk: nat, events: Seq<WriteEvent<E>>)
    requires
        total <= u64::MAX,
        conforms(RunState::begun::<E>(total, chunk).0, events),
        0 < chunk,
        0 < total,
    ensures
        reports(total, chunk, events).len() == taken(events) / chunk + if taken(events) == total
            && total % chunk != 0 {
            1nat
        } else {
            0nat
        },
        forall|k: int|
            0 <= k < reports(total, chunk, events).len() ==> (#[trigger] reports(
                total,
                chunk,
                events,
            )[k]) == (WriteProgress {
                bytes_written: if (k + 1) * chunk <= total {
                    ((k + 1) * chunk) as u64
                } else {
                    total as u64
                },
                total_bytes: total as u64,
            }),
    decreases events.len(),
{
    if events.len() == 0 {
        lemma_div_basics(chunk as int);
    } else {
        let before = events.drop_last();
        law_one_report_per_chunk(total, chunk, before);
        law_offset_is_bytes_accepted(total, chunk, before);
        law_offset_is_bytes_accepted(total, chunk, events);
        law_what_a_run_asks_for(total, chunk, events);
        if let WriteEvent::Accepted(n) = events.last() {
            let t = taken(before);
            lemma_chunk_step(t, n as nat, chunk, total);
            if n > 0 && (taken(events) % chunk == 0 || taken(events) == total) {
                let k = reports(total, chunk, before).len() as int;
                assert(reports(total, chunk, events) =~= reports(total, chunk, before).push(
                    WriteProgress {
                        bytes_written: taken(events) as u64,
                        total_bytes: total as u64,
                    },
                ));
            }
        }
    }
}

/// A write that stays within its chunk completes that chunk or none.
proof fn lemma_chunk_step(t: nat, n: nat, chunk: nat, total: nat)
    requires
        0 < chunk,
        n <= chunk - t % chunk,
        t < total,
        t + n <= total,
    ensures
        (t + n) % chunk == 0 && n > 0 ==> (t + n) / chunk == t / chunk + 1 && (t / chunk + 1) * chunk
            == t + n,
        (t + n) % chunk != 0 || n == 0 ==> (t + n) / chunk == t / chunk,
        (t + n) % chunk != 0 ==> (t / chunk + 1) * chunk > t + n,
{
    lemma_fundamental_div_mod(t as int, chunk as int);
    lemma_fundamental_div_mod((t + n) as int, chunk as int);
    let q = (t / chunk) as int;
    let r = (t % chunk) as int;
    let c = chunk as int;
    assert((q + 1) * c == q * c + c) by (nonlinear_arith);
    assert(c * q == q * c) by (nonlinear_arith);
    if r + n < chunk {
        lemma_fundamental_div_mod_converse((t + n) as int, c, q, r + n);
    } else {
        assert((q + 1) * c == t + n);
        lemma_fundamental_div_mod_converse((t + n) as int, c, q + 1, 0);
    }
}

/// How far an overwrite is from its end, in events.
spec fn distance(s: RunState) -> int {
    3 * (s.total - s.accepted) + match s.stage {
        WriteStage::Reporting => 2int,
        WriteStage::Boundary => 1int,
        _ => 0int,
    }
}

/// Each event but an interruption brings a run nearer to its end.
proof fn lemma_distance_shrinks<E>(total: nat, chunk: nat, events: Seq<WriteEvent<E>>)
    requires
        total <= u64::MAX,
        conforms(RunState::begun::<E>(total, chunk).0, events),
        forall|i: int| 0 <= i < events.len() ==> !(#[trigger] events[i] is Interrupted),
    ensures
        events.len() <= 3 * total + 2,
        !(ran(RunState::begun::<E>(total, chunk).0, events).stage is Ended) ==> distance(
            ran(RunState::begun::<E>(total, chunk).0, events),
        ) + events.len() <= 3 * total + 1,
    decreases events.len(),
{
    if events.len() > 0 {
        law_offset_is_bytes_accepted(total, chunk, events.drop_last());
        lemma_distance_shrinks(total, chunk, events.drop_last());
        assert(!(events.last() is Interrupted));
    }
}

/// A run ends: whatever the sink accepts, and whether or not it fails or is
/// cancelled, there are no more than three events per byte, and two more,
/// besides the interruptions.
pub proof fn law_runs_end<E>(total: nat, chunk: nat, events: Seq<WriteEvent<E>>)
    requires
        total <= u64::MAX,
        conforms(RunState::begun::<E>(total, chunk).0, events),
        forall|i: int| 0 <= i < events.len() ==> !(#[trigger] events[i] is Interrupted),
    ensures
        events.len() <= 3 * total + 2,
{
    lemma_distance_shrinks(total, chunk, events);
}

// --- Reading back ------------------------------------------------------------

/// How a read-back sample compared with the pattern that was written. A
/// `ReadError` carries the offset at which the failing window starts: a failed
/// read gives no byte to point to.
#[derive(Debug)]
pub enum VerifyOutcome<E> {
    Verified { samples_checked: usize },
    Mismatch { offset: u64, expected: u8, found: u8 },
    ReadError { offset: u64, source: E },
}

/// The last offset at which a window still fits into the range.
pub open spec fn last_start(total: nat, window: nat) -> nat {
    if total >= window {
        (total - window) as nat
    } else {
        0
    }
}

/// The start of the window number `i` of `count` that are spread evenly, the
/// first at 0 and the last at `last`.
pub open spec fn spread_offset(last: nat, count: nat, i: nat) -> nat {
    last * i / (count - 1) as nat
}

/// The starts of the first `k` of `count` evenly spread windows, without those
/// that repeat the one before.
pub open spec fn spread_starts(last: nat, count: nat, k: nat) -> Seq<u64>
    decreases k,
{
    if k == 0 {
        Seq::empty()
    } else {
        let front = spread_starts(last, count, (k - 1) as nat);
        let start = spread_offset(last, count, (k - 1) as nat) as u64;
        if front.len() > 0 && front.last() == start {
            front
        } else {
            front.push(start)
        }
    }
}

/// The starts of `count` windows, evenly spread and each once; one window
/// alone, or windows that can start nowhere but at 0, are the window at 0.
pub open spec fn window_starts(last: nat, count: nat) -> Seq<u64> {
    if count <= 1 || last == 0 {
        seq![0u64]
    } else {
        spread_starts(last, count, count)
    }
}

/// Spread offsets run from 0 to `last`.
proof fn lemma_spread_offset_bounds(last: nat, count: nat, i: nat, j: nat)
    requires
        1 < count,
        i <= j < count,
    ensures
        spread_offset(last, count, i) <= spread_offset(last, count, j) <= last,
        spread_offset(last, count, 0) == 0,
        spread_offset(last, count, (count - 1) as nat) == last,
        last * i <= last * j <= last * (count - 1),
{
    let d = count - 1;
    assert(last * i <= last * j <= last * d) by (nonlinear_arith)
        requires
            i <= j <= d,
            0 <= last,
    ;
    lemma_div_is_ordered(last * i as int, last * j as int, d);
    lemma_div_is_ordered(last * j as int, last * d, d);
    lemma_div_by_multiple(last as int, d);
    assert(last * 0 == 0);
    assert(0int / d == 0) by {
        lemma_div_basics(d);
    }
}

/// Start offsets for `count` windows of `window` bytes within `total` bytes,
/// evenly spread and without duplicates (in a small range several of them can
/// fall together).
pub fn sample_offsets(total: u64, window: u64, count: usize) -> (r: Vec<u64>)
    ensures
        r@ == window_starts(last_start(total as nat, window as nat), count as nat),
{
    let last: u64 = if total >= window {
        total - window
    } else {
        0
    };
    let mut offsets: Vec<u64> = Vec::new();
    if count <= 1 || last == 0 {
        offsets.push(0);
        assert(offsets@ =~= seq![0u64]);
        return offsets;
    }
    let mut i: usize = 0;
    while i < count
        invariant
            1 < count,
            i <= count,
            offsets@ == spread_starts(last as nat, count as nat, i as nat),
        decreases count - i,
    {
        proof {
            lemma_spread_offset_bounds(last as nat, count as nat, i as nat, i as nat);
            assert(last * i <= u64::MAX * u64::MAX) by (nonlinear_arith)
                requires
                    last <= u64::MAX,
                    i <= u64::MAX,
            ;
        }
        // The product of two 64-bit numbers may need 128 bits; the start does not.
        let offset: u64 = (last as u128 * i as u128 / (count as u128 - 1)) as u64;
        if offsets.len() == 0 || offsets[offsets.len() - 1] != offset {
            offsets.push(offset);
        }
        i += 1;
    }
    offsets
}

/// The starts so far grow strictly from 0 to that of the last window, and there
/// are no more than windows.
proof fn lemma_spread_starts(last: nat, count: nat, k: nat)
    requires
        1 < count,
        0 < k <= count,
        last <= u64::MAX,
    ensures
        ({
            let starts = spread_starts(last, count, k);
            &&& 0 < starts.len() <= k
            &&& starts.first() == 0
            &&& starts.last() == spread_offset(last, count, (k - 1) as nat)
            &&& forall|i: int, j: int| 0 <= i < j < starts.len() ==> starts[i] < starts[j]
            &&& forall|i: int| 0 <= i < starts.len() ==> #[trigger] starts[i] <= starts.last()
            &&& forall|i: nat|
                i < k ==> starts.contains(#[trigger] spread_offset(last, count, i) as u64)
        }),
    decreases k,
{
    let starts = spread_starts(last, count, k);
    let start = spread_offset(last, count, (k - 1) as nat) as u64;
    lemma_spread_offset_bounds(last, count, (k - 1) as nat, (k - 1) as nat);
    if k > 1 {
        let front = spread_starts(last, count, (k - 1) as nat);
        lemma_spread_starts(last, count, (k - 1) as nat);
        lemma_spread_offset_bounds(last, count, (k - 2) as nat, (k - 1) as nat);
        assert forall|i: nat| i < k implies starts.contains(
            #[trigger] spread_offset(last, count, i) as u64,
        ) by {
            if i < k - 1 {
                let at = choose|at: int|
                    0 <= at < front.len() && front[at] == spread_offset(last, count, i) as u64;
                assert(starts[at] == front[at]);
            } else {
                assert(starts[starts.len() - 1] == start);
            }
        }
    } else {
        assert(spread_starts(last, count, 0) =~= Seq::<u64>::empty());
        assert forall|i: nat| i < k implies starts.contains(
            #[trigger] spread_offset(last, count, i) as u64,
        ) by {
            assert(starts[0] == start);
        }
    }
}

/// The windows that are sampled start at 0, end where the range ends, and lie
/// inside it; they are distinct, in order, and no more than were asked for; and
/// each of the evenly spread windows is among them.
pub proof fn law_samples_span_the_range(total: nat, window: nat, count: nat)
    requires
        0 < window <= total <= u64::MAX,
    ensures
        ({
            let last = last_start(total, window);
            let starts = window_starts(last, count);
            &&& 0 < starts.len()
            &&& starts.len() <= if count <= 1 {
                1
            } else {
                count
            }
            &&& starts.first() == 0
            &&& 1 < count ==> starts.last() + window == total
            &&& forall|i: int| 0 <= i < starts.len() ==> #[trigger] starts[i] + window <= total
            &&& forall|i: int, j: int| 0 <= i < j < starts.len() ==> starts[i] < starts[j]
            &&& 1 < count && 0 < last ==> forall|i: nat|
                i < count ==> starts.contains(#[trigger] spread_offset(last, count, i) as u64)
        }),
{
    let last = last_start(total, window);
    if 1 < count && last != 0 {
        lemma_spread_starts(last, count, count);
        lemma_spread_offset_bounds(last, count, 0, 0);
    }
}

/// One window, or windows that do not leave any room, are the window at 0.
pub proof fn law_one_window_starts_at_zero(total: nat, window: nat, count: nat)
    requires
        count <= 1 || total <= window,
    ensures
        window_starts(last_start(total, window), count) == seq![0u64],
{
}

/// The windows are evenly spread, by arithmetic: with `d` for one less than their
/// number, a window `i` starts at the whole number `s` next below `last * i / d`,
/// and each start number `k` is that of some window `w`; so two neighbouring
/// starts are at most `last / d + 1` apart.
pub proof fn law_windows_are_evenly_spread(
    total: nat,
    window: nat,
    count: nat,
    i: nat,
    s: u64,
    k: int,
) -> (w: nat)
    requires
        1 < count,
        window < total <= u64::MAX,
    ensures
        ({
            let last = total - window;
            let d = count - 1;
            let starts = window_starts(last_start(total, window), count);
            &&& i < count && s * d <= last * i < (s + 1) * d ==> starts.contains(s)
            &&& 0 <= k < starts.len() ==> w < count && starts[k] * d <= last * w < (starts[k] + 1)
                * d
            &&& 0 <= k < starts.len() - 1 ==> starts[k + 1] - starts[k] <= last / d + 1
        }),
{
    let last = last_start(total, window);
    let d = count - 1;
    let starts = window_starts(last, count);
    lemma_spread_starts(last, count, count);
    if i < count && s * d <= last * i < (s + 1) * d {
        lemma_quotient(last * i as int, d, s as int);
        assert(starts.contains(spread_offset(last, count, i) as u64));
    }
    lemma_starts_are_close(last, count, count);
    if 0 <= k < starts.len() {
        lemma_starts_are_offsets(last, count, count);
        let w = choose|w: nat| w < count && #[trigger] spread_offset(last, count, w) == starts[k];
        assert(spread_offset(last, count, w) == starts[k]);
        lemma_quotient_bounds(last * w as int, d);
        w
    } else {
        0
    }
}

/// A quotient, from what it has to satisfy.
proof fn lemma_quotient(x: int, d: int, s: int)
    requires
        0 < d,
        s * d <= x < (s + 1) * d,
    ensures
        x / d == s,
{
    assert((s + 1) * d == s * d + d) by (nonlinear_arith);
    lemma_fundamental_div_mod_converse(x, d, s, x - s * d);
}

/// What a quotient satisfies.
proof fn lemma_quotient_bounds(x: int, d: int)
    requires
        0 < d,
    ensures
        (x / d) * d <= x < (x / d + 1) * d,
{
    lemma_fundamental_div_mod(x, d);
    assert((x / d + 1) * d == (x / d) * d + d) by (nonlinear_arith);
    assert(d * (x / d) == (x / d) * d) by (nonlinear_arith);
}

/// Each start is that of a window.
proof fn lemma_starts_are_offsets(last: nat, count: nat, k: nat)
    requires
        1 < count,
        k <= count,
        last <= u64::MAX,
    ensures
        forall|j: int|
            0 <= j < spread_starts(last, count, k).len() ==> exists|i: nat|
                i < k && #[trigger] spread_offset(last, count, i) == #[trigger] spread_starts(
                    last,
                    count,
                    k,
                )[j],
    decreases k,
{
    if k > 0 {
        let front = spread_starts(last, count, (k - 1) as nat);
        let starts = spread_starts(last, count, k);
        lemma_starts_are_offsets(last, count, (k - 1) as nat);
        lemma_spread_offset_bounds(last, count, (k - 1) as nat, (k - 1) as nat);
        assert forall|j: int| 0 <= j < starts.len() implies exists|i: nat|
            i < k && #[trigger] spread_offset(last, count, i) == #[trigger] starts[j] by {
            if j < front.len() {
                assert(starts[j] == front[j]);
                let i = choose|i: nat|
                    i < k - 1 && #[trigger] spread_offset(last, count, i) == front[j];
                assert(spread_offset(last, count, i) == starts[j]);
            } else {
                assert(starts[j] == spread_offset(last, count, (k - 1) as nat));
            }
        }
    }
}

/// Neighbouring starts are no further apart than neighbouring windows.
proof fn lemma_starts_are_close(last: nat, count: nat, k: nat)
    requires
        1 < count,
        0 < k <= count,
        last <= u64::MAX,
    ensures
        forall|j: int|
            0 <= j < spread_starts(last, count, k).len() - 1 ==> #[trigger] spread_starts(
                last,
                count,
                k,
            )[j + 1] - spread_starts(last, count, k)[j] <= last as int / (count - 1) + 1,
    decreases k,
{
    if k > 1 {
        let front = spread_starts(last, count, (k - 1) as nat);
        let starts = spread_starts(last, count, k);
        let d = count - 1;
        lemma_starts_are_close(last, count, (k - 1) as nat);
        lemma_spread_starts(last, count, (k - 1) as nat);
        lemma_spread_starts(last, count, k);
        let a = (last * (k - 2)) as int;
        let b = (last * (k - 1)) as int;
        assert(b == a + last) by (nonlinear_arith)
            requires
                a == last * (k - 2),
                b == last * (k - 1),
        ;
        lemma_quotient_bounds(a, d);
        lemma_quotient_bounds(b, d);
        lemma_quotient_bounds(last as int, d);
        let (x, y, z) = (a / d, b / d, last as int / d);
        assert(y <= x + z + 1) by (nonlinear_arith)
            requires
                y * d <= a + last,
                a < (x + 1) * d,
                last < (z + 1) * d,
                0 < d,
        ;
        assert(spread_offset(last, count, (k - 2) as nat) == x);
        assert(spread_offset(last, count, (k - 1) as nat) == y);
        assert forall|j: int| 0 <= j < starts.len() - 1 implies #[trigger] starts[j + 1]
            - starts[j] <= last as int / (count - 1) + 1 by {
            if j + 1 < front.len() {
                assert(starts[j + 1] == front[j + 1] && starts[j] == front[j]);
            } else {
                assert(starts[j] == front.last());
            }
        }
    } else {
        assert(spread_starts(last, count, 0) =~= Seq::<u64>::empty());
    }
}

/// How many bytes at the front of `bytes` equal `pattern`.
pub open spec fn matching_prefix(bytes: Seq<u8>, pattern: u8) -> nat
    decreases bytes.len(),
{
    if bytes.len() > 0 && bytes.first() == pattern {
        1 + matching_prefix(bytes.drop_first(), pattern)
    } else {
        0
    }
}

/// The matching prefix ends at the first byte that differs, or at the end.
pub proof fn lemma_matching_prefix(bytes: Seq<u8>, pattern: u8)
    ensures
        matching_prefix(bytes, pattern) <= bytes.len(),
        forall|i: int| 0 <= i < matching_prefix(bytes, pattern) ==> bytes[i] == pattern,
        matching_prefix(bytes, pattern) < bytes.len() ==> bytes[matching_prefix(
            bytes,
            pattern,
        ) as int] != pattern,
    decreases bytes.len(),
{
    if bytes.len() > 0 && bytes.first() == pattern {
        lemma_matching_prefix(bytes.drop_first(), pattern);
        assert forall|i: int| 0 <= i < matching_prefix(bytes, pattern) implies bytes[i]
            == pattern by {
            if i > 0 {
                assert(bytes[i] == bytes.drop_first()[i - 1]);
            }
        }
    }
}

/// The position of the first byte of `bytes` that differs from `pattern`, or
/// the length where none does.
fn first_difference(bytes: &Vec<u8>, pattern: u8) -> (r: usize)
    ensures
        r == matching_prefix(bytes@, pattern),
        r <= bytes@.len(),
{
    proof {
        lemma_matching_prefix(bytes@, pattern);
    }
    let mut i: usize = 0;
    while i < bytes.len() && bytes[i] == pattern
        invariant
            i <= bytes@.len(),
            forall|k: int| 0 <= k < i ==> bytes@[k] == pattern,
        decreases bytes.len() - i,
    {
        i += 1;
    }
    proof {
        let m = matching_prefix(bytes@, pattern);
        if m < i {
            assert(bytes@[m as int] == pattern);
        }
    }
    i
}

/// The size of a sample window: `sample_size`, but no more than what was
/// written and at least one byte.
pub open spec fn window_size(bytes_written: nat, sample_size: nat) -> nat {
    let least = if sample_size <= bytes_written {
        sample_size
    } else {
        bytes_written
    };
    if least >= 1 {
        least
    } else {
        1
    }
}

/// What to do next to verify an overwrite.
#[derive(Debug)]
pub enum SampleAction<E> {
    /// Read exactly `len` bytes at `offset`.
    Read { offset: u64, len: usize },
    /// Stop: the verification ended like this.
    Finish(VerifyOutcome<E>),
}

/// How the last read went.
#[derive(Debug)]
pub enum SampleEvent<E> {
    /// The bytes of the window.
    Read(Vec<u8>),
    /// The window could not be reached or not be read in full.
    Failed(E),
}

/// A verification in progress.
pub struct SampleRun {
    pub bytes_written: u64,
    pub pattern: u8,
    pub window: usize,
    /// Where the windows start.
    pub offsets: Vec<u64>,
    /// How many windows have been read and found to hold the pattern.
    pub checked: usize,
}

impl SampleRun {
    /// The windows lie within what was written, and no more have been checked
    /// than there are.
    pub open spec fn wf(&self) -> bool {
        &&& self.window > 0
        &&& self.checked <= self.offsets@.len()
        &&& forall|i: int|
            0 <= i < self.offsets@.len() ==> #[trigger] self.offsets@[i] + self.window
                <= self.bytes_written
    }

    /// What is asked for when `checked` windows are found to be right.
    pub open spec fn asks<E>(&self, checked: nat) -> SampleAction<E> {
        if checked < self.offsets@.len() {
            SampleAction::Read { offset: self.offsets@[checked as int], len: self.window }
        } else {
            SampleAction::Finish(VerifyOutcome::Verified { samples_checked: checked as usize })
        }
    }

    /// How many windows are found to be right after `event`, and what is asked
    /// for then.
    pub open spec fn after<E>(&self, event: SampleEvent<E>) -> (nat, SampleAction<E>) {
        let here = self.offsets@[self.checked as int];
        match event {
            SampleEvent::Failed(e) => (
                self.checked as nat,
                SampleAction::Finish(VerifyOutcome::ReadError { offset: here, source: e }),
            ),
            SampleEvent::Read(bytes) => {
                let same = matching_prefix(bytes@, self.pattern);
                if same < bytes@.len() {
                    (
                        self.checked as nat,
                        SampleAction::Finish(
                            VerifyOutcome::Mismatch {
                                offset: (here + same) as u64,
                                expected: self.pattern,
                                found: bytes@[same as int],
                            },
                        ),
                    )
                } else {
                    (self.checked as nat + 1, self.asks((self.checked + 1) as nat))
                }
            },
        }
    }

    /// Begins to check `sample_count` evenly spread windows of `sample_size`
    /// bytes out of the `bytes_written` bytes that were written with `pattern`,
    /// and says what to do first. Where nothing was written or no window is
    /// wanted there is nothing to check.
    pub fn begin<E>(
        bytes_written: u64,
        pattern: u8,
        sample_size: usize,
        sample_count: usize,
    ) -> (r: (SampleRun, SampleAction<E>))
        ensures
            r.0.wf(),
            r.0.bytes_written == bytes_written,
            r.0.pattern == pattern,
            r.0.window == window_size(bytes_written as nat, sample_size as nat),
            r.0.checked == 0,
            if bytes_written == 0 || sample_count == 0 {
                r.0.offsets@.len() == 0
            } else {
                r.0.offsets@ == window_starts(
                    last_start(bytes_written as nat, r.0.window as nat),
                    sample_count as nat,
                )
            },
            r.1 == r.0.asks::<E>(0),
    {
        let mut window: usize = sample_size;
        if window as u64 > bytes_written {
            window = bytes_written as usize;
        }
        if window < 1 {
            window = 1;
        }
        if bytes_written == 0 || sample_count == 0 {
            let run = SampleRun { bytes_written, pattern, window, offsets: Vec::new(), checked: 0 };
            return (run, SampleAction::Finish(VerifyOutcome::Verified { samples_checked: 0 }));
        }
        let offsets = sample_offsets(bytes_written, window as u64, sample_count);
        proof {
            law_samples_span_the_range(bytes_written as nat, window as nat, sample_count as nat);
        }
        let first: u64 = offsets[0];
        let run = SampleRun { bytes_written, pattern, window, offsets, checked: 0 };
        (run, SampleAction::Read { offset: first, len: window })
    }
}

/// Takes the outcome of one read and says what to do next.
///
/// A window that holds anything but the pattern ends the verification at the
/// first byte that differs, and a window that cannot be read ends it at the
/// window's start. When every window holds the pattern, all is verified.
pub fn verify_sample<E>(run: &mut SampleRun, event: SampleEvent<E>) -> (r: SampleAction<E>)
    requires
        old(run).wf(),
        old(run).checked < old(run).offsets@.len(),
        event matches SampleEvent::Read(bytes) ==> bytes@.len() == old(run).window,
    ensures
        final(run).wf(),
        final(run).bytes_written == old(run).bytes_written,
        final(run).pattern == old(run).pattern,
        final(run).window == old(run).window,
        final(run).offsets@ == old(run).offsets@,
        (final(run).checked as nat, r) == old(run).after(event),
{
    let count: usize = run.offsets.len();
    let here: u64 = run.offsets[run.checked];
    match event {
        SampleEvent::Failed(e) => {
            SampleAction::Finish(VerifyOutcome::ReadError { offset: here, source: e })
        },
        SampleEvent::Read(bytes) => {
            let same = first_difference(&bytes, run.pattern);
            if same < bytes.len() {
                return SampleAction::Finish(
                    VerifyOutcome::Mismatch {
                        offset: here + same as u64,
                        expected: run.pattern,
                        found: bytes[same],
                    },
                );
            }
            run.checked = run.checked + 1;
            if run.checked < count {
                SampleAction::Read { offset: run.offsets[run.checked], len: run.window }
            } else {
                SampleAction::Finish(VerifyOutcome::Verified { samples_checked: run.checked })
            }
        },
    }
}

/// The bytes that a window of `medium` holds.
pub open spec fn window_of(medium: Seq<u8>, offset: u64, window: usize) -> Seq<u8> {
    medium.subrange(offset as int, offset + window)
}

/// How the windows of `medium` from number `k` on compare with the pattern,
/// when each read gives what the medium holds: the run's steps one after
/// another.
pub open spec fn judgement<E>(run: SampleRun, medium: Seq<u8>, k: nat) -> VerifyOutcome<E>
    decreases run.offsets@.len() - k,
{
    if k >= run.offsets@.len() {
        VerifyOutcome::Verified { samples_checked: k as usize }
    } else {
        let offset = run.offsets@[k as int];
        let bytes = window_of(medium, offset, run.window);
        let same = matching_prefix(bytes, run.pattern);
        if same < bytes.len() {
            VerifyOutcome::Mismatch {
                offset: (offset + same) as u64,
                expected: run.pattern,
                found: bytes[same as int],
            }
        } else {
            judgement(run, medium, k + 1)
        }
    }
}

/// One step of a verification that reads `medium` leaves the judgement of the
/// rest as it is: a step that goes on keeps it, and a step that ends gives it.
pub proof fn law_verification_follows_the_medium<E>(
    run: SampleRun,
    medium: Seq<u8>,
    bytes: Vec<u8>,
)
    requires
        run.wf(),
        run.checked < run.offsets@.len() <= usize::MAX,
        medium.len() >= run.bytes_written,
        bytes@ == window_of(medium, run.offsets@[run.checked as int], run.window),
    ensures
        ({
            let (checked, action) = run.after(SampleEvent::<E>::Read(bytes));
            match action {
                SampleAction::Read { .. } => judgement::<E>(run, medium, run.checked as nat)
                    == judgement::<E>(run, medium, checked),
                SampleAction::Finish(outcome) => judgement::<E>(run, medium, run.checked as nat)
                    == outcome,
            }
        }),
{
}

/// A verification succeeds only where every byte of every window is the
/// pattern, and a mismatch names a byte of the medium that is not.
pub proof fn law_verified_windows_hold_the_pattern<E>(run: SampleRun, medium: Seq<u8>, k: nat)
    requires
        run.wf(),
        k <= run.offsets@.len() <= usize::MAX,
        medium.len() >= run.bytes_written,
    ensures
        match judgement::<E>(run, medium, k) {
            VerifyOutcome::Verified { samples_checked } => {
                &&& samples_checked == run.offsets@.len()
                &&& forall|w: int, i: int|
                    #![trigger run.offsets@[w], medium[i]]
                    k <= w < run.offsets@.len() && run.offsets@[w] <= i < run.offsets@[w]
                        + run.window ==> medium[i] == run.pattern
            },
            VerifyOutcome::Mismatch { offset, expected, found } => {
                &&& offset < run.bytes_written
                &&& expected == run.pattern
                &&& found == medium[offset as int]
                &&& found != run.pattern
            },
            VerifyOutcome::ReadError { .. } => false,
        },
    decreases run.offsets@.len() - k,
{
    if k < run.offsets@.len() {
        let offset = run.offsets@[k as int];
        let bytes = window_of(medium, offset, run.window);
        lemma_matching_prefix(bytes, run.pattern);
        if matching_prefix(bytes, run.pattern) >= bytes.len() {
            law_verified_windows_hold_the_pattern::<E>(run, medium, k + 1);
            assert forall|i: int| offset <= i < offset + run.window implies #[trigger] medium[i]
                == run.pattern by {
                assert(medium[i] == bytes[i - offset]);
            }
        }
    }
}

/// With two windows or more, a wrong byte at either end of the range is always
/// found: the first window starts where the range does, and the last one ends
/// where it ends.
pub proof fn law_a_wrong_byte_at_an_end_is_found<E>(run: SampleRun, medium: Seq<u8>, count: nat)
    requires
        run.wf(),
        run.window <= run.bytes_written,
        1 < count <= usize::MAX,
        run.offsets@ == window_starts(
            last_start(run.bytes_written as nat, run.window as nat),
            count,
        ),
        medium.len() >= run.bytes_written,
        medium[0] != run.pattern || medium[run.bytes_written - 1] != run.pattern,
    ensures
        judgement::<E>(run, medium, 0) is Mismatch,
{
    law_samples_span_the_range(run.bytes_written as nat, run.window as nat, count);
    law_verified_windows_hold_the_pattern::<E>(run, medium, 0);
    let starts = run.offsets@;
    let end = starts.len() - 1;
    assert(starts[0] == 0);
    assert(starts[end] + run.window == run.bytes_written);
}

/// A stretch of wrong bytes that is longer than the distance of two neighbouring
/// windows is always found, wherever it lies.
pub proof fn law_a_long_wrong_stretch_is_found<E>(
    run: SampleRun,
    medium: Seq<u8>,
    count: nat,
    from: int,
    to: int,
)
    requires
        run.wf(),
        run.window < run.bytes_written,
        1 < count <= usize::MAX,
        run.offsets@ == window_starts(
            last_start(run.bytes_written as nat, run.window as nat),
            count,
        ),
        medium.len() >= run.bytes_written,
        0 <= from < to <= run.bytes_written,
        to - from > (run.bytes_written - run.window) / (count - 1),
        forall|i: int| from <= i < to ==> medium[i] != run.pattern,
    ensures
        judgement::<E>(run, medium, 0) is Mismatch,
{
    let starts = run.offsets@;
    law_samples_span_the_range(run.bytes_written as nat, run.window as nat, count);
    assert forall|j: int| 0 <= j < starts.len() - 1 implies #[trigger] starts[j + 1] - starts[j]
        <= to - from by {
        law_windows_are_evenly_spread(run.bytes_written as nat, run.window as nat, count, 0, 0, j);
    }
    law_verified_windows_hold_the_pattern::<E>(run, medium, 0);
    let (w, i) = lemma_a_window_meets(starts, run.window as int, from, to, 0);
    assert(medium[i] != run.pattern);
    assert(run.offsets@[w] <= i);
}

/// Windows that are close enough leave no room for a long stretch: there is a
/// window with a position of the stretch in it.
proof fn lemma_a_window_meets(
    starts: Seq<u64>,
    window: int,
    from: int,
    to: int,
    k: int,
) -> (r: (int, int))
    requires
        0 < window,
        0 <= k < starts.len(),
        0 <= from < to <= starts.last() + window,
        starts[k] <= from || k == 0 && starts[0] == 0,
        forall|j: int| 0 <= j < starts.len() - 1 ==> #[trigger] starts[j + 1] - starts[j] <= to
            - from,
    ensures
        0 <= r.0 < starts.len(),
        starts[r.0] <= r.1 < starts[r.0] + window,
        from <= r.1 < to,
    decreases starts.len() - k,
{
    if from < starts[k] + window {
        (k, from)
    } else if k + 1 < starts.len() && starts[k + 1] <= from {
        lemma_a_window_meets(starts, window, from, to, k + 1)
    } else {
        assert(k + 1 < starts.len());
        assert(starts[k + 1] - starts[k] <= to - from);
        (k + 1, starts[k + 1] as int)
    }
}

/// The size of a window is at least one byte and no more than what was written
/// or asked for, where there is something of either; and it is one of the three.
pub proof fn law_window_sizes(bytes_written: nat, sample_size: nat)
    ensures
        1 <= window_size(bytes_written, sample_size),
        1 <= bytes_written ==> window_size(bytes_written, sample_size) <= bytes_written,
        1 <= sample_size ==> window_size(bytes_written, sample_size) <= sample_size,
        1 <= sample_size <= bytes_written ==> window_size(bytes_written, sample_size)
            == sample_size,
        1 <= bytes_written <= sample_size ==> window_size(bytes_written, sample_size)
            == bytes_written,
        bytes_written == 0 || sample_size == 0 ==> window_size(bytes_written, sample_size) == 1,
{
}

/// What one read leads to. A window that holds the pattern throughout is counted
/// and the next one is asked for, in order and in full, until all are counted; a
/// byte that differs, with nothing that differs before it in the window, ends the
/// verification there; and a read that fails ends it at the window's start.
pub proof fn law_what_one_read_leads_to<E>(run: SampleRun, bytes: Vec<u8>, e: E, p: int)
    requires
        run.wf(),
        run.checked < run.offsets@.len() <= usize::MAX,
        bytes@.len() == run.window,
    ensures
        (forall|i: int| 0 <= i < bytes@.len() ==> bytes@[i] == run.pattern) ==> run.after(
            SampleEvent::<E>::Read(bytes),
        ) == (
            (run.checked + 1) as nat,
            if run.checked + 1 < run.offsets@.len() {
                SampleAction::<E>::Read {
                    offset: run.offsets@[run.checked + 1],
                    len: run.window,
                }
            } else {
                SampleAction::Finish(
                    VerifyOutcome::Verified { samples_checked: run.offsets@.len() as usize },
                )
            },
        ),
        0 <= p < bytes@.len() && bytes@[p] != run.pattern && (forall|i: int|
            0 <= i < p ==> bytes@[i] == run.pattern) ==> run.after(SampleEvent::<E>::Read(bytes))
            == (
            run.checked as nat,
            SampleAction::<E>::Finish(
                VerifyOutcome::Mismatch {
                    offset: (run.offsets@[run.checked as int] + p) as u64,
                    expected: run.pattern,
                    found: bytes@[p],
                },
            ),
        ),
        run.after(SampleEvent::<E>::Failed(e)) == (
            run.checked as nat,
            SampleAction::<E>::Finish(
                VerifyOutcome::ReadError { offset: run.offsets@[run.checked as int], source: e },
            ),
        ),
        run.asks::<E>(0) == (SampleAction::<E>::Read { offset: run.offsets@[0], len: run.window }),
{
    lemma_matching_prefix(bytes@, run.pattern);
    let m = matching_prefix(bytes@, run.pattern) as int;
    if 0 <= p < bytes@.len() && bytes@[p] != run.pattern && (forall|i: int|
        0 <= i < p ==> bytes@[i] == run.pattern) {
        if p < m {
            assert(bytes@[p] == run.pattern);
        }
        if m < p {
            assert(bytes@[m] == run.pattern);
        }
    }
}

/// Without windows there is nothing to read, and the verification ends at once
/// with none checked; with windows, the first is read first.
pub proof fn law_what_is_read_first<E>(run: SampleRun)
    ensures
        run.offsets@.len() == 0 ==> run.asks::<E>(0) == SampleAction::<E>::Finish(
            VerifyOutcome::Verified { samples_checked: 0 },
        ),
        run.offsets@.len() > 0 ==> run.asks::<E>(0) == (SampleAction::<E>::Read {
            offset: run.offsets@[0],
            len: run.window,
        }),
{
}

/// A medium that holds the pattern throughout is always verified, with every
/// window counted.
pub proof fn law_a_clean_medium_verifies<E>(run: SampleRun, medium: Seq<u8>, k: nat)
    requires
        run.wf(),
        k <= run.offsets@.len() <= usize::MAX,
        medium.len() >= run.bytes_written,
        forall|i: int| 0 <= i < run.bytes_written ==> medium[i] == run.pattern,
    ensures
        judgement::<E>(run, medium, k) == (VerifyOutcome::<E>::Verified {
            samples_checked: run.offsets@.len() as usize,
        }),
    decreases run.offsets@.len() - k,
{
    if k < run.offsets@.len() {
        let bytes = window_of(medium, run.offsets@[k as int], run.window);
        lemma_matching_prefix(bytes, run.pattern);
        law_a_clean_medium_verifies::<E>(run, medium, k + 1);
    }
}

/// The bytes that a sink was given and accepted, in order: each time the first
/// ones of what [`OverwriteRun::offer`] gives, which is the pattern throughout.
pub open spec fn written<E>(pattern: u8, events: Seq<WriteEvent<E>>) -> Seq<u8>
    decreases events.len(),
{
    if events.len() == 0 {
        Seq::empty()
    } else {
        let before = written(pattern, events.drop_last());
        match events.last() {
            WriteEvent::Accepted(n) => before + Seq::new(n as nat, |i: int| pattern),
            _ => before,
        }
    }
}

/// What a sink accepted is the pattern, as often as there are bytes accepted.
proof fn lemma_written_is_the_pattern<E>(pattern: u8, events: Seq<WriteEvent<E>>)
    ensures
        written(pattern, events).len() == taken(events),
        forall|i: int|
            0 <= i < taken(events) ==> #[trigger] written(pattern, events)[i] == pattern,
    decreases events.len(),
{
    if events.len() > 0 {
        lemma_written_is_the_pattern(pattern, events.drop_last());
    }
}

/// What an overwrite wrote is read back as such: on a medium that keeps what it
/// was given, a verification of the offset that the overwrite reached finds
/// every window right, however the overwrite ended.
pub proof fn law_what_is_written_verifies<E, F>(
    total: nat,
    chunk: nat,
    events: Seq<WriteEvent<E>>,
    run: SampleRun,
    medium: Seq<u8>,
)
    requires
        total <= u64::MAX,
        conforms(RunState::begun::<E>(total, chunk).0, events),
        run.wf(),
        run.checked == 0,
        run.offsets@.len() <= usize::MAX,
        run.bytes_written == ran(RunState::begun::<E>(total, chunk).0, events).accepted,
        written(run.pattern, events).is_prefix_of(medium),
    ensures
        judgement::<F>(run, medium, 0) == (VerifyOutcome::<F>::Verified {
            samples_checked: run.offsets@.len() as usize,
        }),
{
    law_offset_is_bytes_accepted(total, chunk, events);
    lemma_written_is_the_pattern(run.pattern, events);
    let w = written(run.pattern, events);
    assert forall|i: int| 0 <= i < run.bytes_written implies medium[i] == run.pattern by {
        assert(medium.subrange(0, w.len() as int)[i] == w[i]);
    }
    law_a_clean_medium_verifies::<F>(run, medium, 0);
}

} // verus!
