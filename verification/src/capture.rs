//! The recordings of a capture run, from admission to the final verdict.
use std::collections::BTreeMap;
use vstd::prelude::*;

use crate::options::Config;
use crate::record::{ConnectionId, Content, Observation, Record, RecordKind};
use crate::recording::{
    law_ends_come_from_terminal_observations, law_finished_recording_is_complete,
    law_pcm_is_collected_in_order, pcm_part, Outcome, Recording, RecordingError, RecordingSummary,
    Step,
};
use crate::report::{is_clean, successful_terminal, Cause, Counts, Receipt};
use crate::summary::RunSummary;
use crate::transcript::wire_part;

verus! {

broadcast use {
    vstd::std_specs::btree::group_btree_axioms,
    vstd::laws_cmp::group_laws_cmp,
};

/// A recording of the run.
pub enum Entry {
    /// It takes records.
    Active(Recording),
    /// It failed, and drops records.
    Failed(Receipt),
}

/// What happens to a new connection.
#[derive(Clone, Copy, Debug, PartialEq, Eq, Structural)]
pub enum Admission {
    /// The run is stopping; the connection is left alone.
    Ignored,
    /// No recording can be admitted; the run is to stop.
    Refused(Cause),
    /// A directory and files are to be created for it.
    Granted,
}

/// What happens to a record of an admitted connection.
#[derive(Clone, Copy, Debug, PartialEq, Eq, Structural)]
pub enum Received {
    /// Its recording has output operations due.
    Due,
    /// Its recording failed earlier, and it was dropped.
    Dropped,
    /// Nobody records its connection.
    Unowned,
    /// It failed its recording; the run is to stop.
    Failed(Cause),
}

/// How a recording ended.
pub struct Conclusion {
    /// The confirmed output.
    pub summary: RecordingSummary,
    /// What the recording failed with, if it did.
    pub receipt: Option<Receipt>,
    /// What is told of it.
    pub outcome: RecordingOutcome,
}

/// What is told of a recording that ended.
#[derive(Clone, Copy, Debug, PartialEq, Eq, Structural)]
pub enum RecordingOutcome {
    /// A clean terminal observation was recorded.
    Observed,
    /// A failure was observed or happened.
    Failed,
    /// No terminal observation arrived.
    Incomplete,
}

/// The name of an outcome.
pub open spec fn outcome_name(outcome: RecordingOutcome) -> Seq<char> {
    match outcome {
        RecordingOutcome::Observed => "observed"@,
        RecordingOutcome::Failed => "failed"@,
        RecordingOutcome::Incomplete => "incomplete"@,
    }
}

impl RecordingOutcome {
    /// Returns the name of an outcome.
    #[must_use]
    pub fn text(self) -> (text: &'static str)
        ensures
            text@ == outcome_name(self),
    {
        match self {
            RecordingOutcome::Observed => "observed",
            RecordingOutcome::Failed => "failed",
            RecordingOutcome::Incomplete => "incomplete",
        }
    }
}

/// How the receiver worker ended.
#[derive(Clone, Copy, Debug, PartialEq, Eq, Structural)]
pub enum WorkerEnd {
    /// It stopped in order.
    Stopped(RunSummary),
    /// It failed.
    Failed(RunSummary),
    /// It panicked.
    Panicked,
}

/// The counters of a worker that ended, if there are any.
pub open spec fn worker_summary(end: WorkerEnd) -> Option<RunSummary> {
    match end {
        WorkerEnd::Stopped(summary) => Some(summary),
        WorkerEnd::Failed(summary) => Some(summary),
        WorkerEnd::Panicked => None,
    }
}

impl WorkerEnd {
    /// Returns the counters, if there are any.
    #[must_use]
    pub fn summary(self) -> (summary: Option<RunSummary>)
        ensures
            summary == worker_summary(self),
    {
        match self {
            WorkerEnd::Stopped(summary) => Some(summary),
            WorkerEnd::Failed(summary) => Some(summary),
            WorkerEnd::Panicked => None,
        }
    }
}

/// A counter one up, as far as it goes.
pub open spec fn one_more(count: u64) -> u64 {
    more(count, 1)
}

/// A counter up by some, as far as it goes.
pub open spec fn more(count: u64, by: nat) -> u64 {
    if count + by > u64::MAX {
        u64::MAX
    } else {
        (count + by) as u64
    }
}

/// The payload bytes that a record is counted with when it is not recorded.
pub open spec fn counted_bytes(content: Content) -> nat {
    match content {
        Content::Wire(bytes) => bytes.len(),
        Content::Audio(_, _, pcm) => pcm.len(),
        _ => 0,
    }
}

/// Returns the payload bytes that a record is counted with when it is not recorded.
#[must_use]
pub fn bytes(record: &Record) -> (count: u64)
    ensures
        count == counted_bytes(record.kind@),
{
    match &record.kind {
        RecordKind::Wire { bytes } => bytes.as_slice().len() as u64,
        RecordKind::Audio { bytes, .. } => bytes.as_slice().len() as u64,
        _ => 0,
    }
}

/// The recordings of a capture run.
pub struct Capture {
    run: u64,
    active: usize,
    reserved: u64,
    counts: Counts,
    flawed: bool,
    entries: BTreeMap<(u64, usize), Entry>,
}

impl Capture {
    /// The recordings, by connection.
    pub closed spec fn entries(self) -> Map<(u64, usize), Entry> {
        self.entries@
    }

    /// Recordings that were admitted so far.
    pub closed spec fn admitted(self) -> u64 {
        self.reserved
    }

    /// What was refused, dropped or not written.
    pub closed spec fn tally(self) -> Counts {
        self.counts
    }

    /// Whether anything went wrong.
    pub closed spec fn is_flawed(self) -> bool {
        self.flawed
    }

    /// The most recordings in the run, and at once.
    pub closed spec fn allowance(self) -> (u64, usize) {
        (self.run, self.active)
    }

    /// Every active recording is sound and records its connection, and whatever went
    /// wrong has left its mark.
    pub closed spec fn wf(self) -> bool {
        &&& self.reserved <= self.run
        &&& !self.flawed ==> {
            &&& self.counts.admission == 0
            &&& self.counts.failed == 0
            &&& self.counts.metadata == 0
            &&& forall|id: (u64, usize)| #[trigger]
                self.entries@.contains_key(id) ==> self.entries@[id] is Active
        }
        &&& forall|id: (u64, usize)| #[trigger]
            self.entries@.contains_key(id) ==> sound(self.entries@[id], id)
    }

    /// Everything but the recordings is that of `other`.
    pub open spec fn same_books(self, other: Capture) -> bool {
        &&& self.admitted() == other.admitted()
        &&& self.tally() == other.tally()
        &&& self.is_flawed() == other.is_flawed()
        &&& self.allowance() == other.allowance()
    }

    /// Creates a run without recordings.
    #[must_use]
    pub fn new(config: &Config) -> (capture: Capture)
        ensures
            capture.wf(),
            capture.entries() == Map::<(u64, usize), Entry>::empty(),
            capture.admitted() == 0,
            capture.tally() == Counts::none(),
            !capture.is_flawed(),
            capture.allowance() == (config.run, config.active),
    {
        Capture {
            run: config.run,
            active: config.active,
            reserved: 0,
            counts: Counts::default(),
            flawed: false,
            entries: BTreeMap::new(),
        }
    }

    /// How a run decides on a new connection.
    pub open spec fn decided(self, old: Capture, stopping: bool, admission: Admission) -> bool {
        let (run, active) = old.allowance();
        if stopping {
            &&& admission is Ignored
            &&& self.admitted() == old.admitted()
            &&& self.is_flawed() == old.is_flawed()
            &&& self.tally() == (Counts {
                stopped: one_more(old.tally().stopped),
                ..old.tally()
            })
        } else if old.admitted() == run || old.entries().len() >= active {
            &&& admission == Admission::Refused(
                if old.admitted() == run {
                    Cause::Admission
                } else {
                    Cause::Local
                },
            )
            &&& self.admitted() == old.admitted()
            &&& self.is_flawed()
            &&& self.tally() == (Counts {
                admission: one_more(old.tally().admission),
                ..old.tally()
            })
        } else {
            &&& admission is Granted
            &&& self.admitted() == old.admitted() + 1
            &&& self.is_flawed() == old.is_flawed()
            &&& self.tally() == old.tally()
        }
    }

    /// Decides on a new connection.
    ///
    /// Nothing is admitted once the run is stopping. A run that has admitted all its
    /// recordings, or has as many open as it may, stops.
    pub fn connected(&mut self, stopping: bool) -> (admission: Admission)
        requires
            old(self).wf(),
        ensures
            final(self).wf(),
            final(self).entries() == old(self).entries(),
            final(self).allowance() == old(self).allowance(),
            final(self).decided(*old(self), stopping, admission),
    {
        if stopping {
            self.counts.stopped = self.counts.stopped.saturating_add(1);
            return Admission::Ignored;
        }
        if self.reserved == self.run || self.entries.len() >= self.active {
            self.counts.admission = self.counts.admission.saturating_add(1);
            self.flawed = true;
            return Admission::Refused(
                if self.reserved == self.run {
                    Cause::Admission
                } else {
                    Cause::Local
                },
            );
        }
        self.reserved = self.reserved + 1;
        Admission::Granted
    }

    /// A directory could not be created.
    pub open spec fn without_directory(self, old: Capture, cause: Cause) -> bool {
        &&& cause == Cause::Local
        &&& self.entries() == old.entries()
        &&& self.admitted() == old.admitted()
        &&& self.allowance() == old.allowance()
        &&& self.is_flawed()
        &&& self.tally() == (Counts {
            admission: one_more(old.tally().admission),
            ..old.tally()
        })
    }

    /// Accounts for a directory that could not be created; the run is to stop.
    pub fn directory_refused(&mut self) -> (cause: Cause)
        requires
            old(self).wf(),
        ensures
            final(self).wf(),
            final(self).without_directory(*old(self), cause),
    {
        self.counts.admission = self.counts.admission.saturating_add(1);
        self.flawed = true;
        Cause::Local
    }

    /// The files of a connection could not be created.
    pub open spec fn without_files(self, old: Capture, id: (u64, usize), cause: Cause) -> bool {
        &&& cause == Cause::Local
        &&& self.entries() == old.entries().insert(id, Entry::Failed(Receipt::of_creation()))
        &&& self.admitted() == old.admitted()
        &&& self.allowance() == old.allowance()
        &&& self.is_flawed()
        &&& self.tally() == old.tally()
    }

    /// Accounts for files that could not be created; the recording failed, and the run
    /// is to stop.
    pub fn files_refused(&mut self, id: ConnectionId) -> (cause: Cause)
        requires
            old(self).wf(),
        ensures
            final(self).wf(),
            final(self).without_files(*old(self), id@, cause),
    {
        self.entries.insert((id.instance(), id.sequence()), Entry::Failed(Receipt::from_creation()));
        self.flawed = true;
        Cause::Local
    }

    /// Begins a recording on files that were created; its header is due.
    pub fn opened(&mut self, id: ConnectionId)
        requires
            old(self).wf(),
        ensures
            final(self).wf(),
            final(self).same_books(*old(self)),
            final(self).entries().contains_key(id@),
            final(self).entries()[id@] matches Entry::Active(recording) && recording.begun(
                id@,
                crate::audio::SampleRate::Khz8,
            ),
            final(self).entries().remove(id@) == old(self).entries().remove(id@),
    {
        let ghost before = self.entries@;
        self.entries.insert((id.instance(), id.sequence()), Entry::Active(Recording::new(id)));
        assert(self.entries@.remove(id@) =~= before.remove(id@));
    }
}

/// Whether an active recording is sound and records its connection.
pub open spec fn sound(entry: Entry, id: (u64, usize)) -> bool {
    match entry {
        Entry::Active(recording) => recording.wf() && recording.connection() == id,
        Entry::Failed(_) => true,
    }
}

/// What becomes of a recording after an operation on it.
pub open spec fn entry_after(recording: Recording, result: Result<(), RecordingError>) -> Entry {
    match result {
        Ok(()) => Entry::Active(recording),
        Err(error) => Entry::Failed(Receipt::of(error)),
    }
}

impl Capture {
    /// What becomes of a record.
    pub open spec fn received_as(self, old: Capture, record: Record, received: Received) -> bool {
        let id = record.connection@;
        let count = counted_bytes(record.kind@);
        let tally = old.tally();
        if !old.entries().contains_key(id) {
            &&& received is Unowned
            &&& self.entries() == old.entries()
            &&& self.is_flawed() == old.is_flawed()
            &&& self.tally() == (Counts {
                unowned: one_more(tally.unowned),
                unowned_bytes: more(tally.unowned_bytes, count),
                ..tally
            })
        } else {
            match old.entries()[id] {
                Entry::Failed(receipt) => {
                    &&& received is Dropped
                    &&& self.entries() == old.entries().insert(
                        id,
                        Entry::Failed(
                            Receipt {
                                dropped: one_more(receipt.dropped),
                                bytes: more(receipt.bytes, count),
                                ..receipt
                            },
                        ),
                    )
                    &&& self.is_flawed() == old.is_flawed()
                    &&& self.tally() == (Counts {
                        failed: one_more(tally.failed),
                        failed_bytes: more(tally.failed_bytes, count),
                        ..tally
                    })
                },
                Entry::Active(recording) => {
                    &&& self.tally() == tally
                    &&& exists|then: Recording, result: Result<(), RecordingError>|
                        {
                            &&& #[trigger] then.recorded(recording, record, result)
                            &&& self.entries() == old.entries().insert(
                                id,
                                entry_after(then, result),
                            )
                            &&& received == match result {
                                Ok(()) => Received::Due,
                                Err(_) => Received::Failed(Cause::Local),
                            }
                            &&& self.is_flawed() == (old.is_flawed()
                                || result is Err)
                        }
                },
            }
        }
    }

    /// Hands a record that is not an announcement to the recording of its connection.
    pub fn receive(&mut self, record: &Record) -> (received: Received)
        requires
            old(self).wf(),
            old(self).entries().contains_key(record.connection@) ==> match old(self).entries()[record.connection@] {
                Entry::Active(recording) => recording.idle(),
                Entry::Failed(_) => true,
            },
        ensures
            final(self).wf(),
            final(self).admitted() == old(self).admitted(),
            final(self).allowance() == old(self).allowance(),
            final(self).received_as(*old(self), *record, received),
    {
        let ghost before = self.entries@;
        let key: (u64, usize) = (record.connection.instance(), record.connection.sequence());
        let count: u64 = bytes(record);
        assert(key == record.connection@);
        match self.entries.remove(&key) {
            None => {
                assert(self.entries@ =~= before);
                self.counts.unowned = self.counts.unowned.saturating_add(1);
                self.counts.unowned_bytes = self.counts.unowned_bytes.saturating_add(count);
                Received::Unowned
            },
            Some(Entry::Failed(receipt)) => {
                let mut told = receipt;
                told.dropped = told.dropped.saturating_add(1);
                told.bytes = told.bytes.saturating_add(count);
                self.counts.failed = self.counts.failed.saturating_add(1);
                self.counts.failed_bytes = self.counts.failed_bytes.saturating_add(count);
                self.entries.insert(key, Entry::Failed(told));
                assert(self.entries@ =~= before.insert(key, Entry::Failed(told)));
                Received::Dropped
            },
            Some(Entry::Active(recording)) => {
                let mut then = recording;
                let result = then.record(record);
                let ghost entry = entry_after(then, result);
                let received = match result {
                    Ok(()) => {
                        self.entries.insert(key, Entry::Active(then));
                        Received::Due
                    },
                    Err(error) => {
                        self.entries.insert(key, Entry::Failed(Receipt::from_error(&error)));
                        self.flawed = true;
                        Received::Failed(Cause::Local)
                    },
                };
                assert(self.entries@ =~= before.insert(key, entry));
                received
            },
        }
    }
}

/// Whether a recording is to be finished now: it took the terminal record, and all
/// its output is written.
pub open spec fn is_over(recording: Recording) -> bool {
    recording.idle() && recording.phase() is Ended
}

impl Capture {
    /// Returns the output operation that is due for a connection's recording. A
    /// recording that took the terminal record is finished once its output is written.
    pub fn step(&mut self, id: ConnectionId) -> (step: Step)
        requires
            old(self).wf(),
        ensures
            final(self).wf(),
            final(self).same_books(*old(self)),
            if old(self).entries().contains_key(id@) {
                match old(self).entries()[id@] {
                    Entry::Failed(_) => {
                        &&& step is Rest
                        &&& final(self).entries() == old(self).entries()
                    },
                    Entry::Active(recording) => exists|then: Recording|
                        {
                            &&& final(self).entries() == #[trigger] old(self).entries().insert(
                                id@,
                                Entry::Active(then),
                            )
                            &&& step == then.due_step()
                            &&& if is_over(recording) {
                                then.finishing(recording, Ok(()))
                            } else {
                                then == recording
                            }
                        },
                }
            } else {
                &&& step is Rest
                &&& final(self).entries() == old(self).entries()
            },
    {
        let ghost before = self.entries@;
        let key: (u64, usize) = (id.instance(), id.sequence());
        assert(key == id@);
        match self.entries.remove(&key) {
            None => {
                assert(self.entries@ =~= before);
                Step::Rest
            },
            Some(Entry::Failed(receipt)) => {
                self.entries.insert(key, Entry::Failed(receipt));
                assert(self.entries@ =~= before);
                Step::Rest
            },
            Some(Entry::Active(recording)) => {
                let mut then = recording;
                if then.is_idle() && then.has_ended() {
                    let _ = then.finish();
                }
                let step = then.step();
                let ghost entry = Entry::Active(then);
                self.entries.insert(key, Entry::Active(then));
                assert(self.entries@ =~= before.insert(key, entry));
                step
            },
        }
    }

    /// Copies the bytes that are due to be written for a connection's recording.
    #[must_use]
    pub fn chunk(&self, id: ConnectionId) -> (due: Vec<u8>)
        requires
            self.wf(),
            self.entries().contains_key(id@),
            self.entries()[id@] matches Entry::Active(recording) && recording.due_step() is Write,
        ensures
            self.entries()[id@] matches Entry::Active(recording) && due@ == recording.due(),
            due@.len() > 0,
    {
        let key: (u64, usize) = (id.instance(), id.sequence());
        assert(key == id@);
        match self.entries.get(&key) {
            Some(Entry::Active(recording)) => vstd::slice::slice_to_vec(recording.chunk()),
            _ => Vec::new(),
        }
    }

    /// The due operation of a connection's recording came to something.
    pub open spec fn operated(
        self,
        old: Capture,
        id: (u64, usize),
        outcome: Outcome,
        stop: Option<Cause>,
    ) -> bool {
        let recording = old.entries()[id]->Active_0;
        &&& self.admitted() == old.admitted()
        &&& self.allowance() == old.allowance()
        &&& self.tally() == old.tally()
        &&& exists|then: Recording, result: Result<(), RecordingError>|
            {
                &&& #[trigger] then.done_as(recording, outcome, result)
                &&& self.entries() == old.entries().insert(id, entry_after(then, result))
                &&& stop == match result {
                    Ok(()) => None,
                    Err(_) => Some(Cause::Local),
                }
                &&& self.is_flawed() == (old.is_flawed() || result is Err)
            }
    }

    /// Accounts for what the due operation of a connection's recording came to. A
    /// recording that failed drops what follows, and the run is to stop.
    pub fn done(&mut self, id: ConnectionId, outcome: Outcome) -> (stop: Option<Cause>)
        requires
            old(self).wf(),
            old(self).entries().contains_key(id@),
            old(self).entries()[id@] matches Entry::Active(recording) && recording.expects(outcome),
        ensures
            final(self).wf(),
            final(self).operated(*old(self), id@, outcome, stop),
    {
        let ghost before = self.entries@;
        let key: (u64, usize) = (id.instance(), id.sequence());
        assert(key == id@);
        match self.entries.remove(&key) {
            Some(Entry::Active(recording)) => {
                let mut then = recording;
                let result = then.done(outcome);
                let ghost entry = entry_after(then, result);
                let stop = match result {
                    Ok(()) => {
                        self.entries.insert(key, Entry::Active(then));
                        None
                    },
                    Err(error) => {
                        self.entries.insert(key, Entry::Failed(Receipt::from_error(&error)));
                        self.flawed = true;
                        Some(Cause::Local)
                    },
                };
                assert(self.entries@ =~= before.insert(key, entry));
                stop
            },
            _ => None,
        }
    }

    /// How a recording that finished is concluded.
    pub open spec fn concluded(
        self,
        old: Capture,
        id: (u64, usize),
        conclusion: Option<Conclusion>,
    ) -> bool {
        let entries = old.entries();
        if entries.contains_key(id) && (entries[id] matches Entry::Active(recording)
            && recording.finished()) {
            let recording = entries[id]->Active_0;
            let clean = is_clean(recording.counts().end);
            &&& self.entries() == entries.remove(id)
            &&& self.is_flawed() == (old.is_flawed() || !clean)
            &&& conclusion matches Some(conclusion)
            &&& conclusion.summary == recording.counts()
            &&& conclusion.receipt is None
            &&& conclusion.outcome == if clean {
                RecordingOutcome::Observed
            } else {
                RecordingOutcome::Failed
            }
        } else {
            &&& conclusion is None
            &&& self.entries() == entries
            &&& self.is_flawed() == old.is_flawed()
        }
    }

    /// Takes a recording that was finished out of the run, if it was. Its end decides
    /// what is told of it, and whether the run is flawed.
    pub fn conclude(&mut self, id: ConnectionId) -> (conclusion: Option<Conclusion>)
        requires
            old(self).wf(),
        ensures
            final(self).wf(),
            final(self).admitted() == old(self).admitted(),
            final(self).allowance() == old(self).allowance(),
            final(self).tally() == old(self).tally(),
            final(self).concluded(*old(self), id@, conclusion),
    {
        let ghost before = self.entries@;
        let key: (u64, usize) = (id.instance(), id.sequence());
        assert(key == id@);
        match self.entries.remove(&key) {
            None => {
                assert(self.entries@ =~= before);
                None
            },
            Some(Entry::Active(recording)) => {
                if !recording.is_finished() {
                    self.entries.insert(key, Entry::Active(recording));
                    assert(self.entries@ =~= before);
                    return None;
                }
                let summary = recording.summary();
                let clean: bool = successful_terminal(summary.end);
                if !clean {
                    self.flawed = true;
                }
                let outcome = if clean {
                    RecordingOutcome::Observed
                } else {
                    RecordingOutcome::Failed
                };
                Some(Conclusion { summary, receipt: None, outcome })
            },
            Some(Entry::Failed(receipt)) => {
                self.entries.insert(key, Entry::Failed(receipt));
                assert(self.entries@ =~= before);
                None
            },
        }
    }

    /// Begins to finish a recording after the last record of the run.
    pub fn wind_up(&mut self, id: ConnectionId)
        requires
            old(self).wf(),
            old(self).entries().contains_key(id@) ==> match old(self).entries()[id@] {
                Entry::Active(recording) => recording.idle(),
                Entry::Failed(_) => true,
            },
        ensures
            final(self).wf(),
            final(self).same_books(*old(self)),
            if old(self).entries().contains_key(id@) && old(self).entries()[id@] is Active {
                exists|then: Recording|
                    {
                        &&& #[trigger] then.finishing(
                            old(self).entries()[id@]->Active_0,
                            Ok(()),
                        )
                        &&& final(self).entries() == old(self).entries().insert(
                            id@,
                            Entry::Active(then),
                        )
                    }
            } else {
                final(self).entries() == old(self).entries()
            },
    {
        let ghost before = self.entries@;
        let key: (u64, usize) = (id.instance(), id.sequence());
        assert(key == id@);
        match self.entries.remove(&key) {
            None => {
                assert(self.entries@ =~= before);
            },
            Some(Entry::Active(recording)) => {
                let mut then = recording;
                proof {
                    then.lemma_idle_has_not_failed();
                }
                let _ = then.finish();
                assert(then.finishing(recording, Ok(())));
                let ghost entry = Entry::Active(then);
                self.entries.insert(key, Entry::Active(then));
                assert(self.entries@ =~= before.insert(key, entry));
            },
            Some(Entry::Failed(receipt)) => {
                self.entries.insert(key, Entry::Failed(receipt));
                assert(self.entries@ =~= before);
            },
        }
    }

    /// How a recording that is still open after the last record is concluded.
    pub open spec fn left_open(
        self,
        old: Capture,
        id: (u64, usize),
        conclusion: Option<Conclusion>,
    ) -> bool {
        if old.entries().contains_key(id) {
            &&& self.is_flawed()
            &&& conclusion matches Some(conclusion)
            &&& match old.entries()[id] {
                Entry::Active(recording) => {
                    &&& conclusion.summary == recording.counts()
                    &&& conclusion.receipt is None
                    &&& conclusion.outcome is Incomplete
                },
                Entry::Failed(receipt) => {
                    &&& conclusion.summary == receipt.summary
                    &&& conclusion.receipt == Some(receipt)
                    &&& conclusion.outcome is Failed
                },
            }
        } else {
            &&& conclusion is None
            &&& self.is_flawed() == old.is_flawed()
        }
    }

    /// Takes a recording out of the run after the last record: one that had not failed
    /// is incomplete. Either way the run is flawed.
    pub fn close(&mut self, id: ConnectionId) -> (conclusion: Option<Conclusion>)
        requires
            old(self).wf(),
        ensures
            final(self).wf(),
            final(self).admitted() == old(self).admitted(),
            final(self).allowance() == old(self).allowance(),
            final(self).tally() == old(self).tally(),
            final(self).entries() == old(self).entries().remove(id@),
            final(self).left_open(*old(self), id@, conclusion),
    {
        let key: (u64, usize) = (id.instance(), id.sequence());
        assert(key == id@);
        match self.entries.remove(&key) {
            None => None,
            Some(Entry::Active(recording)) => {
                self.flawed = true;
                Some(
                    Conclusion {
                        summary: recording.summary(),
                        receipt: None,
                        outcome: RecordingOutcome::Incomplete,
                    },
                )
            },
            Some(Entry::Failed(receipt)) => {
                self.flawed = true;
                Some(
                    Conclusion {
                        summary: receipt.summary,
                        receipt: Some(receipt),
                        outcome: RecordingOutcome::Failed,
                    },
                )
            },
        }
    }

    /// A summary could not be written.
    pub open spec fn without_summary(self, old: Capture, draining: bool, stop: Option<Cause>) -> bool {
        &&& self.entries() == old.entries()
        &&& self.admitted() == old.admitted()
        &&& self.allowance() == old.allowance()
        &&& self.is_flawed()
        &&& self.tally() == (Counts { metadata: one_more(old.tally().metadata), ..old.tally() })
        &&& stop == if draining {
            None
        } else {
            Some(Cause::Local)
        }
    }

    /// Accounts for a summary that could not be written; while records still arrive the
    /// run is to stop.
    pub fn summary_refused(&mut self, draining: bool) -> (stop: Option<Cause>)
        requires
            old(self).wf(),
        ensures
            final(self).wf(),
            final(self).without_summary(*old(self), draining, stop),
    {
        self.counts.metadata = self.counts.metadata.saturating_add(1);
        self.flawed = true;
        if draining {
            None
        } else {
            Some(Cause::Local)
        }
    }

    /// Returns the first connection, by instance and sequence, that has a recording.
    #[must_use]
    pub fn first_open(&self) -> (first: Option<ConnectionId>)
        ensures
            match first {
                None => self.entries() == Map::<(u64, usize), Entry>::empty(),
                Some(id) => {
                    &&& self.entries().contains_key(id@)
                    &&& forall|other: (u64, usize)| #[trigger]
                        self.entries().contains_key(other) ==> no_later(id@, other)
                },
            },
    {
        let mut best: Option<(u64, usize)> = None;
        for key in keys: self.entries.keys()
            invariant
                keys.seq().unref().to_set() == self.entries@.dom(),
                best is None <==> keys.index() == 0,
                best matches Some(least) ==> self.entries@.contains_key(least) && forall|j: int|
                    0 <= j < keys.index() ==> no_later(least, *#[trigger] keys.seq()[j]),
        {
            let candidate: (u64, usize) = *key;
            proof {
                assert(keys.seq().unref()[keys.index() as int] == candidate);
                assert(keys.seq().unref().to_set().contains(candidate));
            }
            match best {
                None => {
                    best = Some(candidate);
                },
                Some(least) => {
                    if candidate.0 < least.0 || (candidate.0 == least.0 && candidate.1
                        < least.1) {
                        best = Some(candidate);
                    }
                },
            }
        }
        proof {
            assert forall|other: (u64, usize)| #[trigger]
                self.entries@.contains_key(other) implies best is Some && no_later(
                best->0,
                other,
            ) by {
                assert(self.entries@.dom().contains(other));
            }
            if best is None {
                assert(self.entries@ =~= Map::<(u64, usize), Entry>::empty());
            }
        }
        match best {
            None => None,
            Some(least) => Some(ConnectionId::new(least.0, least.1)),
        }
    }

    /// Returns what was refused, dropped or not written.
    #[must_use]
    pub fn counts(&self) -> (counts: Counts)
        ensures
            counts == self.tally(),
    {
        self.counts
    }

    /// Returns how many recordings were admitted.
    #[must_use]
    pub fn reserved(&self) -> (reserved: u64)
        ensures
            reserved == self.admitted(),
    {
        self.reserved
    }

    /// Whether a run succeeded.
    pub open spec fn success(
        self,
        retained: usize,
        worker: WorkerEnd,
        monitor_failed: bool,
        wake_failed: bool,
    ) -> bool {
        &&& !self.is_flawed()
        &&& !monitor_failed
        &&& !wake_failed
        &&& retained == 0
        &&& self.tally().unowned == 0
        &&& self.tally().metadata == 0
        &&& worker matches WorkerEnd::Stopped(summary)
        &&& summary.abandoned == 0
        &&& summary.undelivered_raw_bytes == 0
        &&& summary.undelivered_records == 0
        &&& summary.counters_complete
    }

    /// Decides whether the run succeeded, once everything was drained: nothing went
    /// wrong in it, nothing is retained or was left unrecorded, all threads ended in
    /// order, and the worker delivered everything that it read.
    #[must_use]
    pub fn succeeded(
        &self,
        retained: usize,
        worker: WorkerEnd,
        monitor_failed: bool,
        wake_failed: bool,
    ) -> (succeeded: bool)
        ensures
            succeeded == self.success(retained, worker, monitor_failed, wake_failed),
    {
        if self.flawed || monitor_failed || wake_failed || retained != 0 || self.counts.unowned
            != 0 || self.counts.metadata != 0 {
            return false;
        }
        match worker {
            WorkerEnd::Stopped(summary) => summary.abandoned == 0 && summary.undelivered_raw_bytes
                == 0 && summary.undelivered_records == 0 && summary.counters_complete,
            _ => false,
        }
    }
}

/// Whether a connection does not come after another, by instance and sequence.
pub open spec fn no_later(one: (u64, usize), other: (u64, usize)) -> bool {
    one.0 < other.0 || (one.0 == other.0 && one.1 <= other.1)
}

/// A run in which an admission was refused, a recording failed, a record came too
/// late for its recording or a summary could not be written is marked as flawed.
pub proof fn law_failures_leave_their_mark(capture: Capture)
    requires
        capture.wf(),
        ({
            ||| capture.tally().admission > 0
            ||| capture.tally().failed > 0
            ||| capture.tally().metadata > 0
            ||| exists|id: (u64, usize)| #[trigger]
                capture.entries().contains_key(id) && capture.entries()[id] is Failed
        }),
    ensures
        capture.is_flawed(),
{
}

/// A run never admits more recordings than it may.
pub proof fn law_admission_is_bounded(capture: Capture)
    requires
        capture.wf(),
    ensures
        capture.admitted() <= capture.allowance().0,
{
}

/// A recording is told as observed exactly if its last record was a clean end of the
/// input or the peer's termination. Any other terminal record, be it a rejection, a
/// failure, a truncation or a peer error, and a missing one make it a failed one and
/// mark the run as flawed.
pub proof fn law_conclusions_tell_how_the_connection_ended(
    old: Capture,
    capture: Capture,
    id: (u64, usize),
    conclusion: Conclusion,
)
    requires
        old.wf(),
        capture.concluded(old, id, Some(conclusion)),
    ensures
        old.entries().contains_key(id),
        old.entries()[id] is Active,
        ({
            let told = (old.entries()[id]->Active_0).told();
            &&& told.len() > 0 && told.last().content is Ended ==> {
                let ending = told.last().content->Ended_1;
                if ending is CleanEof || ending is Terminate {
                    &&& conclusion.outcome is Observed
                    &&& capture.is_flawed() == old.is_flawed()
                } else {
                    &&& conclusion.outcome is Failed
                    &&& capture.is_flawed()
                }
            }
            &&& (forall|i: int| 0 <= i < told.len() ==> !((#[trigger] told[i]).content is Ended))
                ==> conclusion.outcome is Failed && capture.is_flawed()
            &&& !capture.entries().contains_key(id)
            &&& conclusion.receipt is None
        }),
{
    let recording = old.entries()[id]->Active_0;
    assert(sound(old.entries@[id], id));
    law_finished_recording_is_complete(recording);
    let told = recording.told();
    if told.len() > 0 && told.last().content is Ended {
        let none = Seq::<Observation>::empty();
        law_ends_come_from_terminal_observations(told.drop_last(), told.last(), none);
        assert(told.drop_last().push(told.last()) + none =~= told);
    }
    if forall|i: int| 0 <= i < told.len() ==> !((#[trigger] told[i]).content is Ended) {
        let any = Observation { offset: 0, content: Content::Wire(Seq::empty()) };
        law_ends_come_from_terminal_observations(Seq::empty(), any, told);
    }
}

/// Only a finished recording is concluded, and once: then it is no longer among the
/// recordings, and the others stay as they are.
pub proof fn law_recordings_are_concluded_once(
    old: Capture,
    capture: Capture,
    id: (u64, usize),
    conclusion: Option<Conclusion>,
    other: (u64, usize),
)
    requires
        capture.concluded(old, id, conclusion),
    ensures
        conclusion is Some ==> old.entries().contains_key(id) && !capture.entries().contains_key(id),
        conclusion is None ==> capture.entries() == old.entries() && capture.is_flawed()
            == old.is_flawed(),
        other != id ==> capture.entries().contains_key(other) == old.entries().contains_key(other),
        other != id && old.entries().contains_key(other) ==> capture.entries()[other]
            == old.entries()[other],
        old.entries().contains_key(id) && (old.entries()[id] matches Entry::Active(recording)
            && recording.finished()) ==> conclusion is Some,
{
}

/// A recording that is open after the last record never counts as observed, and marks the
/// run as flawed. One that failed gives up the receipt that it has kept.
pub proof fn law_open_recordings_are_not_observed(
    old: Capture,
    capture: Capture,
    id: (u64, usize),
    conclusion: Conclusion,
)
    requires
        capture.left_open(old, id, Some(conclusion)),
    ensures
        old.entries().contains_key(id),
        capture.is_flawed(),
        !(conclusion.outcome is Observed),
        old.entries()[id] is Active <==> conclusion.outcome is Incomplete,
        old.entries()[id] matches Entry::Failed(receipt) ==> conclusion.receipt == Some(receipt)
            && conclusion.summary == receipt.summary,
        old.entries()[id] matches Entry::Active(recording) ==> conclusion.summary
            == recording.counts() && conclusion.receipt is None,
{
}

/// A run succeeds exactly if it is not flawed, nothing is retained or went unowned, all
/// summaries were written, its threads ended in order, the stop reached the worker, and
/// the worker abandoned, lost and left uncounted nothing.
pub proof fn law_runs_succeed_only_without_loss(
    capture: Capture,
    retained: usize,
    worker: WorkerEnd,
    monitor_failed: bool,
    wake_failed: bool,
)
    ensures
        capture.success(retained, worker, monitor_failed, wake_failed) ==> {
            &&& !capture.is_flawed()
            &&& retained == 0
            &&& !monitor_failed && !wake_failed
            &&& capture.tally().unowned == 0 && capture.tally().metadata == 0
            &&& worker is Stopped
            &&& (worker->Stopped_0).abandoned == 0
            &&& (worker->Stopped_0).undelivered_raw_bytes == 0
            &&& (worker->Stopped_0).undelivered_records == 0
            &&& (worker->Stopped_0).counters_complete
        },
        worker matches WorkerEnd::Stopped(summary) ==> !capture.is_flawed() && retained == 0
            && !monitor_failed && !wake_failed && capture.tally().unowned == 0
            && capture.tally().metadata == 0 && summary.abandoned == 0
            && summary.undelivered_raw_bytes == 0 && summary.undelivered_records == 0
            && summary.counters_complete ==> capture.success(
            retained,
            worker,
            monitor_failed,
            wake_failed,
        ),
{
}

/// A connection is admitted exactly while the run goes on, has recordings left and may
/// open another. A refusal tells a run that has used up its recordings from one that has
/// too many open, and marks it as flawed; a stopping run only counts.
pub proof fn law_admissions_follow_the_allowance(
    old: Capture,
    capture: Capture,
    stopping: bool,
    admission: Admission,
)
    requires
        old.wf(),
        capture.decided(old, stopping, admission),
    ensures
        ({
            let (run, active) = old.allowance();
            &&& admission is Granted <==> !stopping && old.admitted() < run && old.entries().len()
                < active
            &&& admission is Granted ==> capture.admitted() == old.admitted() + 1
            &&& !(admission is Granted) ==> capture.admitted() == old.admitted()
            &&& admission is Ignored <==> stopping
            &&& admission == Admission::Refused(Cause::Admission) <==> !stopping && old.admitted()
                == run
            &&& admission is Refused ==> capture.is_flawed()
            &&& !(admission is Refused) ==> capture.is_flawed() == old.is_flawed()
            &&& admission is Refused && old.tally().admission < u64::MAX
                ==> capture.tally().admission == old.tally().admission + 1
            &&& admission is Ignored && old.tally().stopped < u64::MAX ==> capture.tally().stopped
                == old.tally().stopped + 1
        }),
{
}

/// Counters go up by what is counted and stay at their greatest value: counting in two
/// parts comes to the same as counting at once.
pub proof fn law_counters_saturate(count: u64, one: nat, other: nat)
    ensures
        count <= more(count, one),
        count + one <= u64::MAX ==> more(count, one) == count + one,
        count + one > u64::MAX ==> more(count, one) == u64::MAX,
        more(more(count, one), other) == more(count, one + other),
        one_more(count) == more(count, 1),
{
}

/// A record that is not recorded counts with the bytes that it would have added to the
/// wire and the WAVE output.
pub proof fn law_dropped_bytes_are_those_not_written(observation: Observation)
    ensures
        counted_bytes(observation.content) == wire_part(seq![observation]).len() + pcm_part(
            seq![observation],
        ).len(),
{
    let single = seq![observation];
    assert(single.drop_last() =~= Seq::<Observation>::empty());
    assert(single.last() == observation);
    assert(wire_part(Seq::<Observation>::empty()) =~= Seq::<u8>::empty());
    law_pcm_is_collected_in_order(single, single, observation);
}

/// A record goes to the recording of its own connection or is counted, and no other
/// recording is touched: of a connection without a recording it is counted as unowned, and
/// of one whose recording failed as dropped, there and in the receipt. Only a record that
/// fails its recording marks the run as flawed.
pub proof fn law_records_are_recorded_or_counted(
    old: Capture,
    capture: Capture,
    record: Record,
    received: Received,
    other: (u64, usize),
)
    requires
        capture.received_as(old, record, received),
    ensures
        ({
            let id = record.connection@;
            let owned = old.entries().contains_key(id);
            &&& received is Unowned <==> !owned
            &&& received is Dropped <==> owned && old.entries()[id] is Failed
            &&& received is Due || received is Failed <==> owned && old.entries()[id] is Active
            &&& received is Unowned && old.tally().unowned < u64::MAX ==> capture.tally().unowned
                == old.tally().unowned + 1
            &&& !(received is Unowned) ==> capture.tally().unowned == old.tally().unowned
                && capture.tally().unowned_bytes == old.tally().unowned_bytes
            &&& received is Dropped && old.tally().failed < u64::MAX ==> capture.tally().failed
                == old.tally().failed + 1
            &&& !(received is Dropped) ==> capture.tally().failed == old.tally().failed
                && capture.tally().failed_bytes == old.tally().failed_bytes
            &&& match record.kind@ {
                Content::Wire(bytes) | Content::Audio(_, _, bytes) => {
                    &&& received is Unowned && old.tally().unowned_bytes + bytes.len()
                        <= u64::MAX ==> capture.tally().unowned_bytes
                        == old.tally().unowned_bytes + bytes.len()
                    &&& received is Dropped && old.tally().failed_bytes + bytes.len()
                        <= u64::MAX ==> capture.tally().failed_bytes
                        == old.tally().failed_bytes + bytes.len()
                    &&& received is Dropped && (old.entries()[id]->Failed_0).bytes + bytes.len()
                        <= u64::MAX ==> (capture.entries()[id]->Failed_0).bytes
                        == (old.entries()[id]->Failed_0).bytes + bytes.len()
                },
                _ => {
                    &&& capture.tally().unowned_bytes == old.tally().unowned_bytes
                    &&& capture.tally().failed_bytes == old.tally().failed_bytes
                    &&& received is Dropped ==> (capture.entries()[id]->Failed_0).bytes == (
                    old.entries()[id]->Failed_0).bytes
                },
            }
            &&& received is Dropped && (old.entries()[id]->Failed_0).dropped < u64::MAX ==> (
            capture.entries()[id]->Failed_0).dropped == (old.entries()[id]->Failed_0).dropped + 1
            &&& received is Dropped ==> (old.entries()[id]->Failed_0).summary
                == (capture.entries()[id]->Failed_0).summary && capture.entries()[id] is Failed
            &&& capture.is_flawed() == (old.is_flawed() || received is Failed)
            &&& received is Failed <==> owned && old.entries()[id] is Active && capture.entries()[id]
                is Failed
            &&& other != id ==> capture.entries().contains_key(other) == old.entries().contains_key(
                other,
            )
            &&& other != id && old.entries().contains_key(other) ==> capture.entries()[other]
                == old.entries()[other]
            &&& capture.entries().contains_key(id) == owned
        }),
{
}

/// A recording is finished once it takes no record any more and all of its output is
/// written, and not before.
pub proof fn law_recordings_are_over_behind_their_end(recording: Recording, observation: Observation)
    requires
        recording.wf(),
        !recording.failed(),
    ensures
        ({
            let verdict = recording.verdict(recording.connection(), observation);
            is_over(recording) <==> recording.idle() && verdict is Err && verdict->Err_0 is AfterEnd
        }),
{
}

/// Connections are put in one order: by the receiver that accepted them, and of one
/// receiver by their sequence.
pub proof fn law_connections_have_an_order(
    one: (u64, usize),
    other: (u64, usize),
    third: (u64, usize),
)
    ensures
        no_later(one, other) || no_later(other, one),
        no_later(one, other) && no_later(other, one) ==> one == other,
        no_later(one, other) && no_later(other, third) ==> no_later(one, third),
        one.0 < other.0 ==> no_later(one, other),
        one.0 == other.0 && one.1 < other.1 ==> no_later(one, other),
{
}

/// The counters of a worker are known unless it panicked, whether it stopped or failed.
pub proof fn law_only_panics_lose_the_counters(end: WorkerEnd, summary: RunSummary)
    ensures
        worker_summary(end) is None <==> end is Panicked,
        worker_summary(WorkerEnd::Stopped(summary)) == Some(summary),
        worker_summary(WorkerEnd::Failed(summary)) == Some(summary),
{
}

/// Whatever cannot be created or written marks the run as flawed and stops it for a local
/// failure, unless it is being drained anyway. A directory counts as a refused admission
/// and leaves all recordings; files fail the recording of their connection and no other;
/// a summary is counted for itself.
pub proof fn law_refusals_stop_the_run(
    old: Capture,
    directory: Capture,
    files: Capture,
    summary: Capture,
    id: (u64, usize),
    other: (u64, usize),
    causes: (Cause, Cause),
    draining: bool,
    stop: Option<Cause>,
)
    requires
        directory.without_directory(old, causes.0),
        files.without_files(old, id, causes.1),
        summary.without_summary(old, draining, stop),
    ensures
        causes.0 is Local && causes.1 is Local,
        stop is None <==> draining,
        stop matches Some(cause) ==> cause is Local,
        directory.is_flawed() && files.is_flawed() && summary.is_flawed(),
        directory.entries() == old.entries() && summary.entries() == old.entries(),
        files.entries().contains_key(id) && files.entries()[id] is Failed,
        other != id ==> files.entries().contains_key(other) == old.entries().contains_key(other),
        other != id && old.entries().contains_key(other) ==> files.entries()[other]
            == old.entries()[other],
        old.tally().admission < u64::MAX ==> directory.tally().admission == old.tally().admission
            + 1,
        old.tally().metadata < u64::MAX ==> summary.tally().metadata == old.tally().metadata + 1,
        directory.tally().metadata == old.tally().metadata,
        summary.tally().admission == old.tally().admission,
        files.tally() == old.tally(),
        directory.tally().unowned == old.tally().unowned && directory.tally().failed
            == old.tally().failed,
        summary.tally().unowned == old.tally().unowned && summary.tally().failed
            == old.tally().failed,
{
}

/// An output operation touches the recording of its own connection only. The run is to
/// stop exactly if that recording failed by it, and then it is flawed.
pub proof fn law_failed_operations_stop_the_run(
    old: Capture,
    capture: Capture,
    id: (u64, usize),
    other: (u64, usize),
    outcome: Outcome,
    stop: Option<Cause>,
)
    requires
        capture.operated(old, id, outcome, stop),
        old.entries().contains_key(id) && old.entries()[id] is Active,
    ensures
        stop is Some <==> capture.entries()[id] is Failed,
        stop matches Some(cause) ==> cause is Local,
        outcome is Failed ==> stop is Some,
        outcome is Interrupted ==> stop is None && capture.entries()[id] == old.entries()[id],
        capture.is_flawed() == (old.is_flawed() || stop is Some),
        capture.tally() == old.tally(),
        other != id ==> capture.entries().contains_key(other) == old.entries().contains_key(other),
        other != id && old.entries().contains_key(other) ==> capture.entries()[other]
            == old.entries()[other],
{
}

} // verus!
