//! Telemetry of dialogue responses and failures: a bounded history in
//! memory and a log of pending lines for a durable sink.
use std::collections::VecDeque;
use vstd::prelude::*;

use crate::errors::{DialogueError, DialogueErrorView};
use crate::events::{DialogueRequestFailedEvent, DialogueResponseEvent};
use crate::telemetry_line::{line_for, render_line, SerializableDialogueTelemetryRecord};
use crate::text::views_of;
use crate::types::{DialogueResponse, DialogueResponseView};

verus! {

pub const DEFAULT_DIALOGUE_TELEMETRY_CAPACITY: usize = 64;

/// Where the log is kept where no other place is given.
pub open spec fn default_log_path() -> Seq<char> {
    "logs/dialogue_history.jsonl"@
}

/// Either a response or a failure.
#[derive(Debug)]
pub enum DialogueTelemetryEvent {
    Response(DialogueResponse),
    Failure(DialogueError),
}

pub enum DialogueTelemetryEventView {
    Response(DialogueResponseView),
    Failure(DialogueErrorView),
}

impl View for DialogueTelemetryEvent {
    type V = DialogueTelemetryEventView;

    open spec fn view(&self) -> DialogueTelemetryEventView {
        match self {
            DialogueTelemetryEvent::Response(response) => DialogueTelemetryEventView::Response(
                response@,
            ),
            DialogueTelemetryEvent::Failure(error) => DialogueTelemetryEventView::Failure(error@),
        }
    }
}

impl Clone for DialogueTelemetryEvent {
    fn clone(&self) -> (copy: Self)
        ensures
            copy@ == self@,
    {
        match self {
            DialogueTelemetryEvent::Response(response) => DialogueTelemetryEvent::Response(
                response.clone(),
            ),
            DialogueTelemetryEvent::Failure(error) => DialogueTelemetryEvent::Failure(
                error.clone(),
            ),
        }
    }
}

/// One telemetry entry: what happened, and when, in milliseconds since the start.
#[derive(Debug)]
pub struct DialogueTelemetryRecord {
    pub occurred_at_millis: u64,
    pub event: DialogueTelemetryEvent,
}

pub struct DialogueTelemetryRecordView {
    pub occurred_at_millis: u64,
    pub event: DialogueTelemetryEventView,
}

impl View for DialogueTelemetryRecord {
    type V = DialogueTelemetryRecordView;

    open spec fn view(&self) -> DialogueTelemetryRecordView {
        DialogueTelemetryRecordView {
            occurred_at_millis: self.occurred_at_millis,
            event: self.event@,
        }
    }
}

impl Clone for DialogueTelemetryRecord {
    fn clone(&self) -> (copy: Self)
        ensures
            copy@ == self@,
    {
        Self { occurred_at_millis: self.occurred_at_millis, event: self.event.clone() }
    }
}

/// The views of `records`, in order.
pub open spec fn record_views(records: Seq<DialogueTelemetryRecord>) -> Seq<
    DialogueTelemetryRecordView,
> {
    Seq::new(records.len(), |i: int| records[i]@)
}

/// The most recent telemetry records, oldest first, up to a fixed number.
#[derive(Debug)]
pub struct DialogueTelemetry {
    capacity: usize,
    records: VecDeque<DialogueTelemetryRecord>,
}

pub struct DialogueTelemetryView {
    pub capacity: usize,
    pub records: Seq<DialogueTelemetryRecordView>,
}

impl DialogueTelemetryView {
    /// The history holds at most as many records as it has room for, and
    /// has room for at least one.
    pub open spec fn wf(self) -> bool {
        1 <= self.capacity && self.records.len() <= self.capacity
    }

    /// The history after `record` was added: where it was full, the oldest
    /// records have left to make room for the new one.
    pub open spec fn pushed(self, record: DialogueTelemetryRecordView) -> Self {
        let kept = if self.records.len() >= self.capacity {
            self.records.skip(self.records.len() - self.capacity + 1)
        } else {
            self.records
        };
        DialogueTelemetryView { capacity: self.capacity, records: kept.push(record) }
    }

    /// The history after `records` were added, in their order.
    pub open spec fn pushed_all(self, records: Seq<DialogueTelemetryRecordView>) -> Self
        decreases records.len(),
    {
        if records.len() == 0 {
            self
        } else {
            self.pushed_all(records.drop_last()).pushed(records.last())
        }
    }
}

impl View for DialogueTelemetry {
    type V = DialogueTelemetryView;

    closed spec fn view(&self) -> DialogueTelemetryView {
        DialogueTelemetryView { capacity: self.capacity, records: record_views(self.records@) }
    }
}

impl DialogueTelemetry {
    /// An empty history with room for `capacity` records, and for one where
    /// `capacity` is zero.
    pub fn new(capacity: usize) -> (telemetry: Self)
        ensures
            telemetry@.capacity == if capacity == 0 {
                1
            } else {
                capacity
            },
            telemetry@.records == Seq::<DialogueTelemetryRecordView>::empty(),
            telemetry@.wf(),
    {
        let telemetry = Self {
            capacity: if capacity == 0 {
                1
            } else {
                capacity
            },
            records: VecDeque::new(),
        };
        assert(telemetry@.records =~= Seq::<DialogueTelemetryRecordView>::empty());
        telemetry
    }

    /// Adds `record` as the newest; the oldest leaves where the history is full.
    pub fn push(&mut self, record: DialogueTelemetryRecord)
        ensures
            old(self)@.wf() ==> final(self)@ == old(self)@.pushed(record@),
            old(self)@.wf() ==> final(self)@.wf(),
    {
        if self.records.len() >= self.capacity {
            let head = self.records.pop_front();
            proof {
                if old(self)@.wf() {
                    assert(self.records@.len() == self.capacity - 1);
                    assert(record_views(self.records@) =~= old(self)@.records.skip(1));
                }
            }
        }
        self.records.push_back(record);
        proof {
            if old(self)@.wf() {
            let kept = if old(self)@.records.len() >= old(self)@.capacity {
                old(self)@.records.skip(old(self)@.records.len() - old(self)@.capacity + 1)
            } else {
                old(self)@.records
            };
            assert(record_views(self.records@) =~= kept.push(record@));
            }
        }
    }

    /// The records of the history, oldest first.
    pub fn records(&self) -> (records: Vec<DialogueTelemetryRecord>)
        ensures
            record_views(records@) == self@.records,
    {
        let mut records: Vec<DialogueTelemetryRecord> = Vec::new();
        let mut i: usize = 0;
        while i < self.records.len()
            invariant
                i <= self.records.len(),
                records.len() == i,
                forall|k: int| 0 <= k < i ==> records@[k]@ == self.records@[k]@,
            decreases self.records.len() - i,
        {
            records.push(self.records[i].clone());
            i += 1;
        }
        assert(record_views(records@) =~= self@.records);
        records
    }

    pub fn len(&self) -> (len: usize)
        ensures
            len == self@.records.len(),
    {
        self.records.len()
    }

    pub fn is_empty(&self) -> (empty: bool)
        ensures
            empty == (self@.records.len() == 0),
    {
        self.records.len() == 0
    }
}

impl Default for DialogueTelemetry {
    fn default() -> (telemetry: Self)
        ensures
            telemetry@.capacity == DEFAULT_DIALOGUE_TELEMETRY_CAPACITY,
            telemetry@.records == Seq::<DialogueTelemetryRecordView>::empty(),
            telemetry@.wf(),
    {
        Self::new(DEFAULT_DIALOGUE_TELEMETRY_CAPACITY)
    }
}

/// The lines of `records`, in order.
pub open spec fn lines_for(records: Seq<DialogueTelemetryRecordView>) -> Seq<Seq<char>> {
    Seq::new(records.len(), |i: int| line_for(records[i]))
}

/// The telemetry records that wait to be written to the log file. A record
/// stays here until the host has confirmed that its line was written, so a
/// failed write loses nothing.
#[derive(Debug)]
pub struct DialogueTelemetryLog {
    output_path: String,
    pending: Vec<DialogueTelemetryRecord>,
}

pub struct DialogueTelemetryLogView {
    pub output_path: Seq<char>,
    pub pending: Seq<DialogueTelemetryRecordView>,
}

impl View for DialogueTelemetryLog {
    type V = DialogueTelemetryLogView;

    closed spec fn view(&self) -> DialogueTelemetryLogView {
        DialogueTelemetryLogView {
            output_path: self.output_path@,
            pending: record_views(self.pending@),
        }
    }
}

impl DialogueTelemetryLog {
    /// A log without pending records, to be kept at `path`.
    pub fn new(path: &str) -> (log: Self)
        ensures
            log@.output_path == path@,
            log@.pending == Seq::<DialogueTelemetryRecordView>::empty(),
    {
        let log = Self { output_path: String::from_str(path), pending: Vec::new() };
        assert(log@.pending =~= Seq::<DialogueTelemetryRecordView>::empty());
        log
    }

    /// Adds a copy of `record` to the pending records.
    pub fn push(&mut self, record: &DialogueTelemetryRecord)
        ensures
            final(self)@.output_path == old(self)@.output_path,
            final(self)@.pending == old(self)@.pending.push(record@),
    {
        self.pending.push(record.clone());
        assert(record_views(self.pending@) =~= old(self)@.pending.push(record@));
    }

    /// The lines of the pending records, oldest first, each without a line break.
    pub fn pending_lines(&self) -> (lines: Vec<String>)
        ensures
            views_of(lines@) == lines_for(self@.pending),
    {
        let mut lines: Vec<String> = Vec::new();
        let mut i: usize = 0;
        while i < self.pending.len()
            invariant
                i <= self.pending.len(),
                lines.len() == i,
                forall|k: int| 0 <= k < i ==> lines@[k]@ == line_for(self.pending@[k]@),
            decreases self.pending.len() - i,
        {
            let logged = SerializableDialogueTelemetryRecord::from_record(&self.pending[i]);
            lines.push(render_line(&logged));
            i += 1;
        }
        assert(views_of(lines@) =~= lines_for(self@.pending));
        lines
    }

    /// Drops the `count` oldest pending records, or all where there are
    /// fewer: their lines have been written.
    pub fn mark_written(&mut self, count: usize)
        ensures
            final(self)@.output_path == old(self)@.output_path,
            final(self)@.pending == if count <= old(self)@.pending.len() {
                old(self)@.pending.skip(count as int)
            } else {
                Seq::<DialogueTelemetryRecordView>::empty()
            },
    {
        let total = self.pending.len();
        let written = if count <= total {
            count
        } else {
            total
        };
        let rest = self.pending.split_off(written);
        self.pending = rest;
        proof {
            if count <= total {
                assert(record_views(self.pending@) =~= old(self)@.pending.skip(count as int));
            } else {
                assert(record_views(self.pending@) =~= Seq::<DialogueTelemetryRecordView>::empty());
            }
        }
    }

    /// Where the log is kept.
    pub fn path(&self) -> (path: &str)
        ensures
            path@ == self@.output_path,
    {
        self.output_path.as_str()
    }

    pub fn is_empty(&self) -> (empty: bool)
        ensures
            empty == (self@.pending.len() == 0),
    {
        self.pending.len() == 0
    }
}

impl Default for DialogueTelemetryLog {
    fn default() -> (log: Self)
        ensures
            log@.output_path == default_log_path(),
            log@.pending == Seq::<DialogueTelemetryRecordView>::empty(),
    {
        Self::new("logs/dialogue_history.jsonl")
    }
}

/// The views of the responses of `events`, in order.
pub open spec fn response_views(events: Seq<DialogueResponseEvent>) -> Seq<DialogueResponseView> {
    Seq::new(events.len(), |i: int| events[i].response@)
}

/// The views of the errors of `events`, in order.
pub open spec fn failure_views(events: Seq<DialogueRequestFailedEvent>) -> Seq<DialogueErrorView> {
    Seq::new(events.len(), |i: int| events[i].error@)
}

/// The records of what happened at `now`: one per response, then one per failure.
pub open spec fn records_at(
    now: u64,
    responses: Seq<DialogueResponseView>,
    failures: Seq<DialogueErrorView>,
) -> Seq<DialogueTelemetryRecordView> {
    Seq::new(
        responses.len(),
        |i: int|
            DialogueTelemetryRecordView {
                occurred_at_millis: now,
                event: DialogueTelemetryEventView::Response(responses[i]),
            },
    ) + Seq::new(
        failures.len(),
        |i: int|
            DialogueTelemetryRecordView {
                occurred_at_millis: now,
                event: DialogueTelemetryEventView::Failure(failures[i]),
            },
    )
}

/// Records the responses and failures raised at `now_millis`, responses
/// first, in the history and in the log.
pub fn record_dialogue_telemetry(
    now_millis: u64,
    telemetry: &mut DialogueTelemetry,
    responses: &Vec<DialogueResponseEvent>,
    failures: &Vec<DialogueRequestFailedEvent>,
    log: &mut DialogueTelemetryLog,
)
    ensures
        ({
            let records = records_at(
                now_millis,
                response_views(responses@),
                failure_views(failures@),
            );
            &&& old(telemetry)@.wf() ==> final(telemetry)@ == old(telemetry)@.pushed_all(records)
            &&& old(telemetry)@.wf() ==> final(telemetry)@.wf()
            &&& final(log)@.pending == old(log)@.pending + records
            &&& final(log)@.output_path == old(log)@.output_path
        }),
{
    let ghost all = records_at(now_millis, response_views(responses@), failure_views(failures@));
    let mut i: usize = 0;
    proof {
        assert(all.take(0) =~= Seq::<DialogueTelemetryRecordView>::empty());
        assert(old(log)@.pending + all.take(0) =~= old(log)@.pending);
    }
    while i < responses.len()
        invariant
            i <= responses.len(),
            all == records_at(now_millis, response_views(responses@), failure_views(failures@)),
            old(telemetry)@.wf() ==> telemetry@.wf() && telemetry@ == old(telemetry)@.pushed_all(
                all.take(i as int),
            ),
            log@.pending == old(log)@.pending + all.take(i as int),
            log@.output_path == old(log)@.output_path,
        decreases responses.len() - i,
    {
        let record = DialogueTelemetryRecord {
            occurred_at_millis: now_millis,
            event: DialogueTelemetryEvent::Response(responses[i].response.clone()),
        };
        proof {
            assert(record@ == all[i as int]);
            assert(all.take(i + 1).drop_last() =~= all.take(i as int));
            assert(all.take(i + 1).last() == all[i as int]);
        }
        log.push(&record);
        telemetry.push(record);
        proof {
            assert(log@.pending =~= old(log)@.pending + all.take(i + 1));
        }
        i += 1;
    }
    let offset = responses.len();
    let mut k: usize = 0;
    while k < failures.len()
        invariant
            k <= failures.len(),
            offset == responses.len(),
            all == records_at(now_millis, response_views(responses@), failure_views(failures@)),
            old(telemetry)@.wf() ==> telemetry@.wf() && telemetry@ == old(telemetry)@.pushed_all(
                all.take(offset + k),
            ),
            log@.pending == old(log)@.pending + all.take(offset + k),
            log@.output_path == old(log)@.output_path,
        decreases failures.len() - k,
    {
        let record = DialogueTelemetryRecord {
            occurred_at_millis: now_millis,
            event: DialogueTelemetryEvent::Failure(failures[k].error.clone()),
        };
        proof {
            assert(record@ == all[offset + k]);
            assert(all.take(offset + k + 1).drop_last() =~= all.take(offset + k));
            assert(all.take(offset + k + 1).last() == all[offset + k]);
        }
        log.push(&record);
        telemetry.push(record);
        proof {
            assert(log@.pending =~= old(log)@.pending + all.take(offset + k + 1));
        }
        k += 1;
    }
    proof {
        assert(all.take(offset + k) =~= all);
    }
}

} // verus!
