//! The append-only log: one text record per mutation, buffered in a FIFO queue until the flush
//! task writes it out, and read back at startup.

use crate::operation::{opt_view, Operation};
use crate::timestamp::{representable, rfc3339_text, timestamp_to_rfc3339};
use crossbeam::queue::SegQueue;
use vstd::prelude::*;

verus! {

/// The record of a mutation whose timestamp reads as `time`:
/// `timestamp=<time> operation=<name> level=<level> key="<key>"`, then ` value="<value>"` when
/// there is a value.
pub open spec fn record_text(
    time: Seq<char>,
    name: Seq<char>,
    level: Seq<char>,
    key: Seq<char>,
    value: Option<Seq<char>>,
) -> Seq<char> {
    let head = "timestamp="@ + time + " operation="@ + name + " level="@ + level + " key=\""@ + key
        + "\""@;
    match value {
        Some(v) => head + " value=\""@ + v + "\""@,
        None => head,
    }
}

/// The record that the log holds for an operation.
pub open spec fn operation_record(op: Operation) -> Seq<char> {
    record_text(rfc3339_text(op.timestamp), op.name@, op.level@, op.key@, opt_view(op.value))
}

/// Writes the log record of an operation.
pub fn format_record(operation: &Operation) -> (r: String)
    requires
        representable(operation.timestamp),
    ensures
        r@ == operation_record(*operation),
{
    let time = timestamp_to_rfc3339(&operation.timestamp);
    let mut line = String::from_str("timestamp=");
    line.append(time.as_str());
    line.append(" operation=");
    line.append(operation.name.as_str());
    line.append(" level=");
    line.append(operation.level.as_str());
    line.append(" key=\"");
    line.append(operation.key.as_str());
    line.append("\"");
    match &operation.value {
        Some(v) => {
            line.append(" value=\"");
            line.append(v.as_str());
            line.append("\"");
        },
        None => {},
    }
    line
}

#[verifier::external_type_specification]
#[verifier::external_body]
#[verifier::reject_recursive_types(T)]
pub struct ExSegQueue<T>(SegQueue<T>);

/// What a log buffer holds, oldest first.
pub uninterp spec fn queued(q: SegQueue<String>) -> Seq<Seq<char>>;

/// Relies on `SegQueue::new`: a new queue is empty.
#[verifier::external_body]
fn queue_new() -> (r: SegQueue<String>)
    ensures
        queued(r) == Seq::<Seq<char>>::empty(),
{
    SegQueue::new()
}

/// Relies on `SegQueue::push`: the element goes to the tail.
#[verifier::external_body]
fn queue_push(q: &mut SegQueue<String>, line: String)
    ensures
        queued(*final(q)) == queued(*old(q)).push(line@),
{
    q.push(line);
}

/// Relies on `SegQueue::pop`: the head element leaves, or `None` when the queue is empty.
#[verifier::external_body]
fn queue_pop(q: &mut SegQueue<String>) -> (r: Option<String>)
    ensures
        queued(*old(q)).len() == 0 ==> r is None && queued(*final(q)) == queued(*old(q)),
        queued(*old(q)).len() > 0 ==> (r matches Some(s) && s@ == queued(*old(q))[0]
            && queued(*final(q)) == queued(*old(q)).drop_first()),
{
    q.pop()
}

/// The durability buffer: records wait here, oldest first, until the flush task takes them.
pub struct AppendOnlyLog {
    buffer: SegQueue<String>,
    flush_interval: u64,
    path: String,
}

impl AppendOnlyLog {
    /// The records waiting to be written, oldest first.
    pub closed spec fn pending(&self) -> Seq<Seq<char>> {
        queued(self.buffer)
    }

    /// An empty log that writes to `path` every `flush_interval` milliseconds.
    pub fn new(path: String, flush_interval: u64) -> (r: AppendOnlyLog)
        ensures
            r.pending() == Seq::<Seq<char>>::empty(),
            r.spec_flush_interval() == flush_interval,
            r.path_view() == path@,
    {
        AppendOnlyLog { buffer: queue_new(), flush_interval, path }
    }

    pub closed spec fn spec_flush_interval(&self) -> u64 {
        self.flush_interval
    }

    pub closed spec fn path_view(&self) -> Seq<char> {
        self.path@
    }

    /// Milliseconds between two flushes.
    pub fn flush_interval(&self) -> (r: u64)
        ensures
            r == self.spec_flush_interval(),
    {
        self.flush_interval
    }

    /// The file that the records go to.
    pub fn path(&self) -> (r: &String)
        ensures
            r@ == self.path_view(),
    {
        &self.path
    }

    /// Enqueues the record of a mutation behind those already waiting.
    pub fn invoke(&mut self, operation: &Operation)
        requires
            representable(operation.timestamp),
        ensures
            final(self).pending() == old(self).pending().push(operation_record(*operation)),
            final(self).spec_flush_interval() == old(self).spec_flush_interval(),
            final(self).path_view() == old(self).path_view(),
    {
        let line = format_record(operation);
        queue_push(&mut self.buffer, line);
    }

    /// Takes every waiting record, oldest first, and leaves the buffer empty.
    pub fn drain(&mut self) -> (r: Vec<String>)
        ensures
            r@.map_values(|s: String| s@) == old(self).pending(),
            final(self).pending() == Seq::<Seq<char>>::empty(),
            final(self).spec_flush_interval() == old(self).spec_flush_interval(),
            final(self).path_view() == old(self).path_view(),
    {
        let mut out: Vec<String> = Vec::new();
        loop
            invariant
                out@.map_values(|s: String| s@) + self.pending() == old(self).pending(),
                self.flush_interval == old(self).flush_interval,
                self.path == old(self).path,
            ensures
                out@.map_values(|s: String| s@) == old(self).pending(),
                self.pending() == Seq::<Seq<char>>::empty(),
                self.flush_interval == old(self).flush_interval,
                self.path == old(self).path,
            decreases self.pending().len(),
        {
            let ghost before = self.pending();
            match queue_pop(&mut self.buffer) {
                Some(line) => {
                    let ghost prev = out@.map_values(|s: String| s@);
                    out.push(line);
                    proof {
                        assert(out@.map_values(|s: String| s@) =~= prev.push(before[0]));
                        assert(prev.push(before[0]) + before.drop_first() =~= prev + before);
                    }
                },
                None => {
                    proof {
                        assert(before =~= Seq::<Seq<char>>::empty());
                        assert(out@.map_values(|s: String| s@) + before =~= out@.map_values(|s: String| s@));
                    }
                    break;
                },
            }
        }
        out
    }
}

} // verus!
