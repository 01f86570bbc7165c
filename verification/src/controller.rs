//! The decision core of the channel read loop: decoding one received
//! buffer, classifying it, threading the most recent timestamp between
//! the derived records, and the loop policy for read events and sink
//! outcomes. The connection itself, and the sinks, live in the runtime
//! around the library; every decision they act on is taken here.

use vstd::prelude::*;

use crate::audit_parse::{classify_model, paths_model};
use crate::serializer::{AuditError, FileOperatedOn, FileView, Operation, OperationView};
use crate::text::push_char;

verus! {

/// The settings the channel reader is built from.
pub struct UnixSocketSettings {
    pub socket_path: String,
}

/// The reader that owns one connection to the local audit channel for
/// the process lifetime. It holds the configured channel path; the
/// per-buffer decisions are taken by its associated functions.
pub struct UnixSocketPort {
    pub socket_path: String,
}

/// Bytes decode one-to-one: every byte stands for the character with
/// the same code point. The channel transport is text, one byte per
/// character; no multi-byte decoding takes place.
pub open spec fn decoded(data: Seq<u8>) -> Seq<char> {
    Seq::new(data.len(), |i: int| data[i] as char)
}

/// The mathematical view of one processing cycle's outcome.
#[verifier::ext_equal]
pub struct ChunkView {
    pub operation: Option<OperationView>,
    pub files: Seq<FileView>,
    pub timestamp: Seq<char>,
}

/// The outcome of one processing cycle: the operation to forward (if
/// any), the file records to forward, and the timestamp to carry into
/// the next cycle.
pub struct ChunkOutcome {
    pub operation: Option<Operation>,
    pub files: Vec<FileOperatedOn>,
    pub timestamp: String,
}

impl View for ChunkOutcome {
    type V = ChunkView;

    open spec fn view(&self) -> ChunkView {
        ChunkView {
            operation: match self.operation {
                None => None,
                Some(op) => Some(op@),
            },
            files: Seq::new(self.files@.len(), |i: int| self.files@[i]@),
            timestamp: self.timestamp@,
        }
    }
}

/// The model of one processing cycle: decode the buffer, classify the
/// operation, carry its timestamp (or keep the previous one), and
/// derive the file records against the carried timestamp.
pub open spec fn chunk_model(data: Seq<u8>, prev: Seq<char>) -> Result<ChunkView, AuditError> {
    let line = decoded(data);
    match classify_model(line) {
        Err(e) => Err(e),
        Ok(opm) => {
            let ts = match opm {
                Some(o) => o.timestamp,
                None => prev,
            };
            match paths_model(line, ts) {
                Err(e) => Err(e),
                Ok(fm) => Ok(
                    ChunkView {
                        operation: opm,
                        files: match fm {
                            None => Seq::empty(),
                            Some(fs) => fs,
                        },
                        timestamp: ts,
                    },
                ),
            }
        },
    }
}

impl UnixSocketPort {
    /// A reader configured with the channel path it will connect to.
    pub fn new(init_settings: UnixSocketSettings) -> (port: UnixSocketPort)
        ensures
            port.socket_path@ == init_settings.socket_path@,
    {
        UnixSocketPort { socket_path: init_settings.socket_path }
    }

    /// Decodes one received buffer, every byte as its equivalent
    /// single character.
    pub fn ascii_encode_and_join(read_data: Vec<u8>) -> (r: String)
        ensures
            r@ == decoded(read_data@),
    {
        let mut out = String::new();
        let n = read_data.len();
        let mut i: usize = 0;
        while i < n
            invariant
                0 <= i <= n,
                n == read_data@.len(),
                out@ == decoded(read_data@).take(i as int),
            decreases n - i,
        {
            push_char(&mut out, read_data[i] as char);
            proof {
                assert(out@ =~= decoded(read_data@).take(i + 1));
            }
            i += 1;
        }
        proof {
            assert(decoded(read_data@).take(n as int) =~= decoded(read_data@));
        }
        out
    }

    /// Processes one received buffer: decodes it, classifies the
    /// operation, captures its timestamp as the new "most recent
    /// timestamp" (or keeps the previous one), and derives the file
    /// records against the captured timestamp.
    pub fn process_chunk(read_data: Vec<u8>, previous_timestamp: String) -> (r: Result<
        ChunkOutcome,
        AuditError,
    >)
        ensures
            match chunk_model(read_data@, previous_timestamp@) {
                Ok(c) => r matches Ok(o) && o@ == c,
                Err(e) => r == Err::<ChunkOutcome, AuditError>(e),
            },
    {
        let ghost data = read_data@;
        let ghost prev = previous_timestamp@;
        let encoded_values = Self::ascii_encode_and_join(read_data);
        let line_copy = encoded_values.clone();
        let operation = match Operation::new(encoded_values) {
            Ok(o) => o,
            Err(e) => {
                return Err(e);
            },
        };
        let timestamp = match &operation {
            Some(op) => op.timestamp.clone(),
            None => previous_timestamp,
        };
        let files_changed = match FileOperatedOn::new(line_copy, timestamp.clone()) {
            Ok(f) => f,
            Err(e) => {
                return Err(e);
            },
        };
        let files = match files_changed {
            Some(v) => v,
            None => Vec::new(),
        };
        let outcome = ChunkOutcome { operation, files, timestamp };
        proof {
            let c = match chunk_model(data, prev) {
                Ok(c) => c,
                Err(_) => outcome@,
            };
            assert(outcome@.files =~= c.files);
            assert(outcome@ =~= c);
        }
        Ok(outcome)
    }
}

/// One observation of the channel by the read loop.
pub enum ReadEvent {
    /// A buffer was read successfully.
    Received(Vec<u8>),
    /// The channel reported readable but the read would block: a
    /// transient condition, never a failure.
    WouldBlock,
    /// A non-recoverable channel error.
    Failed,
}

/// What the read loop does next with one event.
pub enum StepAction {
    /// Forward the derived records to the sink, then read again.
    Dispatch(ChunkOutcome),
    /// Drop the buffer, surface the typed failure, and read again.
    Skip(AuditError),
    /// Retry the readiness wait without treating it as failure.
    Retry,
    /// Stop: the process cannot continue without its one input source.
    Terminate,
}

/// The opaque outcome of one sink call. Sinks fail silently: the
/// outcome is observed, never propagated.
pub enum SinkOutcome {
    Delivered,
    Failed,
}

impl UnixSocketPort {
    /// The loop policy for one read event: a received buffer is
    /// processed and dispatched (or skipped with its typed failure), a
    /// would-block report retries the wait, and any other channel
    /// error terminates the loop.
    pub fn handle_read_event(event: ReadEvent, previous_timestamp: String) -> (a: StepAction)
        ensures
            event matches ReadEvent::Received(data) ==> (match chunk_model(
                data@,
                previous_timestamp@,
            ) {
                Ok(c) => a matches StepAction::Dispatch(o) && o@ == c,
                Err(e) => a matches StepAction::Skip(f) && f == e,
            }),
            event is WouldBlock ==> a is Retry,
            event is Failed ==> a is Terminate,
    {
        match event {
            ReadEvent::Received(data) => match Self::process_chunk(data, previous_timestamp) {
                Ok(o) => StepAction::Dispatch(o),
                Err(e) => StepAction::Skip(e),
            },
            ReadEvent::WouldBlock => StepAction::Retry,
            ReadEvent::Failed => StepAction::Terminate,
        }
    }

    /// The loop policy after a dispatch cycle: whatever the sinks
    /// reported for the operation and for each file record, the reader
    /// issues the next channel read. A sink failure never stops
    /// ingestion.
    pub fn continue_after_dispatch(
        _update_outcome: &Option<SinkOutcome>,
        _report_outcomes: &Vec<SinkOutcome>,
    ) -> (go_on: bool)
        ensures
            go_on,
    {
        true
    }
}

} // verus!
