//! Single-step stream ingestion: one line read from the log stream is
//! decoded as a `{"type", "payload"}` envelope, the payload is parsed
//! by the structured log grammar, and a trace record is correlated
//! into the cache. Reading the line itself is the caller's business;
//! the step here is a total function of the line.
use crate::cache::TraceCache;
use crate::cache::TraceItem;
use crate::cache::empty_contents;
use crate::cache::insert_rel;
use crate::log::LogItem;
use crate::log::StructuredLogItem;
use crate::log::StructuredV;
use crate::log::parse_spec;
use vstd::prelude::*;
use vstd::string::*;

verus! {

/// Why one ingestion step failed: the remote end closed the stream (an
/// empty read), or a line was not a well-formed envelope. Either one
/// aborts the session, as the governing loop treats both as fatal.
#[derive(Debug)]
pub enum IngestError {
    ConnectionClosed,
    MalformedRecord { raw: String },
}

impl IngestError {
    /// A short description for the diagnostic channel.
    pub fn message(&self) -> (r: String)
        ensures
            self is ConnectionClosed ==> r@ == "connection closed by the remote end"@,
            self is MalformedRecord ==> r@ == "malformed record: "@ + self->MalformedRecord_raw@,
    {
        match self {
            IngestError::ConnectionClosed => "connection closed by the remote end".to_owned(),
            IngestError::MalformedRecord { raw } => {
                let mut m = "malformed record: ".to_owned();
                m.append(raw.as_str());
                m
            },
        }
    }
}

/// What decoding one line as a `{"type", "payload"}` JSON envelope
/// yields: the two string fields, or nothing when the line is not such
/// an object. A function of the text alone.
pub uninterp spec fn envelope_of(s: Seq<char>) -> Option<(Seq<char>, Seq<char>)>;

/// Relies on serde_json::from_str: whether a line decodes as a JSON
/// object with string fields "type" and "payload" depends on the text
/// alone, and the decoded fields are those of the object.
#[verifier::external_body]
fn decode_envelope(line: &str) -> (r: Option<(String, String)>)
    ensures
        match r {
            Some(p) => envelope_of(line@) == Some((p.0@, p.1@)),
            None => envelope_of(line@) is None,
        },
{
    let v: serde_json::Value = match serde_json::from_str(line) {
        Ok(v) => v,
        Err(_) => return None,
    };
    let t = match v.get("type").and_then(|f| f.as_str()) {
        Some(t) => t.to_string(),
        None => return None,
    };
    let p = match v.get("payload").and_then(|f| f.as_str()) {
        Some(p) => p.to_string(),
        None => return None,
    };
    Some((t, p))
}

/// The application state: the trace correlation cache, a display
/// counter, and the termination flag. One instance lives per session;
/// only the main loop mutates it.
pub struct App {
    pub traces: TraceCache,
    pub counter: i64,
    pub should_quit: bool,
}

impl App {
    /// The state half of session construction: a fresh cache with the
    /// given capacity and time-to-idle threshold, counter at zero, not
    /// quitting. Opening the stream itself is the caller's business.
    pub fn new(cache_size: u64, tti_millis: u64) -> (r: App)
        requires
            1 <= tti_millis <= 1_000_000_000_000u64,
        ensures
            r.traces@ == empty_contents(),
            r.counter == 0,
            r.should_quit == false,
    {
        App { traces: TraceCache::new(cache_size, tti_millis), counter: 0, should_quit: false }
    }

    /// One ingestion step, applied to the line the caller has read from
    /// the stream and to the current time in milliseconds. An empty
    /// read means the remote end closed the stream; a line that is no
    /// envelope is malformed; otherwise the payload is parsed, and a
    /// trace record is correlated into the cache under its identifier.
    pub fn ingest_line(&mut self, line: &str, now: u64) -> (r: Result<LogItem, IngestError>)
        ensures
            final(self).counter == old(self).counter,
            final(self).should_quit == old(self).should_quit,
            line@.len() == 0 ==> r == Err::<LogItem, IngestError>(IngestError::ConnectionClosed)
                && *final(self) == *old(self),
            line@.len() > 0 ==> match envelope_of(line@) {
                None => (r matches Err(e) && e matches IngestError::MalformedRecord { raw }
                    && raw@ == line@) && *final(self) == *old(self),
                Some(env) => {
                    &&& r matches Ok(item)
                    &&& item@.log_type == env.0
                    &&& item@.payload == parse_spec(env.1)
                    &&& match parse_spec(env.1) {
                        StructuredV::Trace(t) => insert_rel(
                            old(self).traces@,
                            final(self).traces@,
                            t.trace_id,
                            (now, t.duration, t.content.tag, t.content.content),
                        ),
                        _ => final(self).traces@ == old(self).traces@,
                    }
                },
            },
    {
        if line.is_empty() {
            return Err(IngestError::ConnectionClosed);
        }
        match decode_envelope(line) {
            None => Err(IngestError::MalformedRecord { raw: line.to_owned() }),
            Some((log_type, payload)) => {
                let item = LogItem::from_parts(log_type, payload);
                match &item.payload {
                    StructuredLogItem::Trace(t) => {
                        let entry = TraceItem {
                            time: now,
                            duration: t.duration.clone(),
                            content: t.content.clone(),
                        };
                        self.traces.insert(t.trace_id, entry);
                    },
                    _ => {},
                }
                Ok(item)
            },
        }
    }
}

} // verus!
