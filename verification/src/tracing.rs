//! Transport-agnostic tracing data forwarded from cells to the host: span and
//! event metadata, recorded fields, and the records a host collects.

use std::collections::HashMap;
use vstd::prelude::*;

use crate::cell::{has_prefix, starts_with};
use crate::text::{decimal_text, push_decimal};

verus! {

/// A field value captured from tracing, as text.
#[derive(Clone, Debug)]
pub struct Field {
    /// Field name.
    pub name: String,
    /// Field value.
    pub value: String,
}

/// Metadata of a span.
#[derive(Clone, Debug)]
pub struct SpanMeta {
    /// Span name.
    pub name: String,
    /// Target (module path).
    pub target: String,
    /// Level (`TRACE`, `DEBUG`, `INFO`, `WARN` or `ERROR`).
    pub level: String,
    /// Source file, if known.
    pub file: Option<String>,
    /// Line number, if known.
    pub line: Option<u32>,
    /// Fields recorded when the span was created.
    pub fields: Vec<Field>,
}

/// Metadata of an event.
#[derive(Clone, Debug)]
pub struct EventMeta {
    /// The event's message: its `message` field, if present.
    pub message: String,
    /// Target (module path).
    pub target: String,
    /// Level.
    pub level: String,
    /// Source file, if known.
    pub file: Option<String>,
    /// Line number, if known.
    pub line: Option<u32>,
    /// All fields, the message included.
    pub fields: Vec<Field>,
    /// The enclosing span, if any.
    pub parent_span_id: Option<u64>,
}

/// Trace data as a host collects it.
#[derive(Clone, Debug)]
pub enum TraceRecord {
    NewSpan { id: u64, meta: SpanMeta },
    Record { span_id: u64, fields: Vec<Field> },
    Event(EventMeta),
    Enter { span_id: u64 },
    Exit { span_id: u64 },
    DropSpan { span_id: u64 },
}

/// The value of the first field of `fields` named `message`, or the empty
/// text when there is none.
pub open spec fn event_message_text(fields: Seq<Field>) -> Seq<char>
    decreases fields.len(),
{
    if fields.len() == 0 {
        Seq::empty()
    } else if fields[0].name@ == "message"@ {
        fields[0].value@
    } else {
        event_message_text(fields.drop_first())
    }
}

/// The message of an event with `fields`: the value of its first field named
/// `message`, or the empty string.
pub fn event_message(fields: &Vec<Field>) -> (r: String)
    ensures
        r@ == event_message_text(fields@),
{
    let key = String::from_str("message");
    let mut i: usize = 0;
    assert(fields@.skip(0) =~= fields@);
    while i < fields.len()
        invariant
            i <= fields@.len(),
            key@ == "message"@,
            event_message_text(fields@) == event_message_text(fields@.skip(i as int)),
        decreases fields@.len() - i,
    {
        assert(fields@.skip(i as int).drop_first() =~= fields@.skip(i + 1));
        if fields[i].name == key {
            return fields[i].value.clone();
        }
        i = i + 1;
    }
    String::new()
}

/// The text of each field: name and value.
pub open spec fn fields_view(fields: Seq<Field>) -> Seq<(Seq<char>, Seq<char>)> {
    fields.map_values(|f: Field| (f.name@, f.value@))
}

/// A signed integer in decimal, as `Display` writes it.
pub open spec fn signed_decimal_text(v: i64) -> Seq<char> {
    if v < 0 {
        "-"@ + decimal_text((0 - v) as nat)
    } else {
        decimal_text(v as nat)
    }
}

/// A boolean as `Display` writes it.
pub open spec fn bool_text(b: bool) -> Seq<char> {
    if b {
        "true"@
    } else {
        "false"@
    }
}

/// Collects the fields recorded on a span or event, each value as text.
#[derive(Debug)]
pub struct FieldVisitor {
    /// The fields recorded so far, in order.
    pub fields: Vec<Field>,
}

impl FieldVisitor {
    /// A visitor with no fields.
    pub fn new() -> (r: Self)
        ensures
            r.fields@.len() == 0,
    {
        FieldVisitor { fields: Vec::new() }
    }

    fn push(&mut self, name: &str, value: String)
        ensures
            fields_view(final(self).fields@) == fields_view(old(self).fields@).push(
                (name@, value@),
            ),
    {
        let ghost entry = (name@, value@);
        self.fields.push(Field { name: String::from_str(name), value });
        assert(fields_view(self.fields@) =~= fields_view(old(self).fields@).push(entry));
    }

    /// Records a field whose value was formatted with `Debug` into `text`.
    pub fn record_debug(&mut self, name: &str, text: String)
        ensures
            fields_view(final(self).fields@) == fields_view(old(self).fields@).push(
                (name@, text@),
            ),
    {
        self.push(name, text);
    }

    /// Records a string field.
    pub fn record_str(&mut self, name: &str, value: &str)
        ensures
            fields_view(final(self).fields@) == fields_view(old(self).fields@).push(
                (name@, value@),
            ),
    {
        self.push(name, String::from_str(value));
    }

    /// Records a signed integer field, in decimal.
    pub fn record_i64(&mut self, name: &str, value: i64)
        ensures
            fields_view(final(self).fields@) == fields_view(old(self).fields@).push(
                (name@, signed_decimal_text(value)),
            ),
    {
        let text = if value < 0 {
            let mut s = String::from_str("-");
            let magnitude: u64 = (0 - (value as i128)) as u64;
            push_decimal(&mut s, magnitude);
            s
        } else {
            let mut s = String::new();
            push_decimal(&mut s, value as u64);
            assert(s@ =~= decimal_text(value as nat));
            s
        };
        self.push(name, text);
    }

    /// Records an unsigned integer field, in decimal.
    pub fn record_u64(&mut self, name: &str, value: u64)
        ensures
            fields_view(final(self).fields@) == fields_view(old(self).fields@).push(
                (name@, decimal_text(value as nat)),
            ),
    {
        let mut s = String::new();
        push_decimal(&mut s, value);
        assert(s@ =~= decimal_text(value as nat));
        self.push(name, s);
    }

    /// Records a boolean field, as `true` or `false`.
    pub fn record_bool(&mut self, name: &str, value: bool)
        ensures
            fields_view(final(self).fields@) == fields_view(old(self).fields@).push(
                (name@, bool_text(value)),
            ),
    {
        let text = if value {
            String::from_str("true")
        } else {
            String::from_str("false")
        };
        self.push(name, text);
    }
}

/// A host-side sink: it collects the trace data it receives, in order, and
/// numbers new spans from 1 on.
#[derive(Debug)]
pub struct HostTracingSink {
    records: Vec<TraceRecord>,
    next_span_id: u64,
}

impl HostTracingSink {
    /// The records collected so far, oldest first.
    pub closed spec fn log(&self) -> Seq<TraceRecord> {
        self.records@
    }

    /// The ID the next new span gets.
    pub closed spec fn next_id(&self) -> u64 {
        self.next_span_id
    }

    /// A sink with no records; the first span gets ID 1.
    pub fn new() -> (r: Self)
        ensures
            r.log() == Seq::<TraceRecord>::empty(),
            r.next_id() == 1,
    {
        HostTracingSink { records: Vec::new(), next_span_id: 1 }
    }

    /// All collected trace records, oldest first.
    pub fn records(&self) -> (r: &Vec<TraceRecord>)
        ensures
            r@ == self.log(),
    {
        &self.records
    }

    /// Clears all collected records; span numbering goes on.
    pub fn clear(&mut self)
        ensures
            final(self).log() == Seq::<TraceRecord>::empty(),
            final(self).next_id() == old(self).next_id(),
    {
        self.records.clear();
    }

    /// Records a new span and returns its ID; the counter steps by one,
    /// wrapping at 2^64.
    pub fn new_span(&mut self, span: SpanMeta) -> (r: u64)
        ensures
            r == old(self).next_id(),
            final(self).next_id() == ((old(self).next_id() + 1) % 0x1_0000_0000_0000_0000) as u64,
            final(self).log() == old(self).log().push(TraceRecord::NewSpan { id: r, meta: span }),
    {
        let id = self.next_span_id;
        self.next_span_id = self.next_span_id.wrapping_add(1);
        self.records.push(TraceRecord::NewSpan { id, meta: span });
        id
    }

    /// Records fields recorded on a span.
    pub fn record(&mut self, span_id: u64, fields: Vec<Field>)
        ensures
            final(self).next_id() == old(self).next_id(),
            final(self).log() == old(self).log().push(TraceRecord::Record { span_id, fields }),
    {
        self.records.push(TraceRecord::Record { span_id, fields });
    }

    /// Records an event.
    pub fn event(&mut self, event: EventMeta)
        ensures
            final(self).next_id() == old(self).next_id(),
            final(self).log() == old(self).log().push(TraceRecord::Event(event)),
    {
        self.records.push(TraceRecord::Event(event));
    }

    /// Records entering a span.
    pub fn enter(&mut self, span_id: u64)
        ensures
            final(self).next_id() == old(self).next_id(),
            final(self).log() == old(self).log().push(TraceRecord::Enter { span_id }),
    {
        self.records.push(TraceRecord::Enter { span_id });
    }

    /// Records leaving a span.
    pub fn exit(&mut self, span_id: u64)
        ensures
            final(self).next_id() == old(self).next_id(),
            final(self).log() == old(self).log().push(TraceRecord::Exit { span_id }),
    {
        self.records.push(TraceRecord::Exit { span_id });
    }

    /// Records that a span was closed.
    pub fn drop_span(&mut self, span_id: u64)
        ensures
            final(self).next_id() == old(self).next_id(),
            final(self).log() == old(self).log().push(TraceRecord::DropSpan { span_id }),
    {
        self.records.push(TraceRecord::DropSpan { span_id });
    }
}

impl Default for HostTracingSink {
    /// A sink with no records; the first span gets ID 1.
    fn default() -> (r: Self)
        ensures
            r.log() == Seq::<TraceRecord>::empty(),
            r.next_id() == 1,
    {
        Self::new()
    }
}

/// The level of a span or event; a more verbose level is greater.
#[derive(Clone, Copy, Debug, PartialEq, Eq, Structural)]
pub enum Level {
    Error,
    Warn,
    Info,
    Debug,
    Trace,
}

/// A bound on levels: `Off` lets none through; a more verbose filter is
/// greater.
#[derive(Clone, Copy, Debug, PartialEq, Eq, Structural)]
pub enum LevelFilter {
    Off,
    Error,
    Warn,
    Info,
    Debug,
    Trace,
}

/// The place of a filter in the order of verbosity, `Off` lowest.
pub open spec fn verbosity(f: LevelFilter) -> int {
    match f {
        LevelFilter::Off => 0,
        LevelFilter::Error => 1,
        LevelFilter::Warn => 2,
        LevelFilter::Info => 3,
        LevelFilter::Debug => 4,
        LevelFilter::Trace => 5,
    }
}

/// The filter that lets exactly `level` and the less verbose levels through.
pub open spec fn level_filter_of(level: Level) -> LevelFilter {
    match level {
        Level::Error => LevelFilter::Error,
        Level::Warn => LevelFilter::Warn,
        Level::Info => LevelFilter::Info,
        Level::Debug => LevelFilter::Debug,
        Level::Trace => LevelFilter::Trace,
    }
}

/// The filter of a level.
pub fn level_to_filter(level: Level) -> (r: LevelFilter)
    ensures
        r == level_filter_of(level),
{
    match level {
        Level::Error => LevelFilter::Error,
        Level::Warn => LevelFilter::Warn,
        Level::Info => LevelFilter::Info,
        Level::Debug => LevelFilter::Debug,
        Level::Trace => LevelFilter::Trace,
    }
}

fn verbosity_of(f: LevelFilter) -> (r: u8)
    ensures
        r == verbosity(f),
{
    match f {
        LevelFilter::Off => 0,
        LevelFilter::Error => 1,
        LevelFilter::Warn => 2,
        LevelFilter::Info => 3,
        LevelFilter::Debug => 4,
        LevelFilter::Trace => 5,
    }
}

/// The quick check of a filter: `level` passes when it is no more verbose
/// than the filter's most verbose level; with no such hint, every level
/// passes.
pub fn max_level_enabled(level: LevelFilter, max_level_hint: Option<LevelFilter>) -> (r: bool)
    ensures
        r == match max_level_hint {
            Some(max) => verbosity(level) <= verbosity(max),
            None => true,
        },
{
    match max_level_hint {
        Some(max) => verbosity_of(level) <= verbosity_of(max),
        None => true,
    }
}

/// Targets whose events are never forwarded: the tracing layer itself and the
/// RPC internals that forwarding runs through, which would recurse.
pub open spec fn internal_target(target: Seq<char>) -> bool {
    has_prefix(target, "rapace_tracing"@) || has_prefix(target, "rapace_core"@) || has_prefix(
        target,
        "rapace_transport_shm"@,
    )
}

/// Whether the forwarding layer takes a span or event of `target` at
/// `level`, given the filter's max level hint: never for an internal target,
/// else by the filter's max-level check.
pub fn layer_enabled(target: &str, level: Level, max_level_hint: Option<LevelFilter>) -> (r: bool)
    ensures
        r == (!internal_target(target@) && match max_level_hint {
            Some(max) => verbosity(level_filter_of(level)) <= verbosity(max),
            None => true,
        }),
{
    if starts_with(target, "rapace_tracing") || starts_with(target, "rapace_core")
        || starts_with(target, "rapace_transport_shm")
    {
        return false;
    }
    max_level_enabled(level_to_filter(level), max_level_hint)
}

/// The local span ID that each forwarded span got, by the subscriber's ID of
/// the span. A span's entry lives from its creation to its close.
#[derive(Debug)]
pub struct SpanIds {
    ids: HashMap<u64, u64>,
}

impl View for SpanIds {
    type V = Map<u64, u64>;

    closed spec fn view(&self) -> Map<u64, u64> {
        self.ids@
    }
}

impl SpanIds {
    /// No span is known.
    pub fn new() -> (r: Self)
        ensures
            r@ == Map::<u64, u64>::empty(),
    {
        SpanIds { ids: HashMap::new() }
    }

    /// A new span: the subscriber's `id` now stands for `local_id`.
    pub fn on_new_span(&mut self, id: u64, local_id: u64)
        ensures
            final(self)@ == old(self)@.insert(id, local_id),
    {
        broadcast use vstd::std_specs::hash::group_hash_axioms;

        self.ids.insert(id, local_id);
    }

    /// The local ID of the span the subscriber knows as `id`, if it is open.
    /// Entering, leaving, the parent of an event: each goes by this.
    pub fn local_id(&self, id: u64) -> (r: Option<u64>)
        ensures
            r == if self@.contains_key(id) {
                Some(self@[id])
            } else {
                None
            },
    {
        broadcast use vstd::std_specs::hash::group_hash_axioms;

        match self.ids.get(&id) {
            Some(v) => Some(*v),
            None => None,
        }
    }

    /// Fields recorded on a span: the local span to record them on, when the
    /// span is known and there are fields.
    pub fn on_record(&self, id: u64, field_count: usize) -> (r: Option<u64>)
        ensures
            r == if self@.contains_key(id) && field_count > 0 {
                Some(self@[id])
            } else {
                None
            },
    {
        if field_count == 0 {
            return None;
        }
        self.local_id(id)
    }

    /// A span closes: its entry goes, and its local ID, if it had one, is the
    /// span to drop.
    pub fn on_close(&mut self, id: u64) -> (r: Option<u64>)
        ensures
            final(self)@ == old(self)@.remove(id),
            r == if old(self)@.contains_key(id) {
                Some(old(self)@[id])
            } else {
                None
            },
    {
        broadcast use vstd::std_specs::hash::group_hash_axioms;

        self.ids.remove(&id)
    }
}

/// A closed span is forgotten: after it closes, its ID finds no local span
/// and closing it again drops nothing, until a new span takes the ID.
pub proof fn lemma_closed_span_forgotten(before: Map<u64, u64>, after: Map<u64, u64>, id: u64)
    requires
        after == before.remove(id),
    ensures
        !after.contains_key(id),
        after.remove(id) == after,
        forall|other: u64| other != id ==> #[trigger] after.contains_key(other) == before.contains_key(other),
{
    assert(after.remove(id) =~= after);
}

impl EventMeta {
    /// The metadata of an event with `fields`: its message is the value of
    /// its first `message` field (or empty), and all fields are kept.
    pub fn from_fields(
        target: String,
        level: String,
        file: Option<String>,
        line: Option<u32>,
        fields: Vec<Field>,
        parent_span_id: Option<u64>,
    ) -> (r: Self)
        ensures
            r.message@ == event_message_text(fields@),
            r.target == target,
            r.level == level,
            r.file == file,
            r.line == line,
            r.fields == fields,
            r.parent_span_id == parent_span_id,
    {
        let message = event_message(&fields);
        EventMeta { message, target, level, file, line, fields, parent_span_id }
    }
}

} // verus!
