//! The call sites of the tour. Each one hands back, in order, the records
//! that it makes; offering them to the sinks is left to the caller.
//!
//! `origin` is the target of a call that names none: the module path of the
//! caller.

use crate::app_target::{info, DEFAULT_TGT};
use crate::level::Severity;
use crate::record::{
    records_view, Event, EventModel, FieldModel, Record, RecordModel, Span, SpanModel,
};
use crate::span_stack::SpanStack;
use crate::text::{decimal, decimal_string};
use vstd::prelude::*;

verus! {

/// A value with a display form and a debug form of its own.
#[derive(Clone, Copy, Debug, PartialEq, Eq, Structural)]
pub struct DebugVal {
    pub value: i32,
}

impl DebugVal {
    /// The display form: `Val: ` and the value in decimal.
    pub open spec fn display_text(self) -> Seq<char> {
        "Val: "@ + decimal(self.value as int)
    }

    /// The debug form: the name of the type and its field in braces.
    pub open spec fn debug_text(self) -> Seq<char> {
        "DebugVal { value: "@ + decimal(self.value as int) + " }"@
    }

    /// Writes the display form.
    pub fn to_string(&self) -> (s: String)
        ensures
            s@ == self.display_text(),
    {
        "Val: ".to_owned().concat(decimal_string(self.value).as_str())
    }

    /// Writes the debug form.
    pub fn to_debug_string(&self) -> (s: String)
        ensures
            s@ == self.debug_text(),
    {
        "DebugVal { value: ".to_owned().concat(decimal_string(self.value).as_str()).concat(" }")
    }
}

/// The record of an event.
pub open spec fn event_record(
    level: Severity,
    target: Seq<char>,
    message: Seq<char>,
    fields: Seq<FieldModel>,
    span: Option<Seq<char>>,
) -> RecordModel {
    RecordModel::Event(EventModel { level, target, message, fields, span })
}

/// The record of an event without fields, outside any span.
pub open spec fn plain_record(level: Severity, target: Seq<char>, message: Seq<char>) -> RecordModel {
    event_record(level, target, message, Seq::empty(), None)
}

/// The record of an `Info` event with one field, outside any span.
pub open spec fn info_with_field(
    target: Seq<char>,
    message: Seq<char>,
    name: Seq<char>,
    value: Seq<char>,
) -> RecordModel {
    event_record(Severity::Info, target, message, seq![FieldModel { name, value }], None)
}

/// The span of [`span_variations`].
pub open spec fn my_span(origin: Seq<char>, now: u64) -> SpanModel {
    SpanModel { name: "my_span"@, target: origin, open_time: now, fields: Seq::empty() }
}

/// The span of [`instrumented_function`]: it is named after the function and
/// carries the function's argument as a field.
pub open spec fn instrumented_span(origin: Seq<char>, a: Seq<char>, now: u64) -> SpanModel {
    SpanModel {
        name: "instrumented_function"@,
        target: origin,
        open_time: now,
        fields: seq![FieldModel { name: "a"@, value: a }],
    }
}

/// A function that runs inside a span of its own name, opened at time
/// `now`: the opening of the span, two `Info` events inside it, one with the
/// argument in its message and one with the argument as a field, and the
/// closing of the span. A string value is held as it is: whether a sink
/// puts it in quotes is the sink's affair.
pub fn instrumented_function(origin: &str, a: String, now: u64) -> (out: Vec<Record>)
    ensures
        records_view(out@) == seq![
            RecordModel::SpanOpen(instrumented_span(origin@, a@, now)),
            event_record(
                Severity::Info,
                origin@,
                "instrumeted_function called with "@ + a@,
                Seq::empty(),
                Some("instrumented_function"@),
            ),
            event_record(
                Severity::Info,
                origin@,
                "instrumeted_function called"@,
                seq![FieldModel { name: "a"@, value: a@ }],
                Some("instrumented_function"@),
            ),
            RecordModel::SpanClose(instrumented_span(origin@, a@, now)),
        ],
{
    let mut out: Vec<Record> = Vec::new();
    let mut stack = SpanStack::new();
    let span = Span::new("instrumented_function", origin, now).with_field("a", a.as_str());
    out.push(Record::SpanOpen(span.duplicate()));
    let guard = stack.enter(span);
    let message = "instrumeted_function called with ".to_owned().concat(a.as_str());
    out.push(
        Record::Event(
            Event::new(Severity::Info, origin, message.as_str()).in_span(stack.active_name()),
        ),
    );
    out.push(
        Record::Event(
            Event::new(Severity::Info, origin, "instrumeted_function called").with_field(
                "a",
                a.as_str(),
            ).in_span(stack.active_name()),
        ),
    );
    match stack.exit(guard) {
        Some(left) => {
            out.push(Record::SpanClose(left));
        },
        None => {},
    }
    out
}

/// Six `Info` events that show how values are attached to an event: in the
/// message, as a named field, under the variable's own name, by the display
/// form, by the debug form, and as a named expression.
pub fn useful_parameter_variations(origin: &str, a: &str) -> (out: Vec<Record>)
    ensures
        records_view(out@) == seq![
            plain_record(Severity::Info, origin@, "regular println usage a="@ + a@),
            info_with_field(origin@, "named param"@, "name"@, a@),
            info_with_field(origin@, "quick named param"@, "a"@, a@),
            info_with_field(
                origin@,
                "display print param"@,
                "dbg_val"@,
                (DebugVal { value: 42 }).display_text(),
            ),
            info_with_field(
                origin@,
                "debug print param"@,
                "dbg_val"@,
                (DebugVal { value: 42 }).debug_text(),
            ),
            info_with_field(origin@, "named debug print param"@, "val"@, decimal(42)),
        ],
{
    let mut out: Vec<Record> = Vec::new();
    let message = "regular println usage a=".to_owned().concat(a);
    out.push(Record::Event(Event::new(Severity::Info, origin, message.as_str())));
    out.push(
        Record::Event(Event::new(Severity::Info, origin, "named param").with_field("name", a)),
    );
    out.push(
        Record::Event(Event::new(Severity::Info, origin, "quick named param").with_field("a", a)),
    );
    let dbg_val = DebugVal { value: 42 };
    out.push(
        Record::Event(
            Event::new(Severity::Info, origin, "display print param").with_field(
                "dbg_val",
                dbg_val.to_string().as_str(),
            ),
        ),
    );
    out.push(
        Record::Event(
            Event::new(Severity::Info, origin, "debug print param").with_field(
                "dbg_val",
                dbg_val.to_debug_string().as_str(),
            ),
        ),
    );
    out.push(
        Record::Event(
            Event::new(Severity::Info, origin, "named debug print param").with_field(
                "val",
                decimal_string(dbg_val.value).as_str(),
            ),
        ),
    );
    out
}

/// Five events that show how targets are chosen: the caller's module, a
/// target named at the call, and two targets under one parent, which a
/// filter can tell apart.
pub fn useful_target_variations(origin: &str) -> (out: Vec<Record>)
    ensures
        records_view(out@) == seq![
            plain_record(Severity::Info, origin@, "regular println usage"@),
            plain_record(Severity::Info, "my_target"@, "targeted log"@),
            plain_record(
                Severity::Warn,
                "my_target"@,
                "targeted log with parameter "@ + "parameter"@,
            ),
            plain_record(Severity::Info, "my_app::level2"@, "multi level targetd log"@),
            plain_record(Severity::Info, "my_app::sub2"@, "multi level targetd log"@),
        ],
{
    let mut out: Vec<Record> = Vec::new();
    out.push(Record::Event(Event::new(Severity::Info, origin, "regular println usage")));
    out.push(Record::Event(Event::new(Severity::Info, "my_target", "targeted log")));
    let message = "targeted log with parameter ".to_owned().concat("parameter");
    out.push(Record::Event(Event::new(Severity::Warn, "my_target", message.as_str())));
    out.push(Record::Event(Event::new(Severity::Info, "my_app::level2", "multi level targetd log")));
    out.push(Record::Event(Event::new(Severity::Info, "my_app::sub2", "multi level targetd log")));
    out
}

/// A span called `my_span`, opened at time `now`, with two events inside
/// it, one under the caller's module and one under the application's own
/// target, and the closing of the span.
pub fn span_variations(origin: &str, now: u64) -> (out: Vec<Record>)
    ensures
        records_view(out@) == seq![
            RecordModel::SpanOpen(my_span(origin@, now)),
            event_record(
                Severity::Info,
                origin@,
                "inside span"@,
                Seq::empty(),
                Some("my_span"@),
            ),
            event_record(
                Severity::Info,
                DEFAULT_TGT@,
                "custom, inside span"@,
                Seq::empty(),
                Some("my_span"@),
            ),
            RecordModel::SpanClose(my_span(origin@, now)),
        ],
{
    let mut out: Vec<Record> = Vec::new();
    let mut stack = SpanStack::new();
    let span = Span::new("my_span", origin, now);
    out.push(Record::SpanOpen(span.duplicate()));
    let guard = stack.enter(span);
    out.push(
        Record::Event(
            Event::new(Severity::Info, origin, "inside span").in_span(stack.active_name()),
        ),
    );
    out.push(Record::Event(info("custom, inside span").in_span(stack.active_name())));
    match stack.exit(guard) {
        Some(left) => {
            out.push(Record::SpanClose(left));
        },
        None => {},
    }
    out
}

/// Three `Info` events and, before the last of them, one `Error` event,
/// all under the caller's module: what a filter that lets only errors
/// through is for.
pub fn noisy_logs(origin: &str) -> (out: Vec<Record>)
    ensures
        records_view(out@) == seq![
            plain_record(Severity::Info, origin@, "noisy log 1"@),
            plain_record(Severity::Info, origin@, "noisy log 2"@),
            plain_record(Severity::Error, origin@, "noisy log err example"@),
            plain_record(Severity::Info, origin@, "noisy log 3"@),
        ],
{
    let mut out: Vec<Record> = Vec::new();
    out.push(Record::Event(Event::new(Severity::Info, origin, "noisy log 1")));
    out.push(Record::Event(Event::new(Severity::Info, origin, "noisy log 2")));
    out.push(Record::Event(Event::new(Severity::Error, origin, "noisy log err example")));
    out.push(Record::Event(Event::new(Severity::Info, origin, "noisy log 3")));
    out
}

/// One `Info` event under the application's own target, whatever module
/// the call is made from.
pub fn others() -> (out: Vec<Record>)
    ensures
        records_view(out@) == seq![
            plain_record(Severity::Info, DEFAULT_TGT@, "in fn others, custom macro log"@),
        ],
{
    let mut out: Vec<Record> = Vec::new();
    out.push(Record::Event(info("in fn others, custom macro log")));
    out
}

} // verus!
