//! What a call site hands over: events, spans, and the records that carry
//! them to the sinks.

use crate::level::Severity;
use vstd::prelude::*;

verus! {

/// A named value attached to an event or a span, already formatted.
#[derive(Clone, Debug, PartialEq, Eq)]
pub struct Field {
    pub name: String,
    pub value: String,
}

/// The model of a [`Field`].
pub struct FieldModel {
    pub name: Seq<char>,
    pub value: Seq<char>,
}

impl View for Field {
    type V = FieldModel;

    open spec fn view(&self) -> FieldModel {
        FieldModel { name: self.name@, value: self.value@ }
    }
}

/// The models of a list of fields, in the same order.
pub open spec fn fields_view(fields: Seq<Field>) -> Seq<FieldModel> {
    fields.map_values(|f: Field| f@)
}

/// One log call: a level, the target it is filed under, a message, fields,
/// and the name of the span that was active at the call, if any.
#[derive(Clone, Debug, PartialEq, Eq)]
pub struct Event {
    pub level: Severity,
    pub target: String,
    pub message: String,
    pub fields: Vec<Field>,
    pub span: Option<String>,
}

/// The model of an [`Event`].
pub struct EventModel {
    pub level: Severity,
    pub target: Seq<char>,
    pub message: Seq<char>,
    pub fields: Seq<FieldModel>,
    pub span: Option<Seq<char>>,
}

impl View for Event {
    type V = EventModel;

    open spec fn view(&self) -> EventModel {
        EventModel {
            level: self.level,
            target: self.target@,
            message: self.message@,
            fields: fields_view(self.fields@),
            span: match self.span {
                Some(name) => Some(name@),
                None => None,
            },
        }
    }
}

/// A named interval of execution. Its level is always `Info`.
#[derive(Clone, Debug, PartialEq, Eq)]
pub struct Span {
    pub name: String,
    pub target: String,
    pub open_time: u64,
    pub fields: Vec<Field>,
}

/// The model of a [`Span`].
pub struct SpanModel {
    pub name: Seq<char>,
    pub target: Seq<char>,
    pub open_time: u64,
    pub fields: Seq<FieldModel>,
}

impl View for Span {
    type V = SpanModel;

    open spec fn view(&self) -> SpanModel {
        SpanModel {
            name: self.name@,
            target: self.target@,
            open_time: self.open_time,
            fields: fields_view(self.fields@),
        }
    }
}

/// What is offered to the sinks: an event, or the opening or closing of a
/// span.
#[derive(Clone, Debug, PartialEq, Eq)]
pub enum Record {
    Event(Event),
    SpanOpen(Span),
    SpanClose(Span),
}

/// The model of a [`Record`].
pub enum RecordModel {
    Event(EventModel),
    SpanOpen(SpanModel),
    SpanClose(SpanModel),
}

impl View for Record {
    type V = RecordModel;

    open spec fn view(&self) -> RecordModel {
        match self {
            Record::Event(e) => RecordModel::Event(e@),
            Record::SpanOpen(s) => RecordModel::SpanOpen(s@),
            Record::SpanClose(s) => RecordModel::SpanClose(s@),
        }
    }
}

/// The models of a list of records, in the same order.
pub open spec fn records_view(records: Seq<Record>) -> Seq<RecordModel> {
    records.map_values(|r: Record| r@)
}

impl Field {
    /// A field with the given name and formatted value.
    pub fn new(name: &str, value: &str) -> (f: Field)
        ensures
            f@ == (FieldModel { name: name@, value: value@ }),
    {
        Field { name: name.to_owned(), value: value.to_owned() }
    }

    /// A copy of this field.
    pub fn duplicate(&self) -> (f: Field)
        ensures
            f@ == self@,
    {
        Field { name: self.name.clone(), value: self.value.clone() }
    }
}

/// A copy of a list of fields.
pub fn duplicate_fields(fields: &Vec<Field>) -> (out: Vec<Field>)
    ensures
        fields_view(out@) == fields_view(fields@),
{
    let mut out: Vec<Field> = Vec::new();
    let mut i: usize = 0;
    while i < fields.len()
        invariant
            i <= fields.len(),
            out@.len() == i,
            forall|j: int| 0 <= j < i ==> out@[j]@ == fields@[j]@,
        decreases fields.len() - i,
    {
        out.push(fields[i].duplicate());
        i += 1;
    }
    out
}

impl Event {
    /// An event without fields, outside any span.
    pub fn new(level: Severity, target: &str, message: &str) -> (e: Event)
        ensures
            e@ == (EventModel {
                level,
                target: target@,
                message: message@,
                fields: Seq::empty(),
                span: None,
            }),
    {
        let e = Event {
            level,
            target: target.to_owned(),
            message: message.to_owned(),
            fields: Vec::new(),
            span: None,
        };
        assert(fields_view(e.fields@) =~= Seq::empty());
        e
    }

    /// The same event with one more field at the end.
    pub fn with_field(self, name: &str, value: &str) -> (e: Event)
        ensures
            e@ == (EventModel {
                fields: self@.fields.push(FieldModel { name: name@, value: value@ }),
                ..self@
            }),
    {
        let mut e = self;
        let ghost before = e.fields@;
        e.fields.push(Field::new(name, value));
        assert(fields_view(e.fields@) =~= fields_view(before).push(
            FieldModel { name: name@, value: value@ },
        ));
        e
    }

    /// The same event, marked as made while the span `name` was active, or
    /// outside any span for `None`.
    pub fn in_span(self, name: Option<&str>) -> (e: Event)
        ensures
            e@ == (EventModel {
                span: match name {
                    Some(n) => Some(n@),
                    None => None,
                },
                ..self@
            }),
    {
        let mut e = self;
        e.span = match name {
            Some(n) => Some(n.to_owned()),
            None => None,
        };
        e
    }

    /// The same event filed under another target. Level, message, fields and
    /// span stay as they are.
    pub fn with_target(self, target: &str) -> (e: Event)
        ensures
            e@ == (EventModel { target: target@, ..self@ }),
    {
        let mut e = self;
        e.target = target.to_owned();
        e
    }
}

impl Span {
    /// A span without fields.
    pub fn new(name: &str, target: &str, open_time: u64) -> (s: Span)
        ensures
            s@ == (SpanModel { name: name@, target: target@, open_time, fields: Seq::empty() }),
    {
        let s = Span {
            name: name.to_owned(),
            target: target.to_owned(),
            open_time,
            fields: Vec::new(),
        };
        assert(fields_view(s.fields@) =~= Seq::empty());
        s
    }

    /// The same span with one more field at the end.
    pub fn with_field(self, name: &str, value: &str) -> (s: Span)
        ensures
            s@ == (SpanModel {
                fields: self@.fields.push(FieldModel { name: name@, value: value@ }),
                ..self@
            }),
    {
        let mut s = self;
        let ghost before = s.fields@;
        s.fields.push(Field::new(name, value));
        assert(fields_view(s.fields@) =~= fields_view(before).push(
            FieldModel { name: name@, value: value@ },
        ));
        s
    }

    /// A copy of this span.
    pub fn duplicate(&self) -> (s: Span)
        ensures
            s@ == self@,
    {
        Span {
            name: self.name.clone(),
            target: self.target.clone(),
            open_time: self.open_time,
            fields: duplicate_fields(&self.fields),
        }
    }
}

} // verus!
