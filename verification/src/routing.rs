//! Sink bindings and the routing of records to them.
//!
//! Routing is a fan-out: a record is offered to every binding, and each
//! binding decides for itself.

use crate::filter::{evaluate_record, law_allow_all_admits_everything, FilterSet, FilterSetModel};
use crate::record::{Record, RecordModel};
use vstd::prelude::*;

verus! {

/// What a binding asks of a record besides its filter set.
#[derive(Clone, Debug, PartialEq, Eq)]
pub enum Predicate {
    /// Nothing: every record passes.
    Everything,
    /// The record is the opening or closing of a span of this very name.
    SpanNamed(String),
}

/// The model of a [`Predicate`].
pub enum PredicateModel {
    Everything,
    SpanNamed(Seq<char>),
}

impl View for Predicate {
    type V = PredicateModel;

    open spec fn view(&self) -> PredicateModel {
        match self {
            Predicate::Everything => PredicateModel::Everything,
            Predicate::SpanNamed(name) => PredicateModel::SpanNamed(name@),
        }
    }
}

/// Where a binding sends what it accepts.
#[derive(Clone, Debug, PartialEq, Eq)]
pub enum Destination {
    /// The standard output stream.
    Stdout,
    /// The file of this name, created if need be and appended to.
    File(String),
}

/// The model of a [`Destination`].
pub enum DestinationModel {
    Stdout,
    File(Seq<char>),
}

impl View for Destination {
    type V = DestinationModel;

    open spec fn view(&self) -> DestinationModel {
        match self {
            Destination::Stdout => DestinationModel::Stdout,
            Destination::File(name) => DestinationModel::File(name@),
        }
    }
}

/// A destination with the predicate and the filter set that decide what
/// reaches it.
#[derive(Debug)]
pub struct SinkBinding {
    pub predicate: Predicate,
    pub filter: FilterSet,
    pub destination: Destination,
}

/// The model of a [`SinkBinding`].
pub struct SinkBindingModel {
    pub predicate: PredicateModel,
    pub filter: FilterSetModel,
    pub destination: DestinationModel,
}

impl View for SinkBinding {
    type V = SinkBindingModel;

    open spec fn view(&self) -> SinkBindingModel {
        SinkBindingModel {
            predicate: self.predicate@,
            filter: self.filter@,
            destination: self.destination@,
        }
    }
}

/// The models of a list of bindings, in the same order.
pub open spec fn bindings_view(bindings: Seq<SinkBinding>) -> Seq<SinkBindingModel> {
    bindings.map_values(|b: SinkBinding| b@)
}

/// The record is the opening or closing of a span called `name`.
pub open spec fn is_span_named(record: RecordModel, name: Seq<char>) -> bool {
    match record {
        RecordModel::Event(_) => false,
        RecordModel::SpanOpen(s) => s.name == name,
        RecordModel::SpanClose(s) => s.name == name,
    }
}

impl PredicateModel {
    /// The predicate holds of the record.
    pub open spec fn holds(self, record: RecordModel) -> bool {
        match self {
            PredicateModel::Everything => true,
            PredicateModel::SpanNamed(name) => is_span_named(record, name),
        }
    }
}

impl SinkBindingModel {
    /// The binding accepts the record: its predicate holds of it and its
    /// filter set lets it through.
    pub open spec fn accepts(self, record: RecordModel) -> bool {
        self.predicate.holds(record) && self.filter.admits_record(record)
    }
}

impl Predicate {
    /// Decides whether the predicate holds of the record.
    pub fn holds(&self, record: &Record) -> (r: bool)
        ensures
            r == self@.holds(record@),
    {
        match self {
            Predicate::Everything => true,
            Predicate::SpanNamed(name) => match record {
                Record::Event(_) => false,
                Record::SpanOpen(s) => s.name == *name,
                Record::SpanClose(s) => s.name == *name,
            },
        }
    }
}

impl SinkBinding {
    /// Decides whether the binding accepts the record.
    pub fn accepts(&self, record: &Record) -> (r: bool)
        ensures
            r == self@.accepts(record@),
    {
        self.predicate.holds(record) && evaluate_record(&self.filter, record)
    }
}

/// The bindings of a process, in the order of their registration. The list
/// is fixed when the value is made.
#[derive(Debug)]
pub struct Config {
    bindings: Vec<SinkBinding>,
}

/// The model of a [`Config`].
pub struct ConfigModel {
    pub bindings: Seq<SinkBindingModel>,
}

impl View for Config {
    type V = ConfigModel;

    closed spec fn view(&self) -> ConfigModel {
        ConfigModel { bindings: bindings_view(self.bindings@) }
    }
}

impl ConfigModel {
    /// The positions below `n` of the bindings that accept the record, in
    /// rising order.
    pub open spec fn accepting_below(self, record: RecordModel, n: int) -> Seq<usize>
        decreases n,
    {
        if n <= 0 {
            Seq::empty()
        } else if self.bindings[n - 1].accepts(record) {
            self.accepting_below(record, n - 1).push((n - 1) as usize)
        } else {
            self.accepting_below(record, n - 1)
        }
    }

    /// The positions of the bindings that accept the record, in rising
    /// order.
    pub open spec fn route(self, record: RecordModel) -> Seq<usize> {
        self.accepting_below(record, self.bindings.len() as int)
    }
}

/// The positions listed for a record up to a bound are those of the
/// bindings below the bound that accept it, in rising order.
pub proof fn lemma_accepting_below(cfg: ConfigModel, record: RecordModel, n: int)
    requires
        0 <= n <= cfg.bindings.len() <= usize::MAX,
    ensures
        forall|p: usize| #[trigger]
            cfg.accepting_below(record, n).contains(p) <==> p < n && cfg.bindings[p as int].accepts(
                record,
            ),
        forall|k: int, l: int|
            0 <= k < l < cfg.accepting_below(record, n).len() ==> cfg.accepting_below(record, n)[k]
                < cfg.accepting_below(record, n)[l],
    decreases n,
{
    let out = cfg.accepting_below(record, n);
    if n > 0 {
        lemma_accepting_below(cfg, record, n - 1);
        let before = cfg.accepting_below(record, n - 1);
        let last = (n - 1) as usize;
        if cfg.bindings[n - 1].accepts(record) {
            assert forall|p: usize| #[trigger]
                out.contains(p) <==> p < n && cfg.bindings[p as int].accepts(record) by {
                if out.contains(p) {
                    let k = choose|k: int| 0 <= k < out.len() && out[k] == p;
                    if k < before.len() {
                        assert(before.contains(p));
                    }
                }
                if p < n && cfg.bindings[p as int].accepts(record) {
                    if p == last {
                        assert(out[out.len() - 1] == p);
                    } else {
                        assert(before.contains(p));
                        let k = choose|k: int| 0 <= k < before.len() && before[k] == p;
                        assert(out[k] == p);
                    }
                }
            }
            assert forall|k: int, l: int| 0 <= k < l < out.len() implies out[k] < out[l] by {
                if l == out.len() - 1 {
                    assert(before.contains(out[k]));
                }
            }
        }
    }
}

/// Routing is a fan-out: a binding receives a record exactly if it accepts
/// the record itself, whatever the other bindings make of it; and no
/// binding receives a record twice.
pub proof fn law_route_is_fan_out(cfg: ConfigModel, record: RecordModel, p: usize)
    requires
        cfg.bindings.len() <= usize::MAX,
    ensures
        cfg.route(record).contains(p) <==> p < cfg.bindings.len() && cfg.bindings[p as int].accepts(
            record,
        ),
        cfg.route(record).no_duplicates(),
{
    lemma_accepting_below(cfg, record, cfg.bindings.len() as int);
}

/// A binding restricted to a span name accepts nothing but the opening and
/// closing of spans of that name, whatever its filter set makes of other
/// records; and of those it accepts the ones its filter set lets through.
pub proof fn law_span_name_routing(
    binding: SinkBindingModel,
    name: Seq<char>,
    record: RecordModel,
)
    requires
        binding.predicate == PredicateModel::SpanNamed(name),
    ensures
        !is_span_named(record, name) ==> !binding.accepts(record),
        is_span_named(record, name) ==> (binding.accepts(record) <==> binding.filter.admits_record(
            record,
        )),
{
}

/// A binding restricted to a span name whose filter set lets everything
/// through accepts exactly the opening and closing of spans of that name.
pub proof fn law_span_name_routing_unfiltered(
    binding: SinkBindingModel,
    name: Seq<char>,
    record: RecordModel,
)
    requires
        binding.predicate == PredicateModel::SpanNamed(name),
        binding.filter == FilterSetModel::allow_all(),
    ensures
        binding.accepts(record) <==> is_span_named(record, name),
{
    law_allow_all_admits_everything(record);
}

impl Config {
    /// A configuration of the given bindings, in the order given.
    pub fn new(bindings: Vec<SinkBinding>) -> (cfg: Config)
        ensures
            cfg@ == (ConfigModel { bindings: bindings_view(bindings@) }),
    {
        Config { bindings }
    }

    /// The bindings, in the order of their registration.
    pub fn bindings(&self) -> (bs: &Vec<SinkBinding>)
        ensures
            bindings_view(bs@) == self@.bindings,
    {
        &self.bindings
    }

    /// Offers the record to every binding and lists the positions of those
    /// that accept it, in rising order.
    pub fn route(&self, record: &Record) -> (out: Vec<usize>)
        ensures
            out@ == self@.route(record@),
    {
        let ghost model = self@;
        let mut out: Vec<usize> = Vec::new();
        let mut i: usize = 0;
        while i < self.bindings.len()
            invariant
                i <= self.bindings.len(),
                model == self@,
                model.bindings.len() == self.bindings.len(),
                out@ == model.accepting_below(record@, i as int),
            decreases self.bindings.len() - i,
        {
            if self.bindings[i].accepts(record) {
                out.push(i);
            }
            i += 1;
        }
        out
    }
}

} // verus!
