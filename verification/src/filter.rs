//! Filter sets, and the judgement of events and spans against them.

use crate::directive::{
    directives_view, lemma_longer_prefix_takes_more_bytes, Directive, DirectiveModel,
};
use crate::level::{Severity, Threshold};
use crate::record::{Event, EventModel, Record, RecordModel, Span, SpanModel};
use vstd::prelude::*;
use vstd::utf8::encode_utf8;

verus! {

/// An ordered list of directives and the threshold for targets that none of
/// them applies to. A filter set is not changed once it is made: a new
/// configuration is a new value.
#[derive(Clone, Debug, PartialEq, Eq)]
pub struct FilterSet {
    directives: Vec<Directive>,
    default: Threshold,
}

/// The model of a [`FilterSet`].
pub struct FilterSetModel {
    pub directives: Seq<DirectiveModel>,
    pub default: Threshold,
}

impl View for FilterSet {
    type V = FilterSetModel;

    closed spec fn view(&self) -> FilterSetModel {
        FilterSetModel { directives: directives_view(self.directives@), default: self.default }
    }
}

impl FilterSetModel {
    /// The filter set that lets nothing through.
    pub open spec fn empty() -> FilterSetModel {
        FilterSetModel { directives: Seq::empty(), default: Threshold::Off }
    }

    /// The filter set that lets everything through.
    pub open spec fn allow_all() -> FilterSetModel {
        FilterSetModel { directives: Seq::empty(), default: Threshold::AtLeast(Severity::Trace) }
    }

    /// Directive `j` does not take precedence over directive `i`: its prefix
    /// is shorter, or as long and `j` is not declared after `i`.
    pub open spec fn yields_to(self, j: int, i: int) -> bool {
        let len_i = self.directives[i].prefix_len();
        let len_j = self.directives[j].prefix_len();
        len_j < len_i || (len_j == len_i && j <= i)
    }

    /// Directive `i` is the one that decides for `target`: it applies, and
    /// every directive that applies yields to it. That is the one with the
    /// longest prefix and, among those of that length, the last declared.
    pub open spec fn selects(self, target: Seq<char>, i: int) -> bool {
        &&& 0 <= i < self.directives.len()
        &&& self.directives[i].matches(target)
        &&& forall|j: int|
            0 <= j < self.directives.len() && #[trigger] self.directives[j].matches(target)
                ==> self.yields_to(j, i)
    }

    /// The threshold in force for `target`: that of the deciding directive,
    /// or the default if no directive applies.
    pub open spec fn threshold_for(self, target: Seq<char>) -> Threshold {
        if exists|i: int| self.selects(target, i) {
            self.directives[choose|i: int| self.selects(target, i)].level
        } else {
            self.default
        }
    }

    /// An event of severity `level` filed under `target` is let through.
    pub open spec fn allows(self, level: Severity, target: Seq<char>) -> bool {
        self.threshold_for(target).allows(level)
    }

    /// The event is let through.
    pub open spec fn admits(self, event: EventModel) -> bool {
        self.allows(event.level, event.target)
    }

    /// The opening and closing of the span are recorded: a span is judged
    /// as an `Info` event under the span's target.
    pub open spec fn admits_span(self, span: SpanModel) -> bool {
        self.allows(Severity::Info, span.target)
    }

    /// The record is let through: an event as an event, the opening or
    /// closing of a span as the span.
    pub open spec fn admits_record(self, record: RecordModel) -> bool {
        match record {
            RecordModel::Event(e) => self.admits(e),
            RecordModel::SpanOpen(s) => self.admits_span(s),
            RecordModel::SpanClose(s) => self.admits_span(s),
        }
    }
}

/// At most one directive decides for a target.
pub proof fn lemma_selected_is_unique(fs: FilterSetModel, target: Seq<char>, i: int, j: int)
    requires
        fs.selects(target, i),
        fs.selects(target, j),
    ensures
        i == j,
{
}

/// The directive that decides for a target gives the threshold.
pub proof fn lemma_selected_gives_threshold(fs: FilterSetModel, target: Seq<char>, i: int)
    requires
        fs.selects(target, i),
    ensures
        fs.threshold_for(target) == fs.directives[i].level,
{
    let chosen = choose|k: int| fs.selects(target, k);
    lemma_selected_is_unique(fs, target, i, chosen);
}

/// Longest prefix wins: a directive that applies to a target and whose
/// prefix is longer than that of every other directive that applies gives
/// the threshold for the target.
pub proof fn law_longest_prefix_wins(fs: FilterSetModel, target: Seq<char>, i: int)
    requires
        0 <= i < fs.directives.len(),
        fs.directives[i].matches(target),
        forall|j: int|
            0 <= j < fs.directives.len() && j != i && #[trigger] fs.directives[j].matches(target)
                ==> fs.directives[j].prefix_len() < fs.directives[i].prefix_len(),
    ensures
        fs.threshold_for(target) == fs.directives[i].level,
{
    lemma_selected_gives_threshold(fs, target, i);
}

/// Among the directives with the longest prefix that apply to a target, the
/// one declared last gives the threshold.
pub proof fn law_last_declared_wins_ties(fs: FilterSetModel, target: Seq<char>, i: int)
    requires
        0 <= i < fs.directives.len(),
        fs.directives[i].matches(target),
        forall|j: int|
            0 <= j < fs.directives.len() && #[trigger] fs.directives[j].matches(target)
                ==> fs.directives[j].prefix_len() <= fs.directives[i].prefix_len(),
        forall|j: int|
            i < j < fs.directives.len() && #[trigger] fs.directives[j].matches(target)
                ==> fs.directives[j].prefix_len() < fs.directives[i].prefix_len(),
    ensures
        fs.threshold_for(target) == fs.directives[i].level,
{
    lemma_selected_gives_threshold(fs, target, i);
}

/// Where no directive applies to a target, the default threshold is in
/// force.
pub proof fn law_default_when_nothing_applies(fs: FilterSetModel, target: Seq<char>)
    requires
        forall|j: int| 0 <= j < fs.directives.len() ==> !(#[trigger] fs.directives[j].matches(target)),
    ensures
        fs.threshold_for(target) == fs.default,
{
}

/// The judgement of an event is a function of the filter set, the event's
/// level and its target, and of nothing else: two events that agree in
/// level and target fare alike under equal filter sets, whatever their
/// messages, fields and spans.
pub proof fn law_evaluate_is_deterministic(
    fs1: FilterSetModel,
    fs2: FilterSetModel,
    e1: EventModel,
    e2: EventModel,
)
    requires
        fs1 == fs2,
        e1.level == e2.level,
        e1.target == e2.target,
    ensures
        fs1.admits(e1) == fs2.admits(e2),
{
}

impl FilterSet {
    /// A filter set of the given directives, in the order given, and the
    /// given default.
    pub fn new(directives: Vec<Directive>, default: Threshold) -> (fs: FilterSet)
        ensures
            fs@ == (FilterSetModel { directives: directives_view(directives@), default }),
    {
        FilterSet { directives, default }
    }

    /// The filter set that lets nothing through.
    pub fn empty() -> (fs: FilterSet)
        ensures
            fs@ == FilterSetModel::empty(),
    {
        let fs = FilterSet { directives: Vec::new(), default: Threshold::Off };
        assert(directives_view(fs.directives@) =~= Seq::empty());
        fs
    }

    /// The filter set that lets everything through.
    pub fn allow_all() -> (fs: FilterSet)
        ensures
            fs@ == FilterSetModel::allow_all(),
    {
        let fs = FilterSet {
            directives: Vec::new(),
            default: Threshold::AtLeast(Severity::Trace),
        };
        assert(directives_view(fs.directives@) =~= Seq::empty());
        fs
    }

    /// The directives, in the order of their declaration.
    pub fn directives(&self) -> (ds: &Vec<Directive>)
        ensures
            directives_view(ds@) == self@.directives,
    {
        &self.directives
    }

    /// The threshold for targets that no directive applies to.
    pub fn default_threshold(&self) -> (t: Threshold)
        ensures
            t == self@.default,
    {
        self.default
    }

    /// The threshold in force for `target`, found in one pass over the
    /// directives.
    pub fn threshold_for(&self, target: &str) -> (t: Threshold)
        ensures
            t == self@.threshold_for(target@),
    {
        let ghost model = self@;
        let mut best: Option<usize> = None;
        let mut best_bytes: usize = 0;
        let mut k: usize = 0;
        while k < self.directives.len()
            invariant
                k <= self.directives.len(),
                model == self@,
                model.directives.len() == self.directives.len(),
                best is None ==> forall|j: int|
                    0 <= j < k ==> !(#[trigger] model.directives[j].matches(target@)),
                best matches Some(b) ==> {
                    &&& b < k
                    &&& best_bytes == encode_utf8(model.directives[b as int].prefix_text()).len()
                    &&& model.directives[b as int].matches(target@)
                    &&& forall|j: int|
                        0 <= j < k && #[trigger] model.directives[j].matches(target@)
                            ==> model.yields_to(j, b as int)
                },
            decreases self.directives.len() - k,
        {
            let d = &self.directives[k];
            if d.matches(target) {
                let bytes: usize = d.prefix_bytes();
                proof {
                    if let Some(b) = best {
                        lemma_longer_prefix_takes_more_bytes(
                            model.directives[b as int],
                            model.directives[k as int],
                            target@,
                        );
                    }
                }
                if best.is_none() || bytes >= best_bytes {
                    best = Some(k);
                    best_bytes = bytes;
                }
            }
            k += 1;
        }
        match best {
            Some(b) => {
                proof {
                    lemma_selected_gives_threshold(model, target@, b as int);
                }
                self.directives[b].level
            },
            None => self.default,
        }
    }
}

/// Decides whether an event is let through: the directive with the longest
/// prefix that applies to the event's target decides, the last declared
/// among equals, and the default where none applies; the event passes if it
/// is at least as severe as the threshold so found.
pub fn evaluate(fs: &FilterSet, event: &Event) -> (r: bool)
    ensures
        r == fs@.admits(event@),
{
    fs.threshold_for(event.target.as_str()).permits(event.level)
}

/// Decides whether the opening and closing of a span are recorded: the span
/// is judged as an `Info` event under its target.
pub fn evaluate_span(fs: &FilterSet, span: &Span) -> (r: bool)
    ensures
        r == fs@.admits_span(span@),
{
    fs.threshold_for(span.target.as_str()).permits(Severity::Info)
}

/// Decides whether a record is let through, as [`evaluate`] does for an
/// event and [`evaluate_span`] for the opening or closing of a span.
pub fn evaluate_record(fs: &FilterSet, record: &Record) -> (r: bool)
    ensures
        r == fs@.admits_record(record@),
{
    match record {
        Record::Event(e) => evaluate(fs, e),
        Record::SpanOpen(s) => evaluate_span(fs, s),
        Record::SpanClose(s) => evaluate_span(fs, s),
    }
}

/// The filter set that lets everything through does so, whatever the
/// record.
pub proof fn law_allow_all_admits_everything(record: RecordModel)
    ensures
        FilterSetModel::allow_all().admits_record(record),
{
    let fs = FilterSetModel::allow_all();
    assert forall|target: Seq<char>, level: Severity| fs.allows(level, target) by {
        law_default_when_nothing_applies(fs, target);
    }
}

/// The empty filter set suppresses everything.
pub proof fn law_empty_admits_nothing(record: RecordModel)
    ensures
        !FilterSetModel::empty().admits_record(record),
{
    let fs = FilterSetModel::empty();
    assert forall|target: Seq<char>, level: Severity| !fs.allows(level, target) by {
        law_default_when_nothing_applies(fs, target);
    }
}

} // verus!
