//! The two configurations of the tour: what is compiled and bound at
//! start-up. Opening the destinations is left to the caller.

use crate::filter::{FilterSet, FilterSetModel};
use crate::directive::optional_text;
use crate::grammar::{compile_or_fallback, resolve, FilterSource, ParseError, DEFAULT_RUST_LOG};
use crate::routing::{
    Config, ConfigModel, Destination, DestinationModel, Predicate, PredicateModel, SinkBinding,
    SinkBindingModel,
};
use vstd::prelude::*;

verus! {

/// The span whose opening and closing the second configuration keeps in a
/// file of their own.
pub const MY_SPAN: &'static str = "my_span";

/// The file that the second configuration keeps them in.
pub const MY_SPAN_LOG: &'static str = "my_span.log";

/// A configuration, with where its filter set comes from and the errors
/// that were met while compiling it. The errors are warnings for the caller
/// to report: the configuration is fit for use whatever they are.
#[derive(Debug)]
pub struct Setup {
    pub config: Config,
    pub source: FilterSource,
    pub filter_spec_parse_error: Option<ParseError>,
    pub fallback_parse_error: Option<ParseError>,
}

/// The binding of the standard output: every record that the filter set
/// lets through.
pub open spec fn stdout_binding(filter: FilterSetModel) -> SinkBindingModel {
    SinkBindingModel {
        predicate: PredicateModel::Everything,
        filter,
        destination: DestinationModel::Stdout,
    }
}

/// The binding of the file for [`MY_SPAN`]: the opening and closing of
/// spans of that name, and nothing else.
pub open spec fn my_span_binding() -> SinkBindingModel {
    SinkBindingModel {
        predicate: PredicateModel::SpanNamed(MY_SPAN@),
        filter: FilterSetModel::allow_all(),
        destination: DestinationModel::File(MY_SPAN_LOG@),
    }
}

/// The first configuration: the standard output alone, filtered by
/// `rust_log`, the value of the environment's filter variable, or by
/// [`DEFAULT_RUST_LOG`] where that is absent or does not compile.
pub fn setup_tracing(rust_log: Option<&str>) -> (out: Setup)
    ensures
        out.config@.bindings == seq![
            stdout_binding(
                resolve(optional_text(rust_log), DEFAULT_RUST_LOG@).filter,
            ),
        ],
        out.source == resolve(optional_text(rust_log), DEFAULT_RUST_LOG@).source,
        out.filter_spec_parse_error == resolve(optional_text(rust_log), DEFAULT_RUST_LOG@).filter_spec_parse_error,
        out.fallback_parse_error == resolve(optional_text(rust_log), DEFAULT_RUST_LOG@).fallback_parse_error,
{
    let compiled = compile_or_fallback(rust_log, DEFAULT_RUST_LOG);
    let mut bindings: Vec<SinkBinding> = Vec::new();
    bindings.push(
        SinkBinding {
            predicate: Predicate::Everything,
            filter: compiled.filter,
            destination: Destination::Stdout,
        },
    );
    let config = Config::new(bindings);
    Setup {
        config,
        source: compiled.source,
        filter_spec_parse_error: compiled.filter_spec_parse_error,
        fallback_parse_error: compiled.fallback_parse_error,
    }
}

/// The second configuration: a file that receives the opening and closing
/// of the spans called [`MY_SPAN`] and nothing else, and the standard
/// output as in the first configuration. Each binding decides for itself.
pub fn setup_tracing_alt(rust_log: Option<&str>) -> (out: Setup)
    ensures
        out.config@.bindings == seq![
            my_span_binding(),
            stdout_binding(
                resolve(optional_text(rust_log), DEFAULT_RUST_LOG@).filter,
            ),
        ],
        out.source == resolve(optional_text(rust_log), DEFAULT_RUST_LOG@).source,
        out.filter_spec_parse_error == resolve(optional_text(rust_log), DEFAULT_RUST_LOG@).filter_spec_parse_error,
        out.fallback_parse_error == resolve(optional_text(rust_log), DEFAULT_RUST_LOG@).fallback_parse_error,
{
    let compiled = compile_or_fallback(rust_log, DEFAULT_RUST_LOG);
    let mut bindings: Vec<SinkBinding> = Vec::new();
    bindings.push(
        SinkBinding {
            predicate: Predicate::SpanNamed(MY_SPAN.to_owned()),
            filter: FilterSet::allow_all(),
            destination: Destination::File(MY_SPAN_LOG.to_owned()),
        },
    );
    bindings.push(
        SinkBinding {
            predicate: Predicate::Everything,
            filter: compiled.filter,
            destination: Destination::Stdout,
        },
    );
    let config = Config::new(bindings);
    Setup {
        config,
        source: compiled.source,
        filter_spec_parse_error: compiled.filter_spec_parse_error,
        fallback_parse_error: compiled.fallback_parse_error,
    }
}

} // verus!
