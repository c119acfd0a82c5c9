//! Logging under a target of the application's own choice.

use crate::level::Severity;
use crate::record::{Event, EventModel};
use vstd::prelude::*;

verus! {

/// The target that [`info`] files its events under, whatever module the
/// call is made from.
pub const DEFAULT_TGT: &'static str = "my_app";

/// The event with its target replaced by [`DEFAULT_TGT`]. The target serves
/// the filter only: level, message, fields and span are left as they are.
pub fn under_default_target(event: Event) -> (e: Event)
    ensures
        e@ == (EventModel { target: DEFAULT_TGT@, ..event@ }),
{
    event.with_target(DEFAULT_TGT)
}

/// An `Info` event with the given message, filed under [`DEFAULT_TGT`].
pub fn info(message: &str) -> (e: Event)
    ensures
        e@ == (EventModel {
            level: Severity::Info,
            target: DEFAULT_TGT@,
            message: message@,
            fields: Seq::empty(),
            span: None,
        }),
{
    Event::new(Severity::Info, DEFAULT_TGT, message)
}

} // verus!
