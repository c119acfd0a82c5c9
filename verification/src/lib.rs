//! A filter engine for leveled, targeted log events, with routing of the
//! accepted events to sinks, and a short tour of call sites that use it.
//!
//! Every decision the engine takes is a function of plain values: a filter
//! set is compiled once from a directive string and is read-only afterwards,
//! and an event is judged by its level and target alone. Reading the
//! environment, opening destinations and writing lines are left to the
//! program around the library.
//!
//! - [`level`]: severities, thresholds, and the tokens that name them
//! - [`directive`], [`filter`]: directives, filter sets, and the judgement
//!   of events and spans
//! - [`grammar`]: the directive string and its compiler, with a fallback
//! - [`record`], [`span_stack`]: events, spans, and the spans that are open
//! - [`routing`], [`setup`]: sink bindings, the fan-out, and the two
//!   configurations of the tour
//! - [`app_target`], [`tour`]: the call sites
//! - [`text`]: strings as characters and as bytes

pub mod app_target;
pub mod directive;
pub mod filter;
pub mod grammar;
pub mod level;
pub mod record;
pub mod routing;
pub mod setup;
pub mod span_stack;
pub mod text;
pub mod tour;
