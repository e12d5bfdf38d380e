//! Observability core: a per-context tree of timed spans with typed fields,
//! a data-free shape of that tree and its digest, and the schema rules that
//! pick a typed recorder for each recorded field.
use vstd::prelude::*;

pub mod text;
pub mod value;
pub mod sources;
pub mod span;
pub mod context;
pub mod shape;
pub mod observer;
pub mod observe_fields;
pub mod schema;
pub mod pretty;
pub mod observe;
pub mod logger;

pub use crate::context::Context;
pub use crate::logger::{check_path, Logger};
pub use crate::observe::Observe;
pub use crate::observer::{
    builder, create_context, end_context, end_span, field, log, observe_query, observe_result,
    observe_span_id, shape_hash, shape_trace, start_span, test_trace, trace, transient_field,
    Backend, Observer,
};
pub use crate::pretty::{elapsed, printed_context};
pub use crate::schema::{Call, Event, Plan, Schema, SchemaError};
pub use crate::span::{Duration, Span, SpanItem};
pub use crate::value::Value;

verus! {

} // verus!
