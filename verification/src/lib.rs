//! A small toolkit for HTTP services, verified with Verus.
//!
//! - [`filter`] holds the heart of it: routes are trees of extractors,
//!   joined by `and` and `or` and bound to handlers by `map`; evaluating a
//!   tree against a [`request`] gives the extracted [`value`]s or a
//!   [`rejection`].
//! - [`rejection`] says how the rejections of two alternatives combine, and
//!   which error [`reply`] each one becomes.
//! - [`dispatch`] joins the two: it evaluates, calls the handler, recovers.
//! - [`store`] is the ordered collection of entries behind the to-do
//!   [`api`], with its [`filters`], [`handlers`] and [`models`]; [`graph`]
//!   is a second, read-only client of the store.
//! - [`math`] and [`delay`] are two small services; [`relay`] decides what
//!   an echoing connection does.
//! - [`extractor`] and [`fields`] say what the leaves of a route read, and
//!   [`codec`] names what the decoders of query strings and JSON bodies
//!   hand to them. [`text`] reads and writes numbers.
//!
//! The library neither listens nor reads or writes a socket: it takes a
//! request as a value and gives a reply as a value.

pub mod api;
pub mod codec;
pub mod delay;
pub mod dispatch;
pub mod extractor;
pub mod fields;
pub mod filter;
pub mod filters;
pub mod graph;
pub mod handlers;
pub mod math;
pub mod models;
pub mod rejection;
pub mod relay;
pub mod reply;
pub mod request;
pub mod store;
pub mod text;
pub mod value;
