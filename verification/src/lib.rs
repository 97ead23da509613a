//! A declarative layer for HTTP APIs.
//!
//! Handlers and data types are declared once. From the declarations the
//! library derives the schema of every type, the checks that a request body
//! must pass, the document that describes the API, and the order of the steps
//! that lead one call from its arrival to its response.
//!
//! - `descriptor` holds the shape of a declared type, `synthesis` turns it into
//!   schemas, and `patch` lays the declared constraints over them.
//! - `validation` evaluates the constraints against a decoded value.
//! - `route` and `registry` hold what is declared of the handlers, and
//!   `builder` puts an application together from all of it.
//! - `pipeline` decides, step by step, what becomes of a call; `codec` reads
//!   and writes the values that travel with it.
//! - `assembler` and `openapi` build the served document and render it.
//! - `source` converts schemas that a schema generator made.
//! - `json`, `names`, `datum`, `numeral`, `error` and `text` are what the
//!   others rest on.

pub mod assembler;
pub mod builder;
pub mod codec;
pub mod datum;
pub mod descriptor;
pub mod error;
pub mod json;
pub mod names;
pub mod numeral;
pub mod openapi;
pub mod patch;
pub mod pipeline;
pub mod registry;
pub mod route;
pub mod source;
pub mod synthesis;
pub mod text;
pub mod validation;
