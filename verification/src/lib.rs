//! Contract validation for a reverse proxy: an OpenAPI description is resolved
//! into a self-contained document, request paths are routed to the operation
//! that declares them, and every path and query value is checked against the
//! type its parameter declares.

pub mod text;
pub mod reference;
pub mod schema;
pub mod deref_error;
pub mod table;
pub mod document;
pub mod resolution;
pub mod dereferer;
pub mod resolution_laws;
pub mod outside;
pub mod number;
pub mod request;
pub mod error;
pub mod types;
pub mod check_type;
pub mod server;
pub mod pattern;
pub mod matcher;
pub mod path_finder;
pub mod route_laws;
pub mod spec_utils;
pub mod parts;
pub mod validator;
pub mod usage_report;
pub mod middleware;
pub mod operation;
