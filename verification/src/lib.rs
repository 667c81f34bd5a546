//! Gateway-trust authorization gate for an email-validation service.
//!
//! Guards decide, purely from inbound request headers, whether a caller is an
//! authenticated consumer and whether it carries a required operation scope.
//! A chain composer evaluates the guards of a route in order, short-circuits
//! on the first refusal with a 401 response, and only when every guard
//! authorizes lets the validation handler run.

pub mod guards;
pub mod headers;
pub mod misc;
pub mod oauth2;
pub mod schemas;
pub mod text;
pub mod validate;
