//! The request transformation pipeline of an interactive API-testing tool:
//! turning a declarative request description — method, URL, query parameters,
//! headers, body, authentication scheme and `{{NAME}}` placeholders — into a
//! validated, normalized request ready for dispatch, and into an equivalent
//! shell command line. The two renderers share query, header and
//! authentication semantics, and every rule is stated in the contracts here.
pub mod auth;
pub mod curl;
pub mod encoding;
pub mod headers;
pub mod history;
pub mod http;
pub mod models;
pub mod resolver;
pub mod text;
pub mod urlbuild;
pub mod workspace;
