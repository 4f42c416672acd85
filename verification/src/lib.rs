//! Exchange-rate feed logic of the Narodowy Bank Polski helper service.
pub mod text;
pub mod float_syntax;
pub mod nbp_parser;
pub mod decimal;
pub mod launch;
pub mod rate_cache;
pub mod service;
