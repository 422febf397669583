//! Bridge layer for a native mixed-integer optimization solver.
//!
//! Build-time half: discover vendor SDK installations, select one
//! deterministically, and generate a minimal symbol module restricted to a
//! whitelist, together with the include and link directives for it.
//! Runtime half: wrap the solver's opaque environment handle in a safe
//! creation operation that turns a numeric status code into a typed result.

pub mod environment;
pub mod generate;
pub mod link;
pub mod sdk;
pub mod text;
pub mod whitelist;
