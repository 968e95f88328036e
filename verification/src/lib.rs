//! A request-scoped batching loader: many single-key lookups issued while one
//! query is resolved are folded into one backend fetch per window, answers are
//! memoised for the rest of the request, and every caller gets its own result.

pub mod cache;
pub mod context;
pub mod loader;
pub mod model;
pub mod relation;
pub mod types;
pub mod window;
