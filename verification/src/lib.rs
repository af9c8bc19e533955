//! A verified model of a hybrid chunk store: text passages ("chunks") are kept
//! in named tables with a fixed-width embedding column and a full-text index,
//! and are retrieved by a fused vector-plus-keyword ranking.
//!
//! The storage engine itself (an embedded columnar database) and the UI layer
//! are external collaborators reached only through asynchronous I/O; they stay
//! outside this library. What the engine decides for us — the clock reading
//! used for row identifiers, whether an index build succeeded, the fused
//! ranking of a query — enters the verified functions as explicit arguments,
//! and every contract states what holds for each possible value of them.

pub mod chunk;
pub mod columns;
pub mod errors;
pub mod ids;
pub mod laws;
pub mod schema;
pub mod store;
