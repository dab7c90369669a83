//! A structural model of a source tree: scanned files, the relationships
//! between them and the external dependencies they declare, with derived
//! metrics, together with the decision logic of the protocol spoken with
//! out-of-process analyzer and generator plugins.
pub mod args;
pub mod communication;
pub mod config;
pub mod graph;
pub mod interface;
pub mod manager;
pub mod matrix;
pub mod paths;
pub mod ranking;
pub mod scanner;
pub mod tokens;
