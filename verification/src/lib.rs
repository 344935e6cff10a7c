//! Version control and its remote host behind one host-neutral vocabulary.

pub mod branch;
pub mod branches;
pub mod change;
pub mod cli;
pub mod closing;
pub mod declaration;
pub mod error;
pub mod event;
pub mod gate;
pub mod gh;
pub mod git;
pub mod guidance;
pub mod home;
pub mod host;
pub mod ids;
pub mod import;
pub mod integrate;
pub mod label;
pub mod landed;
pub mod lock;
pub mod merge_path;
pub mod ops;
pub mod policy;
pub mod pool;
pub mod recoverable;
pub mod releases;
pub mod rules;
pub mod store;
pub mod text;
pub mod verbs;

pub use error::{Error, Result};
