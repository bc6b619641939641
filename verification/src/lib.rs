//! A version-control backend core: backend-agnostic data models, a backend
//! registry, verified parsing of `git` porcelain output, and an embedded
//! provider built on libgit2.

pub mod backend_id;
pub mod commands;
pub mod dates;
pub mod embedded;
pub mod embedded_raw;
pub mod errors;
pub mod logfilter;
pub mod models;
pub mod porcelain;
pub mod registry;
pub mod session;
pub mod settings;
pub mod system;
pub mod text;
pub mod validate;
