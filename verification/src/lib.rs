//! Client-side path, query and error logic for a Jenkins-style REST API.
//!
//! The crate models resource locations (`Path`), renders them to URL path
//! strings, parses self-URLs back into resource locations, builds the
//! `tree` field-selection query language, and classifies error bodies that
//! embed a Java exception signature.

pub mod builder;
pub mod classify;
pub mod decode;
pub mod error;
pub mod path;
pub mod percent;
pub mod query;
pub mod text;
pub mod tree;

pub use builder::JenkinsBuilder;
pub use error::{Error, ExpectedType};
pub use path::{BuildNumber, Name, Path};
pub use query::{AdvancedQuery, InternalAdvancedQueryParams};
pub use tree::{TreeBuilder, TreeQueryParam};
