//! Checks the links of a tree of generated HTML documentation: whether each
//! linked file or URL exists and, where asked, whether the linked fragment
//! is an id of the target document.
pub mod address;
pub mod cache;
pub mod check;
pub mod context;
pub mod errors;
pub mod fragment;
pub mod html;
pub mod intra_doc;
pub mod report;
pub mod text;
pub mod walk;

pub use context::{CheckContext, HttpCheck, IgnoredFile};
pub use errors::{CheckError, FileError, IoError, Link};
