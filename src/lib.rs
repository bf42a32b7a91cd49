//! Extraction of visual-novel engine archive containers and decoding of the
//! resources they hold, with every step stated by a contract.
pub mod error;
pub mod bytes;
pub mod magic;
pub mod archive;
pub mod path;
pub mod pf8;
pub mod buriko;
pub mod scheme;
pub mod resource;
pub mod preview;
pub mod convert;
pub mod batch;
