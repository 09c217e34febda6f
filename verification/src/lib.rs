//! A read-only mock of a small slice of the S3 object-storage HTTP API:
//! a directory tree is indexed once at startup, and requests are answered
//! from that snapshot.
#![verifier::loop_isolation(false)]

use vstd::prelude::*;

pub mod bytes;
pub mod error;
pub mod fingerprint;
pub mod numeral;
pub mod parse;
pub mod path;
pub mod response;
pub mod root;
pub mod shared_state;
pub mod tree;
pub mod util;
pub mod xml;
pub mod xmlesc;

pub use tree::DirEntry;

verus! {

} // verus!
