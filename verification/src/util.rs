//! The fallback for every request shape without a handler of its own.

use vstd::prelude::*;

use crate::error::S3Error;
use crate::xml::{
    lit_fallback_message, lit_fallback_message_vec, lit_not_implemented, lit_not_implemented_vec,
};

verus! {

/// The structured "not implemented" error that unrecognized requests get.
pub fn fallback() -> (e: S3Error)
    ensures
        e.code@ == lit_not_implemented(),
        e.message@ == lit_fallback_message(),
        e.status == 501,
{
    S3Error { code: lit_not_implemented_vec(), message: lit_fallback_message_vec(), status: 501 }
}

} // verus!
