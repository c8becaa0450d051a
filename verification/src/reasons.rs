//! The reasons that the assembly engine records with the adjustments it makes.

use vstd::prelude::*;
use vstd::string::*;
use crate::assembly::Error;
use crate::bounded::reason_fits;
use crate::types::{Reason, MAX_REASON_LEN};

verus! {

/// The reason recorded when an item is moved into staging.
pub open spec fn staging_reason() -> Seq<u8> {
    "Prepare Staging Area".spec_bytes()
}

/// The reason recorded when a staged item's quantity is reduced by an assembly.
pub open spec fn consumption_reason() -> Seq<u8> {
    "Assemble Product".spec_bytes()
}

/// The reason recorded when a staged item goes back to the warehouse after an assembly.
pub open spec fn return_reason() -> Seq<u8> {
    "Assembled Product complete, move to warehouse".spec_bytes()
}

/// Each of the engine's reasons fits in an audit record.
pub proof fn lemma_reasons_fit()
    ensures
        staging_reason().len() == 20,
        consumption_reason().len() == 16,
        return_reason().len() == 45,
{
    reveal_strlit("Prepare Staging Area");
    reveal_strlit("Assemble Product");
    reveal_strlit("Assembled Product complete, move to warehouse");
    assert(is_ascii("Prepare Staging Area"));
    assert(is_ascii("Assemble Product"));
    assert(is_ascii("Assembled Product complete, move to warehouse"));
    is_ascii_spec_bytes("Prepare Staging Area");
    is_ascii_spec_bytes("Assemble Product");
    is_ascii_spec_bytes("Assembled Product complete, move to warehouse");
}

/// The bytes of `text` as the reason of an audit record. A text of more than 128 bytes is
/// refused.
pub fn audit_reason(text: &str) -> (res: Result<Reason, Error>)
    ensures
        res is Ok == (text.spec_bytes().len() <= MAX_REASON_LEN),
        res matches Ok(reason) ==> reason@ == text.spec_bytes(),
        res matches Err(e) ==> e == Error::DescriptionTooLong,
{
    let bytes = text.as_bytes_vec();
    if reason_fits(&bytes) {
        Ok(bytes)
    } else {
        Err(Error::DescriptionTooLong)
    }
}

} // verus!
