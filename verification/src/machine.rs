//! The identifier of the machine that the process runs on.

use vstd::prelude::*;

verus! {

/// The machine's identifier as text.
///
/// Calls `machine_id::MachineId::get` and formats what it gives. The
/// identifier is read from the machine, or made up once for the process where
/// the machine has none, so nothing is claimed of the text.
#[verifier::external_body]
pub(crate) fn machine_id_text() -> (r: String) {
    format!("{}", machine_id::MachineId::get())
}

} // verus!
