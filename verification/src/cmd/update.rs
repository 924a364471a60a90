//! `folio update`: self-update to the latest release.
use vstd::prelude::*;

verus! {

/// Arguments of `folio update`.
#[derive(Clone, Debug)]
pub struct UpdateArgs {
    /// Only check whether an update is available; do not install it.
    pub check: bool,
}

} // verus!
