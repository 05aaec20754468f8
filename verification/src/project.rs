//! The project registry record: one record per tenant project, with its
//! authorized operators and a dedicated treasury sub-account.

use crate::addr::addr_list_contains;
use vstd::prelude::*;

verus! {

/// One project record. Identity is the pair `(owner, project_id)`; `addr`
/// is the derived record address assigned by the ledger. The treasury is a
/// dependent sub-account with no key of its own, so its balance is kept
/// here and can only be debited by the project's own authorized logic.
pub struct ProjectConfig {
    pub addr: u64,
    pub project_id: u64,
    pub owner: u64,
    pub name: String,
    pub description: String,
    pub authorities: Vec<u64>,
    /// Lamports held by the project treasury sub-account.
    pub treasury: u64,
}

impl ProjectConfig {
    /// Whether `key` may perform privileged actions scoped to the project:
    /// the owner, or any authorized operator.
    pub open spec fn spec_is_authorized(self, key: u64) -> bool {
        key == self.owner || self.authorities@.contains(key)
    }

    pub fn check_authorities(&self, key: u64) -> (r: bool)
        ensures
            r == self.spec_is_authorized(key),
    {
        key == self.owner || addr_list_contains(&self.authorities, key)
    }
}

} // verus!
