use vstd::prelude::*;

use crate::account::AccountId;
use crate::contract::Contract;
use crate::types::Error;

verus! {

/// The deploy-and-migrate batch: two ordered steps the host schedules as
/// one atomic unit against the contract's own account. First the running
/// code is replaced by `code`; immediately after, still in the same
/// batch, the named migration entry point is invoked as a self-call on
/// the new image. If deployment fails, migration never runs; if
/// migration fails, the whole batch is reported failed.
pub struct UpgradeBatch {
    /// The code image to deploy over the contract's own account.
    pub code: Vec<u8>,
    /// The entry point the batch invokes on the new image.
    pub migrate_method: String,
}

/// Plans a code upgrade: reads the decision off the persisted state and
/// the authenticated caller, and hands back the batch to schedule. Only
/// the current owner may upgrade, and only an initialized contract can
/// be upgraded. Executing the batch is the host shim's work.
pub fn upgrade(state: &Option<Contract>, caller: &AccountId, code: Vec<u8>) -> (r: Result<
    UpgradeBatch,
    Error,
>)
    ensures
        r is Ok <==> (state matches Some(c) && caller@ == c@.owner_id),
        r matches Ok(b) ==> b.code@ == code@ && b.migrate_method@ == "migrate"@,
        r is Err ==> r == Err::<UpgradeBatch, Error>(
            if state is None {
                Error::NotFound
            } else {
                Error::Authorization
            },
        ),
{
    match state {
        None => Err(Error::NotFound),
        Some(c) => {
            let owner = c.owner();
            if owner == *caller {
                Ok(UpgradeBatch { code, migrate_method: "migrate".to_owned() })
            } else {
                Err(Error::Authorization)
            }
        },
    }
}

} // verus!
