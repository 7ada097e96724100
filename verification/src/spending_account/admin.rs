//! Role assignment. The admin only assigns the roles; it cannot touch the
//! funds, the whitelist or the limits.

use vstd::prelude::*;

use super::{Contract, ContractView, SpendingError};

use super::calls::{after_call, SpendingCall};

verus! {

/// Why a role change by `caller` is rejected, if it is.
pub open spec fn admin_error(v: ContractView, caller: Seq<char>) -> Option<SpendingError> {
    if caller != v.admin_id {
        Some(SpendingError::NotAdmin)
    } else {
        None
    }
}

impl Contract {
    /// Changes the account allowed to transfer funds.
    pub fn set_spender(&mut self, caller: &String, spender_id: String) -> (res: Result<(), SpendingError>)
        ensures
            final(self)@ == after_call(
                old(self)@,
                (SpendingCall::SetSpender { caller: caller@, spender_id: spender_id@ }),
            ),
            match admin_error(old(self)@, caller@) {
                Some(e) => res == Err::<(), SpendingError>(e) && final(self)@ == old(self)@,
                None => res is Ok && final(self)@ == ContractView { spender_id: spender_id@, ..old(self)@ },
            },
    {
        self.assert_admin(caller)?;
        self.spender_id = spender_id;
        Ok(())
    }

    /// Changes the account allowed to manage the whitelist and limits.
    pub fn set_manager(&mut self, caller: &String, manager_id: String) -> (res: Result<(), SpendingError>)
        ensures
            final(self)@ == after_call(
                old(self)@,
                (SpendingCall::SetManager { caller: caller@, manager_id: manager_id@ }),
            ),
            match admin_error(old(self)@, caller@) {
                Some(e) => res == Err::<(), SpendingError>(e) && final(self)@ == old(self)@,
                None => res is Ok && final(self)@ == ContractView { manager_id: manager_id@, ..old(self)@ },
            },
    {
        self.assert_admin(caller)?;
        self.manager_id = manager_id;
        Ok(())
    }

    /// Transfers the admin role to another account.
    pub fn set_admin(&mut self, caller: &String, admin_id: String) -> (res: Result<(), SpendingError>)
        ensures
            final(self)@ == after_call(old(self)@, (SpendingCall::SetAdmin { caller: caller@, admin_id: admin_id@ })),
            match admin_error(old(self)@, caller@) {
                Some(e) => res == Err::<(), SpendingError>(e) && final(self)@ == old(self)@,
                None => res is Ok && final(self)@ == ContractView { admin_id: admin_id@, ..old(self)@ },
            },
    {
        self.assert_admin(caller)?;
        self.admin_id = admin_id;
        Ok(())
    }

    /// Rejects the call unless `caller` is the admin.
    pub(crate) fn assert_admin(&self, caller: &String) -> (res: Result<(), SpendingError>)
        ensures
            match admin_error(self@, caller@) {
                Some(e) => res == Err::<(), SpendingError>(e),
                None => res is Ok,
            },
    {
        if *caller != self.admin_id {
            Err(SpendingError::NotAdmin)
        } else {
            Ok(())
        }
    }

    /// Rejects the call unless `caller` is the manager.
    pub(crate) fn assert_manager(&self, caller: &String) -> (res: Result<(), SpendingError>)
        ensures
            caller@ != self@.manager_id ==> res == Err::<(), SpendingError>(SpendingError::NotManager),
            caller@ == self@.manager_id ==> res is Ok,
    {
        if *caller != self.manager_id {
            Err(SpendingError::NotManager)
        } else {
            Ok(())
        }
    }
}

} // verus!
