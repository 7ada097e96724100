//! Admin-only configuration. The admin is expected to be a timelock itself,
//! so every configuration change waits out a delay like any other request.

use vstd::prelude::*;

use super::calls::{after_call, TimelockCall};
use super::{
    guardian_set, insert_all, strings_view, Contract, ContractView, TimelockError, MAX_DELAY_NS,
};

verus! {

/// Why a configuration change by `caller` is rejected, if it is.
pub open spec fn admin_error(v: ContractView, caller: Seq<char>) -> Option<TimelockError> {
    if caller != v.admin_id {
        Some(TimelockError::NotAdmin)
    } else {
        None
    }
}

impl Contract {
    /// Changes the DAO account that controls this timelock.
    pub fn set_dao(&mut self, caller: &String, dao_id: String) -> (res: Result<(), TimelockError>)
        requires
            old(self)@.well_formed(),
        ensures
            final(self)@.well_formed(),
            final(self)@ == after_call(old(self)@, (TimelockCall::SetDao { caller: caller@, dao_id: dao_id@ })),
            match admin_error(old(self)@, caller@) {
                Some(e) => res == Err::<(), TimelockError>(e) && final(self)@ == old(self)@,
                None => res is Ok && final(self)@ == ContractView { dao_id: dao_id@, ..old(self)@ },
            },
    {
        self.assert_admin(caller)?;
        self.dao_id = dao_id;
        Ok(())
    }

    /// Transfers the admin role to another account.
    pub fn set_admin(&mut self, caller: &String, admin_id: String) -> (res: Result<(), TimelockError>)
        requires
            old(self)@.well_formed(),
        ensures
            final(self)@.well_formed(),
            final(self)@ == after_call(old(self)@, (TimelockCall::SetAdmin { caller: caller@, admin_id: admin_id@ })),
            match admin_error(old(self)@, caller@) {
                Some(e) => res == Err::<(), TimelockError>(e) && final(self)@ == old(self)@,
                None => res is Ok && final(self)@ == ContractView { admin_id: admin_id@, ..old(self)@ },
            },
    {
        self.assert_admin(caller)?;
        self.admin_id = admin_id;
        Ok(())
    }

    /// Replaces the guardians list (each account kept once).
    pub fn set_guardians(&mut self, caller: &String, guardians: Vec<String>) -> (res: Result<(), TimelockError>)
        requires
            old(self)@.well_formed(),
            guardians@.len() <= u32::MAX,
        ensures
            final(self)@.well_formed(),
            final(self)@ == after_call(
                old(self)@,
                (TimelockCall::SetGuardians { caller: caller@, guardians: strings_view(guardians@) }),
            ),
            match admin_error(old(self)@, caller@) {
                Some(e) => res == Err::<(), TimelockError>(e) && final(self)@ == old(self)@,
                None => res is Ok && final(self)@ == ContractView {
                    guardians: insert_all(Seq::empty(), strings_view(guardians@)),
                    ..old(self)@
                },
            },
    {
        self.assert_admin(caller)?;
        self.guardians = guardian_set(guardians);
        Ok(())
    }

    /// Changes the execution delay for requests scheduled after this call.
    pub fn set_delay(&mut self, caller: &String, delay_ns: u64) -> (res: Result<(), TimelockError>)
        requires
            old(self)@.well_formed(),
        ensures
            final(self)@.well_formed(),
            final(self)@ == after_call(old(self)@, (TimelockCall::SetDelay { caller: caller@, delay_ns })),
            match admin_error(old(self)@, caller@) {
                Some(e) => res == Err::<(), TimelockError>(e) && final(self)@ == old(self)@,
                None => if delay_ns > MAX_DELAY_NS {
                    res == Err::<(), TimelockError>(TimelockError::DelayTooLong) && final(self)@ == old(self)@
                } else {
                    res is Ok && final(self)@ == ContractView { delay_ns, ..old(self)@ }
                },
            },
    {
        self.assert_admin(caller)?;
        if delay_ns > MAX_DELAY_NS {
            return Err(TimelockError::DelayTooLong);
        }
        self.delay_ns = delay_ns;
        Ok(())
    }

    /// Rejects the call unless `caller` is the admin.
    fn assert_admin(&self, caller: &String) -> (res: Result<(), TimelockError>)
        ensures
            match admin_error(self@, caller@) {
                Some(e) => res == Err::<(), TimelockError>(e),
                None => res is Ok,
            },
    {
        if *caller != self.admin_id {
            Err(TimelockError::NotAdmin)
        } else {
            Ok(())
        }
    }
}

} // verus!
