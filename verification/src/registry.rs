//! Scholarship module directory and role registry.
//!
//! A directory from module name to deployed address, plus a flat map from
//! (account, role) to a grant flag. Admin-gated writes; reads are open.
use vstd::prelude::*;
use crate::table::{Bytes32, Table, TableKey, bytes32_eq};

verus! {

pub const CONTRACT_VERSION: u32 = 1;

#[derive(Copy, Clone, Debug, PartialEq, Eq, Structural)]
pub enum ContractError {
    NotInitialized,
    AlreadyInitialized,
    NotAdmin,
    ModuleNotFound,
    /// The consistent error every role-gated caller gets when the account
    /// lacks the required role.
    Unauthorized,
}

impl ContractError {
    /// The stable numeric code a client sees.
    pub fn code(self) -> (c: u32)
        ensures
            c == match self {
                ContractError::NotInitialized => 1u32,
                ContractError::AlreadyInitialized => 2u32,
                ContractError::NotAdmin => 3u32,
                ContractError::ModuleNotFound => 4u32,
                ContractError::Unauthorized => 5u32,
            },
    {
        match self {
            ContractError::NotInitialized => 1,
            ContractError::AlreadyInitialized => 2,
            ContractError::NotAdmin => 3,
            ContractError::ModuleNotFound => 4,
            ContractError::Unauthorized => 5,
        }
    }
}

/// Coarse actor roles.
#[derive(Copy, Clone, Debug, PartialEq, Eq, Structural)]
pub enum Role {
    Student,
    Sponsor,
    Reviewer,
    Finance,
    Administrator,
}

impl TableKey for Role {
    fn same(&self, other: &Self) -> (r: bool) {
        *self == *other
    }
}

/// The admin gate shared by every admin-only entrypoint.
pub open spec fn admin_check(admin: Option<Bytes32>, caller: Bytes32) -> Result<(), ContractError> {
    match admin {
        None => Err(ContractError::NotInitialized),
        Some(a) => if a == caller {
            Ok(())
        } else {
            Err(ContractError::NotAdmin)
        },
    }
}

/// The registry's storage.
pub struct ScholarshipRegistryContract {
    admin: Option<Bytes32>,
    modules: Table<Bytes32, Bytes32>,
    roles: Table<(Bytes32, Role), bool>,
}

impl ScholarshipRegistryContract {
    pub closed spec fn wf(&self) -> bool {
        self.modules.wf() && self.roles.wf()
    }

    pub closed spec fn admin(&self) -> Option<Bytes32> {
        self.admin
    }

    /// Module name to deployed address.
    pub closed spec fn modules(&self) -> Map<Bytes32, Bytes32> {
        self.modules.view()
    }

    /// Stored grant flags; an absent entry reads as not granted.
    pub closed spec fn roles(&self) -> Map<(Bytes32, Role), bool> {
        self.roles.view()
    }

    /// Whether `account` currently holds `role`.
    pub open spec fn holds(&self, account: Bytes32, role: Role) -> bool {
        self.roles().contains_key((account, role)) && self.roles()[(account, role)]
    }

    /// An empty, uninitialized registry.
    pub fn new() -> (s: Self)
        ensures
            s.wf(),
            s.admin() is None,
            s.modules() == Map::<Bytes32, Bytes32>::empty(),
            s.roles() == Map::<(Bytes32, Role), bool>::empty(),
    {
        ScholarshipRegistryContract { admin: None, modules: Table::new(), roles: Table::new() }
    }

    /// Sets the admin, once.
    pub fn initialize(&mut self, admin: Bytes32) -> (r: Result<(), ContractError>)
        requires
            old(self).wf(),
        ensures
            final(self).wf(),
            old(self).admin() is Some ==> r == Err::<(), ContractError>(ContractError::AlreadyInitialized)
                && final(self).admin() == old(self).admin(),
            old(self).admin() is None ==> r == Ok::<(), ContractError>(()) && final(self).admin() == Some(admin),
            final(self).modules() == old(self).modules(),
            final(self).roles() == old(self).roles(),
    {
        if self.admin.is_some() {
            return Err(ContractError::AlreadyInitialized);
        }
        self.admin = Some(admin);
        Ok(())
    }

    fn require_admin(&self, caller: &Bytes32) -> (r: Result<(), ContractError>)
        ensures
            r == admin_check(self.admin(), *caller),
    {
        match &self.admin {
            None => Err(ContractError::NotInitialized),
            Some(a) => if bytes32_eq(a, caller) {
                Ok(())
            } else {
                Err(ContractError::NotAdmin)
            },
        }
    }

    /// Admin-only: register or re-point a named module.
    pub fn register_module(&mut self, caller: Bytes32, name: Bytes32, address: Bytes32) -> (r: Result<
        (),
        ContractError,
    >)
        requires
            old(self).wf(),
        ensures
            final(self).wf(),
            r == admin_check(old(self).admin(), caller),
            final(self).admin() == old(self).admin(),
            final(self).roles() == old(self).roles(),
            r is Ok ==> final(self).modules() == old(self).modules().insert(name, address),
            r is Err ==> final(self).modules() == old(self).modules(),
    {
        match self.require_admin(&caller) {
            Err(e) => return Err(e),
            Ok(()) => {},
        }
        self.modules.insert(name, address);
        Ok(())
    }

    /// The address registered for `name`.
    pub fn get_module(&self, name: Bytes32) -> (r: Result<Bytes32, ContractError>)
        requires
            self.wf(),
        ensures
            self.modules().contains_key(name) ==> r == Ok::<Bytes32, ContractError>(self.modules()[name]),
            !self.modules().contains_key(name) ==> r == Err::<Bytes32, ContractError>(
                ContractError::ModuleNotFound,
            ),
    {
        match self.modules.get(&name) {
            Some(a) => Ok(*a),
            None => Err(ContractError::ModuleNotFound),
        }
    }

    pub fn is_module_registered(&self, name: Bytes32) -> (r: bool)
        requires
            self.wf(),
        ensures
            r == self.modules().contains_key(name),
    {
        self.modules.contains_key(&name)
    }

    /// Admin-only: grant `role` to `account`.
    pub fn grant_role(&mut self, caller: Bytes32, account: Bytes32, role: Role) -> (r: Result<(), ContractError>)
        requires
            old(self).wf(),
        ensures
            final(self).wf(),
            r == admin_check(old(self).admin(), caller),
            final(self).admin() == old(self).admin(),
            final(self).modules() == old(self).modules(),
            r is Ok ==> final(self).roles() == old(self).roles().insert((account, role), true),
            r is Err ==> final(self).roles() == old(self).roles(),
    {
        match self.require_admin(&caller) {
            Err(e) => return Err(e),
            Ok(()) => {},
        }
        self.roles.insert((account, role), true);
        Ok(())
    }

    /// Admin-only: revoke `role` from `account`, effective immediately.
    pub fn revoke_role(&mut self, caller: Bytes32, account: Bytes32, role: Role) -> (r: Result<(), ContractError>)
        requires
            old(self).wf(),
        ensures
            final(self).wf(),
            r == admin_check(old(self).admin(), caller),
            final(self).admin() == old(self).admin(),
            final(self).modules() == old(self).modules(),
            r is Ok ==> final(self).roles() == old(self).roles().insert((account, role), false),
            r is Err ==> final(self).roles() == old(self).roles(),
    {
        match self.require_admin(&caller) {
            Err(e) => return Err(e),
            Ok(()) => {},
        }
        self.roles.insert((account, role), false);
        Ok(())
    }

    pub fn has_role(&self, account: Bytes32, role: Role) -> (r: bool)
        requires
            self.wf(),
        ensures
            r == self.holds(account, role),
    {
        match self.roles.get(&(account, role)) {
            Some(b) => *b,
            None => false,
        }
    }

    /// `Unauthorized` exactly when `account` lacks `role`.
    pub fn require_role(&self, account: Bytes32, role: Role) -> (r: Result<(), ContractError>)
        requires
            self.wf(),
        ensures
            r == if self.holds(account, role) {
                Ok::<(), ContractError>(())
            } else {
                Err(ContractError::Unauthorized)
            },
    {
        if self.has_role(account, role) {
            Ok(())
        } else {
            Err(ContractError::Unauthorized)
        }
    }

    pub fn version(&self) -> (v: u32)
        ensures
            v == CONTRACT_VERSION,
    {
        CONTRACT_VERSION
    }
}

/// Granting a role makes it held; revoking it makes it not held, whatever
/// came before; neither touches any other (account, role) pair.
pub proof fn lemma_grant_then_revoke(s: ScholarshipRegistryContract, account: Bytes32, role: Role, other: Bytes32, other_role: Role)
    requires
        (other, other_role) != (account, role),
    ensures
        ({
            let granted = s.roles().insert((account, role), true);
            let revoked = granted.insert((account, role), false);
            &&& granted.contains_key((account, role)) && granted[(account, role)]
            &&& !(revoked.contains_key((account, role)) && revoked[(account, role)])
            &&& (revoked.contains_key((other, other_role)) && revoked[(other, other_role)]) == s.holds(other, other_role)
        }),
{
}

} // verus!
