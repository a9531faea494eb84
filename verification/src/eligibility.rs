//! Program eligibility: versioned rules naming the attestation types a
//! subject must hold, expiring and revocable attestations from authorized
//! issuers, and a deterministic evaluation of a subject against a
//! program's latest rule.
//!
//! Only the fact of a claim is stored (issuer, subject, scope, type,
//! expiry), never the evidence behind it. An attestation scoped to the
//! all-zero value applies to every program. A published rule version is
//! immutable. A refused call changes nothing.
use vstd::prelude::*;
use crate::table::{Bytes32, Table, bytes32_eq, new_zero32, zero32};

verus! {

pub const CONTRACT_VERSION: u32 = 1;

/// The most attestation types one rule may require.
pub const MAX_RULE_REQUIREMENTS: u32 = 10;

#[derive(Copy, Clone, Debug, PartialEq, Eq, Structural)]
pub enum ContractError {
    NotInitialized,
    AlreadyInitialized,
    NotAdmin,
    NotAuthorizedIssuer,
    /// A rule must require at least one attestation type.
    EmptyRule,
    /// A rule may require at most `MAX_RULE_REQUIREMENTS` types.
    RuleTooLarge,
    NoRulePublished,
    RuleNotFound,
    /// An attestation must expire after it is issued.
    InvalidExpiry,
    AttestationNotFound,
    /// Only an attestation's issuer, or the admin, may revoke it.
    NotAttestationIssuer,
    VersionOverflow,
}

impl ContractError {
    /// The stable numeric code a client sees.
    pub fn code(self) -> (c: u32)
        ensures
            c == match self {
                ContractError::NotInitialized => 1u32,
                ContractError::AlreadyInitialized => 2u32,
                ContractError::NotAdmin => 3u32,
                ContractError::NotAuthorizedIssuer => 4u32,
                ContractError::EmptyRule => 5u32,
                ContractError::RuleTooLarge => 6u32,
                ContractError::NoRulePublished => 7u32,
                ContractError::RuleNotFound => 8u32,
                ContractError::InvalidExpiry => 9u32,
                ContractError::AttestationNotFound => 10u32,
                ContractError::NotAttestationIssuer => 11u32,
                ContractError::VersionOverflow => 12u32,
            },
    {
        match self {
            ContractError::NotInitialized => 1,
            ContractError::AlreadyInitialized => 2,
            ContractError::NotAdmin => 3,
            ContractError::NotAuthorizedIssuer => 4,
            ContractError::EmptyRule => 5,
            ContractError::RuleTooLarge => 6,
            ContractError::NoRulePublished => 7,
            ContractError::RuleNotFound => 8,
            ContractError::InvalidExpiry => 9,
            ContractError::AttestationNotFound => 10,
            ContractError::NotAttestationIssuer => 11,
            ContractError::VersionOverflow => 12,
        }
    }
}

/// A published rule: every listed attestation type is required.
#[derive(Debug, PartialEq, Eq)]
pub struct EligibilityRule {
    pub version: u32,
    pub required_types: Vec<Bytes32>,
    pub published_at: u64,
}

pub struct RuleView {
    pub version: u32,
    pub required_types: Seq<Bytes32>,
    pub published_at: u64,
}

impl EligibilityRule {
    pub open spec fn view(&self) -> RuleView {
        RuleView { version: self.version, required_types: self.required_types@, published_at: self.published_at }
    }
}

fn clone_types(v: &Vec<Bytes32>) -> (r: Vec<Bytes32>)
    ensures
        r@ == v@,
{
    let mut r: Vec<Bytes32> = Vec::new();
    let mut i: usize = 0;
    while i < v.len()
        invariant
            i <= v@.len(),
            r@ == v@.take(i as int),
        decreases v@.len() - i,
    {
        r.push(v[i]);
        proof {
            assert(r@ =~= v@.take(i + 1));
        }
        i = i + 1;
    }
    proof {
        assert(v@.take(v@.len() as int) =~= v@);
    }
    r
}

impl Clone for EligibilityRule {
    fn clone(&self) -> (r: Self)
        ensures
            r@ == self@,
    {
        EligibilityRule {
            version: self.version,
            required_types: clone_types(&self.required_types),
            published_at: self.published_at,
        }
    }
}

/// An issuer's claim that a subject holds an attestation type.
#[derive(Copy, Clone, Debug, PartialEq, Eq)]
pub struct Attestation {
    pub issuer: Bytes32,
    pub expiry: u64,
    pub issued_at: u64,
    pub revoked: bool,
}

/// The abstract storage of the eligibility contract.
pub struct EligibilityState {
    pub admin: Option<Bytes32>,
    pub issuers: Map<Bytes32, bool>,
    pub latest: Map<Bytes32, u32>,
    pub rules: Map<(Bytes32, u32), RuleView>,
    pub attestations: Map<(Bytes32, Bytes32, Bytes32), Attestation>,
}

pub open spec fn admin_gate(s: EligibilityState, caller: Bytes32) -> Result<(), ContractError> {
    match s.admin {
        None => Err(ContractError::NotInitialized),
        Some(a) => if a == caller {
            Ok(())
        } else {
            Err(ContractError::NotAdmin)
        },
    }
}

pub open spec fn issuer_authorized(s: EligibilityState, issuer: Bytes32) -> bool {
    s.issuers.contains_key(issuer) && s.issuers[issuer]
}

/// An unrevoked attestation that has not yet expired at `now`.
pub open spec fn valid_at(s: EligibilityState, subject: Bytes32, scope: Bytes32, attestation_type: Bytes32, now: u64) -> bool {
    s.attestations.contains_key((subject, scope, attestation_type)) && !s.attestations[(
        subject,
        scope,
        attestation_type,
    )].revoked && s.attestations[(subject, scope, attestation_type)].expiry > now
}

/// A requirement is met by an attestation scoped to the program or to
/// every program.
pub open spec fn requirement_met(s: EligibilityState, program_id: Bytes32, subject: Bytes32, t: Bytes32, now: u64) -> bool {
    valid_at(s, subject, program_id, t, now) || valid_at(s, subject, zero32(), t, now)
}

/// The outcome of evaluating a subject against a program's latest rule.
pub open spec fn evaluation(s: EligibilityState, program_id: Bytes32, subject: Bytes32, now: u64) -> Result<bool, ContractError> {
    if !s.latest.contains_key(program_id) {
        Err(ContractError::NoRulePublished)
    } else if !s.rules.contains_key((program_id, s.latest[program_id])) {
        Err(ContractError::RuleNotFound)
    } else {
        let types = s.rules[(program_id, s.latest[program_id])].required_types;
        Ok(forall|i: int| 0 <= i < types.len() ==> requirement_met(s, program_id, subject, #[trigger] types[i], now))
    }
}

pub open spec fn publish_spec(s: EligibilityState, admin: Bytes32, program_id: Bytes32, types: Seq<Bytes32>, now: u64) -> (
    Result<u32, ContractError>,
    EligibilityState,
) {
    let current: int = if s.latest.contains_key(program_id) {
        s.latest[program_id] as int
    } else {
        0
    };
    if admin_gate(s, admin) is Err {
        (Err(admin_gate(s, admin)->Err_0), s)
    } else if types.len() == 0 {
        (Err(ContractError::EmptyRule), s)
    } else if types.len() > MAX_RULE_REQUIREMENTS {
        (Err(ContractError::RuleTooLarge), s)
    } else if current == u32::MAX {
        (Err(ContractError::VersionOverflow), s)
    } else {
        let version = (current + 1) as u32;
        let rule = RuleView { version, required_types: types, published_at: now };
        (
            Ok(version),
            EligibilityState {
                rules: s.rules.insert((program_id, version), rule),
                latest: s.latest.insert(program_id, version),
                ..s
            },
        )
    }
}

pub open spec fn issue_spec(
    s: EligibilityState,
    issuer: Bytes32,
    subject: Bytes32,
    scope: Bytes32,
    attestation_type: Bytes32,
    expiry: u64,
    now: u64,
) -> (Result<(), ContractError>, EligibilityState) {
    if !issuer_authorized(s, issuer) {
        (Err(ContractError::NotAuthorizedIssuer), s)
    } else if expiry <= now {
        (Err(ContractError::InvalidExpiry), s)
    } else {
        let a = Attestation { issuer, expiry, issued_at: now, revoked: false };
        (Ok(()), EligibilityState { attestations: s.attestations.insert((subject, scope, attestation_type), a), ..s })
    }
}

pub open spec fn revoke_spec(s: EligibilityState, caller: Bytes32, subject: Bytes32, scope: Bytes32, attestation_type: Bytes32) -> (
    Result<(), ContractError>,
    EligibilityState,
) {
    let key = (subject, scope, attestation_type);
    if !s.attestations.contains_key(key) {
        (Err(ContractError::AttestationNotFound), s)
    } else if caller != s.attestations[key].issuer && s.admin != Some(caller) {
        (Err(ContractError::NotAttestationIssuer), s)
    } else {
        let a = Attestation { revoked: true, ..s.attestations[key] };
        (Ok(()), EligibilityState { attestations: s.attestations.insert(key, a), ..s })
    }
}

/// The eligibility contract's storage.
pub struct ScholarshipEligibilityContract {
    admin: Option<Bytes32>,
    issuers: Table<Bytes32, bool>,
    latest: Table<Bytes32, u32>,
    rules: Table<(Bytes32, u32), EligibilityRule>,
    attestations: Table<(Bytes32, Bytes32, Bytes32), Attestation>,
}

impl ScholarshipEligibilityContract {
    pub closed spec fn wf(&self) -> bool {
        &&& self.issuers.wf()
        &&& self.latest.wf()
        &&& self.rules.wf()
        &&& self.attestations.wf()
    }

    pub closed spec fn view(&self) -> EligibilityState {
        EligibilityState {
            admin: self.admin,
            issuers: self.issuers.view(),
            latest: self.latest.view(),
            rules: self.rules.view().map_values(|r: EligibilityRule| r@),
            attestations: self.attestations.view(),
        }
    }

    pub fn new() -> (c: Self)
        ensures
            c.wf(),
            c@ == (EligibilityState {
                admin: None,
                issuers: Map::empty(),
                latest: Map::empty(),
                rules: Map::empty(),
                attestations: Map::empty(),
            }),
    {
        let c = ScholarshipEligibilityContract {
            admin: None,
            issuers: Table::new(),
            latest: Table::new(),
            rules: Table::new(),
            attestations: Table::new(),
        };
        proof {
            assert(c@.rules =~= Map::<(Bytes32, u32), RuleView>::empty());
        }
        c
    }

    pub fn initialize(&mut self, admin: Bytes32) -> (r: Result<(), ContractError>)
        requires
            old(self).wf(),
        ensures
            final(self).wf(),
            old(self)@.admin is Some ==> r == Err::<(), ContractError>(ContractError::AlreadyInitialized)
                && final(self)@ == old(self)@,
            old(self)@.admin is None ==> r == Ok::<(), ContractError>(()) && final(self)@ == (EligibilityState {
                admin: Some(admin),
                ..old(self)@
            }),
    {
        if self.admin.is_some() {
            return Err(ContractError::AlreadyInitialized);
        }
        self.admin = Some(admin);
        Ok(())
    }

    fn require_admin(&self, caller: &Bytes32) -> (r: Result<(), ContractError>)
        ensures
            r == admin_gate(self@, *caller),
    {
        match &self.admin {
            None => Err(ContractError::NotInitialized),
            Some(a) => if bytes32_eq(a, caller) {
                Ok(())
            } else {
                Err(ContractError::NotAdmin)
            },
        }
    }

    /// Authorizes an issuer to submit attestations.
    pub fn add_issuer(&mut self, admin: Bytes32, issuer: Bytes32) -> (r: Result<(), ContractError>)
        requires
            old(self).wf(),
        ensures
            final(self).wf(),
            r == admin_gate(old(self)@, admin),
            r is Ok ==> final(self)@ == (EligibilityState { issuers: old(self)@.issuers.insert(issuer, true), ..old(self)@ }),
            r is Err ==> final(self)@ == old(self)@,
    {
        match self.require_admin(&admin) {
            Err(e) => return Err(e),
            Ok(()) => {},
        }
        self.issuers.insert(issuer, true);
        Ok(())
    }

    /// Withdraws an issuer's authorization for new attestations; the ones
    /// it already issued keep their validity.
    pub fn remove_issuer(&mut self, admin: Bytes32, issuer: Bytes32) -> (r: Result<(), ContractError>)
        requires
            old(self).wf(),
        ensures
            final(self).wf(),
            r == admin_gate(old(self)@, admin),
            r is Ok ==> final(self)@ == (EligibilityState {
                issuers: old(self)@.issuers.insert(issuer, false),
                ..old(self)@
            }),
            r is Err ==> final(self)@ == old(self)@,
    {
        match self.require_admin(&admin) {
            Err(e) => return Err(e),
            Ok(()) => {},
        }
        self.issuers.insert(issuer, false);
        Ok(())
    }

    pub fn is_authorized_issuer(&self, issuer: Bytes32) -> (b: bool)
        requires
            self.wf(),
        ensures
            b == issuer_authorized(self@, issuer),
    {
        match self.issuers.get(&issuer) {
            Some(b) => *b,
            None => false,
        }
    }

    /// Publishes the next, immutable rule version for a program.
    pub fn publish_eligibility_rule(
        &mut self,
        admin: Bytes32,
        program_id: Bytes32,
        required_types: Vec<Bytes32>,
        now: u64,
    ) -> (r: Result<u32, ContractError>)
        requires
            old(self).wf(),
        ensures
            final(self).wf(),
            (r, final(self)@) == publish_spec(old(self)@, admin, program_id, required_types@, now),
    {
        match self.require_admin(&admin) {
            Err(e) => return Err(e),
            Ok(()) => {},
        }
        if required_types.len() == 0 {
            return Err(ContractError::EmptyRule);
        }
        if required_types.len() > MAX_RULE_REQUIREMENTS as usize {
            return Err(ContractError::RuleTooLarge);
        }
        let current: u32 = match self.latest.get(&program_id) {
            Some(v) => *v,
            None => 0,
        };
        let version = match current.checked_add(1) {
            Some(v) => v,
            None => return Err(ContractError::VersionOverflow),
        };
        let rule = EligibilityRule { version, required_types, published_at: now };
        let ghost before = self@;
        let ghost rv = rule@;
        self.rules.insert((program_id, version), rule);
        self.latest.insert(program_id, version);
        proof {
            assert(self@.rules =~= before.rules.insert((program_id, version), rv));
        }
        Ok(version)
    }

    pub fn get_latest_rule_version(&self, program_id: Bytes32) -> (r: Result<u32, ContractError>)
        requires
            self.wf(),
        ensures
            r == if self@.latest.contains_key(program_id) {
                Ok::<u32, ContractError>(self@.latest[program_id])
            } else {
                Err(ContractError::NoRulePublished)
            },
    {
        match self.latest.get(&program_id) {
            Some(v) => Ok(*v),
            None => Err(ContractError::NoRulePublished),
        }
    }

    pub fn get_eligibility_rule(&self, program_id: Bytes32, version: u32) -> (r: Result<EligibilityRule, ContractError>)
        requires
            self.wf(),
        ensures
            r matches Ok(x) ==> self@.rules.contains_key((program_id, version)) && x@ == self@.rules[(
                program_id,
                version,
            )],
            r matches Err(e) ==> !self@.rules.contains_key((program_id, version)) && e == ContractError::RuleNotFound,
    {
        match self.rules.get(&(program_id, version)) {
            Some(r) => Ok(r.clone()),
            None => Err(ContractError::RuleNotFound),
        }
    }

    /// Issues, or re-issues, an attestation. Authorization is the issuer's
    /// own signature, and the issuer must be on the allowlist.
    pub fn issue_attestation(
        &mut self,
        issuer: Bytes32,
        subject: Bytes32,
        scope: Bytes32,
        attestation_type: Bytes32,
        expiry: u64,
        now: u64,
    ) -> (r: Result<(), ContractError>)
        requires
            old(self).wf(),
        ensures
            final(self).wf(),
            (r, final(self)@) == issue_spec(old(self)@, issuer, subject, scope, attestation_type, expiry, now),
    {
        if !self.is_authorized_issuer(issuer) {
            return Err(ContractError::NotAuthorizedIssuer);
        }
        if expiry <= now {
            return Err(ContractError::InvalidExpiry);
        }
        self.attestations.insert(
            (subject, scope, attestation_type),
            Attestation { issuer, expiry, issued_at: now, revoked: false },
        );
        Ok(())
    }

    /// Revokes an attestation at once; its issuer or the admin may do so.
    pub fn revoke_attestation(&mut self, caller: Bytes32, subject: Bytes32, scope: Bytes32, attestation_type: Bytes32) -> (r:
        Result<(), ContractError>)
        requires
            old(self).wf(),
        ensures
            final(self).wf(),
            (r, final(self)@) == revoke_spec(old(self)@, caller, subject, scope, attestation_type),
    {
        let key = (subject, scope, attestation_type);
        let a = match self.attestations.get(&key) {
            Some(a) => *a,
            None => return Err(ContractError::AttestationNotFound),
        };
        let is_admin = match &self.admin {
            Some(admin) => bytes32_eq(admin, &caller),
            None => false,
        };
        if !bytes32_eq(&caller, &a.issuer) && !is_admin {
            return Err(ContractError::NotAttestationIssuer);
        }
        self.attestations.insert(key, Attestation { revoked: true, ..a });
        Ok(())
    }

    pub fn get_attestation(&self, subject: Bytes32, scope: Bytes32, attestation_type: Bytes32) -> (r: Result<
        Attestation,
        ContractError,
    >)
        requires
            self.wf(),
        ensures
            r == if self@.attestations.contains_key((subject, scope, attestation_type)) {
                Ok::<Attestation, ContractError>(self@.attestations[(subject, scope, attestation_type)])
            } else {
                Err(ContractError::AttestationNotFound)
            },
    {
        match self.attestations.get(&(subject, scope, attestation_type)) {
            Some(a) => Ok(*a),
            None => Err(ContractError::AttestationNotFound),
        }
    }

    /// Whether the subject holds an unrevoked, unexpired attestation.
    pub fn has_valid_attestation(&self, subject: Bytes32, scope: Bytes32, attestation_type: Bytes32, now: u64) -> (b: bool)
        requires
            self.wf(),
        ensures
            b == valid_at(self@, subject, scope, attestation_type, now),
    {
        match self.attestations.get(&(subject, scope, attestation_type)) {
            Some(a) => !a.revoked && a.expiry > now,
            None => false,
        }
    }

    /// The scope that applies to every program: all zeroes.
    pub fn global_scope() -> (g: Bytes32)
        ensures
            g == zero32(),
    {
        new_zero32()
    }

    /// Whether a subject meets every requirement of the program's latest
    /// rule at `now`.
    pub fn evaluate_eligibility(&self, program_id: Bytes32, subject: Bytes32, now: u64) -> (r: Result<bool, ContractError>)
        requires
            self.wf(),
        ensures
            r == evaluation(self@, program_id, subject, now),
    {
        let version = match self.latest.get(&program_id) {
            Some(v) => *v,
            None => return Err(ContractError::NoRulePublished),
        };
        let rule = match self.rules.get(&(program_id, version)) {
            Some(r) => {
                proof {
                    assert(self@.rules.contains_key((program_id, version)));
                    assert(r@ == self@.rules[(program_id, version)]);
                }
                r
            },
            None => return Err(ContractError::RuleNotFound),
        };
        let global = new_zero32();
        let mut i: usize = 0;
        while i < rule.required_types.len()
            invariant
                self.wf(),
                self@.latest.contains_key(program_id),
                version == self@.latest[program_id],
                self@.rules.contains_key((program_id, version)),
                rule@ == self@.rules[(program_id, version)],
                global == zero32(),
                i <= rule.required_types@.len(),
                forall|k: int| 0 <= k < i ==> requirement_met(
                    self@,
                    program_id,
                    subject,
                    #[trigger] rule.required_types@[k],
                    now,
                ),
            decreases rule.required_types@.len() - i,
        {
            let t = rule.required_types[i];
            let met = self.has_valid_attestation(subject, program_id, t, now) || self.has_valid_attestation(
                subject,
                global,
                t,
                now,
            );
            if !met {
                proof {
                    let types = self@.rules[(program_id, self@.latest[program_id])].required_types;
                    assert(types[i as int] == rule.required_types@[i as int]);
                    assert(!requirement_met(self@, program_id, subject, types[i as int], now));
                    assert(!(forall|k: int| 0 <= k < types.len() ==> requirement_met(
                        self@,
                        program_id,
                        subject,
                        #[trigger] types[k],
                        now,
                    )));
                }
                return Ok(false);
            }
            i = i + 1;
        }
        Ok(true)
    }

    pub fn version() -> (v: u32)
        ensures
            v == CONTRACT_VERSION,
    {
        CONTRACT_VERSION
    }
}

/// A revoked attestation is invalid from the next read onward, at any time.
pub proof fn lemma_revocation_is_immediate(
    s: EligibilityState,
    caller: Bytes32,
    subject: Bytes32,
    scope: Bytes32,
    attestation_type: Bytes32,
    now: u64,
)
    requires
        revoke_spec(s, caller, subject, scope, attestation_type).0 is Ok,
    ensures
        !valid_at(revoke_spec(s, caller, subject, scope, attestation_type).1, subject, scope, attestation_type, now),
{
}

/// An issued attestation is valid from its issue time until, but not at,
/// its expiry.
pub proof fn lemma_issued_attestation_holds_until_expiry(
    s: EligibilityState,
    issuer: Bytes32,
    subject: Bytes32,
    scope: Bytes32,
    attestation_type: Bytes32,
    expiry: u64,
    now: u64,
    later: u64,
)
    requires
        issue_spec(s, issuer, subject, scope, attestation_type, expiry, now).0 is Ok,
    ensures
        now <= later < expiry ==> valid_at(
            issue_spec(s, issuer, subject, scope, attestation_type, expiry, now).1,
            subject,
            scope,
            attestation_type,
            later,
        ),
        later >= expiry ==> !valid_at(
            issue_spec(s, issuer, subject, scope, attestation_type, expiry, now).1,
            subject,
            scope,
            attestation_type,
            later,
        ),
{
}

/// Publishing writes version N+1 and leaves every published version as it
/// was.
pub proof fn lemma_published_rules_are_immutable(
    s: EligibilityState,
    admin: Bytes32,
    program_id: Bytes32,
    types: Seq<Bytes32>,
    now: u64,
    key: (Bytes32, u32),
)
    requires
        s.rules.contains_key(key),
        forall|k: (Bytes32, u32)| #[trigger] s.rules.contains_key(k) ==> s.latest.contains_key(k.0) && k.1
            <= s.latest[k.0],
    ensures
        publish_spec(s, admin, program_id, types, now).1.rules.contains_key(key),
        publish_spec(s, admin, program_id, types, now).1.rules[key] == s.rules[key],
{
}

/// Revoking the program-scoped attestation a requirement relies on, with
/// no global attestation of that type to fall back on, makes the subject
/// ineligible at once.
pub proof fn lemma_revoking_a_needed_attestation_denies(
    s: EligibilityState,
    caller: Bytes32,
    program_id: Bytes32,
    subject: Bytes32,
    attestation_type: Bytes32,
    now: u64,
)
    requires
        revoke_spec(s, caller, subject, program_id, attestation_type).0 is Ok,
        evaluation(s, program_id, subject, now) is Ok,
        s.rules[(program_id, s.latest[program_id])].required_types.contains(attestation_type),
        !valid_at(s, subject, zero32(), attestation_type, now),
        program_id != zero32(),
    ensures
        evaluation(revoke_spec(s, caller, subject, program_id, attestation_type).1, program_id, subject, now)
            == Ok::<bool, ContractError>(false),
{
    let t = revoke_spec(s, caller, subject, program_id, attestation_type).1;
    let types = s.rules[(program_id, s.latest[program_id])].required_types;
    let i = choose|i: int| 0 <= i < types.len() && types[i] == attestation_type;
    assert(!requirement_met(t, program_id, subject, types[i], now));
}

} // verus!
