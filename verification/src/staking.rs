//! Token staking in named tiers, with an emergency exit that pays a
//! penalty into a pool the admin may draw on, pausing of new stakes, and a
//! two-step, expiring admin hand-over.
//!
//! Token movements are the token contract's work: each operation that
//! moves tokens says which movement it needs, and the runtime performs it
//! as part of the same invocation. Penalty withdrawals only ever draw on
//! the penalty pool, never on staked principal. A refused call changes
//! nothing.
use vstd::prelude::*;
use crate::table::{Bytes32, Table, bytes32_eq};
use crate::math::trunc_div;

verus! {

/// The smallest emergency-exit penalty, in basis points.
pub const MIN_PENALTY_BPS: u32 = 100;

/// How long a proposed admin has to accept, in seconds.
pub const PENDING_ADMIN_TTL: u64 = 604_800;

#[derive(Copy, Clone, Debug, PartialEq, Eq, Structural)]
pub enum StakingError {
    NotInitialized,
    AlreadyInitialized,
    Unauthorized,
    TierNotFound,
    InsufficientBalance,
    StillLocked,
    NoStake,
    PenaltyTooLow,
    TierExists,
    PenaltyInsufficient,
    PendingAdminExists,
    NoPendingAdmin,
    NotPendingAdmin,
    PendingAdminExpired,
    NotAdmin,
    ContractPaused,
    /// The tier has been withdrawn from new stakes.
    TierInactive,
    /// A second stake must go to the tier of the first.
    TierChangeNotAllowed,
}

impl StakingError {
    /// The numeric code a client sees; two late variants share codes with
    /// earlier ones.
    pub fn code(self) -> (c: u32)
        ensures
            c == match self {
                StakingError::NotInitialized => 1u32,
                StakingError::AlreadyInitialized => 2u32,
                StakingError::Unauthorized => 3u32,
                StakingError::TierNotFound => 4u32,
                StakingError::InsufficientBalance => 5u32,
                StakingError::StillLocked => 6u32,
                StakingError::NoStake => 7u32,
                StakingError::PenaltyTooLow => 8u32,
                StakingError::TierExists => 9u32,
                StakingError::PenaltyInsufficient => 10u32,
                StakingError::PendingAdminExists => 9u32,
                StakingError::NoPendingAdmin => 10u32,
                StakingError::NotPendingAdmin => 11u32,
                StakingError::PendingAdminExpired => 12u32,
                StakingError::NotAdmin => 13u32,
                StakingError::ContractPaused => 14u32,
                StakingError::TierInactive => 15u32,
                StakingError::TierChangeNotAllowed => 16u32,
            },
    {
        match self {
            StakingError::NotInitialized => 1,
            StakingError::AlreadyInitialized => 2,
            StakingError::Unauthorized => 3,
            StakingError::TierNotFound => 4,
            StakingError::InsufficientBalance => 5,
            StakingError::StillLocked => 6,
            StakingError::NoStake => 7,
            StakingError::PenaltyTooLow => 8,
            StakingError::TierExists => 9,
            StakingError::PenaltyInsufficient => 10,
            StakingError::PendingAdminExists => 9,
            StakingError::NoPendingAdmin => 10,
            StakingError::NotPendingAdmin => 11,
            StakingError::PendingAdminExpired => 12,
            StakingError::NotAdmin => 13,
            StakingError::ContractPaused => 14,
            StakingError::TierInactive => 15,
            StakingError::TierChangeNotAllowed => 16,
        }
    }
}

#[derive(Copy, Clone, Debug, PartialEq, Eq)]
pub struct StakingConfig {
    pub token: Bytes32,
    pub admin: Bytes32,
    pub emergency_unstake_penalty_bps: u32,
}

#[derive(Copy, Clone, Debug, PartialEq, Eq, Structural)]
pub struct TierConfig {
    pub min_amount: i128,
    pub lock_period: u64,
}

#[derive(Copy, Clone, Debug, PartialEq, Eq)]
pub struct StakeRecord {
    pub amount: i128,
    pub tier: Bytes32,
    pub staked_at: u64,
}

/// A token movement an operation needs: `amount` of the staking token from
/// `from` to `to`.
#[derive(Copy, Clone, Debug, PartialEq, Eq)]
pub struct TokenMove {
    pub from: Bytes32,
    pub to: Bytes32,
    pub amount: i128,
}

/// The abstract storage of the staking contract.
pub struct StakingState {
    pub config: Option<StakingConfig>,
    pub tiers: Map<Bytes32, TierConfig>,
    pub active_tiers: Seq<Bytes32>,
    pub stakes: Map<Bytes32, StakeRecord>,
    pub total_staked: i128,
    pub penalty_pool: i128,
    pub paused: bool,
    pub pending_admin: Option<(Bytes32, u64)>,
}

pub open spec fn admin_gate(s: StakingState, caller: Bytes32, refusal: StakingError) -> Result<StakingConfig, StakingError> {
    match s.config {
        None => Err(StakingError::NotInitialized),
        Some(c) => if c.admin == caller {
            Ok(c)
        } else {
            Err(refusal)
        },
    }
}

/// The penalty an emergency exit of `amount` pays, rounded toward zero.
pub open spec fn penalty_of(amount: i128, bps: u32) -> int {
    trunc_div(amount * bps, 10_000)
}

/// The stake a user holds after adding `amount` in `tier`: a repeated
/// stake merges into the first, keeping its tier and start.
pub open spec fn merged_stake(s: StakingState, user: Bytes32, tier: Bytes32, amount: i128, now: u64) -> StakeRecord {
    if s.stakes.contains_key(user) {
        StakeRecord { amount: (s.stakes[user].amount + amount) as i128, ..s.stakes[user] }
    } else {
        StakeRecord { amount, tier, staked_at: now }
    }
}

pub open spec fn stake_spec(
    s: StakingState,
    contract: Bytes32,
    user: Bytes32,
    tier: Bytes32,
    amount: i128,
    now: u64,
) -> (Result<TokenMove, StakingError>, StakingState) {
    if s.config is None {
        (Err(StakingError::NotInitialized), s)
    } else if !s.tiers.contains_key(tier) {
        (Err(StakingError::TierNotFound), s)
    } else if !s.active_tiers.contains(tier) {
        (Err(StakingError::TierInactive), s)
    } else if amount < s.tiers[tier].min_amount {
        (Err(StakingError::InsufficientBalance), s)
    } else if s.paused {
        (Err(StakingError::ContractPaused), s)
    } else if s.stakes.contains_key(user) && s.stakes[user].tier != tier {
        (Err(StakingError::TierChangeNotAllowed), s)
    } else {
        (
            Ok(TokenMove { from: user, to: contract, amount }),
            StakingState {
                stakes: s.stakes.insert(user, merged_stake(s, user, tier, amount, now)),
                total_staked: (s.total_staked + amount) as i128,
                ..s
            },
        )
    }
}

/// The arithmetic of a stake fits in 128 bits.
pub open spec fn stake_fits(s: StakingState, user: Bytes32, amount: i128) -> bool {
    &&& i128::MIN <= s.total_staked + amount <= i128::MAX
    &&& s.stakes.contains_key(user) ==> i128::MIN <= s.stakes[user].amount + amount <= i128::MAX
}

/// `tiers` without `name`.
pub open spec fn without(tiers: Seq<Bytes32>, name: Bytes32) -> Seq<Bytes32>
    decreases tiers.len(),
{
    if tiers.len() == 0 {
        tiers
    } else if tiers.last() == name {
        without(tiers.drop_last(), name)
    } else {
        without(tiers.drop_last(), name).push(tiers.last())
    }
}

proof fn lemma_without_drops(tiers: Seq<Bytes32>, name: Bytes32)
    ensures
        !without(tiers, name).contains(name),
    decreases tiers.len(),
{
    if tiers.len() > 0 {
        lemma_without_drops(tiers.drop_last(), name);
        if tiers.last() != name {
            let w = without(tiers.drop_last(), name);
            assert forall|i: int| 0 <= i < w.push(tiers.last()).len() implies w.push(tiers.last())[i] != name by {
                if i < w.len() {
                    assert(w.push(tiers.last())[i] == w[i]);
                }
            }
        }
    }
}

pub open spec fn unstake_spec(s: StakingState, contract: Bytes32, user: Bytes32) -> (
    Result<(i128, TokenMove), StakingError>,
    StakingState,
) {
    if s.config is None {
        (Err(StakingError::NotInitialized), s)
    } else if !s.stakes.contains_key(user) {
        (Err(StakingError::NoStake), s)
    } else {
        let amount = s.stakes[user].amount;
        let penalty = penalty_of(amount, s.config->Some_0.emergency_unstake_penalty_bps);
        let payout = (amount - penalty) as i128;
        (
            Ok((payout, TokenMove { from: contract, to: user, amount: payout })),
            StakingState {
                stakes: s.stakes.remove(user),
                total_staked: (s.total_staked - amount) as i128,
                penalty_pool: (s.penalty_pool + penalty) as i128,
                ..s
            },
        )
    }
}

/// The arithmetic of an emergency exit fits in 128 bits.
pub open spec fn unstake_fits(s: StakingState, user: Bytes32) -> bool {
    s.config is Some && s.stakes.contains_key(user) ==> {
        let amount = s.stakes[user].amount;
        let bps = s.config->Some_0.emergency_unstake_penalty_bps;
        let penalty = penalty_of(amount, bps);
        &&& i128::MIN <= amount * bps <= i128::MAX
        &&& i128::MIN <= amount - penalty <= i128::MAX
        &&& i128::MIN <= s.total_staked - amount <= i128::MAX
        &&& i128::MIN <= s.penalty_pool + penalty <= i128::MAX
    }
}

pub open spec fn withdraw_spec(s: StakingState, contract: Bytes32, caller: Bytes32, recipient: Bytes32, amount: i128) -> (
    Result<Option<TokenMove>, StakingError>,
    StakingState,
) {
    if admin_gate(s, caller, StakingError::Unauthorized) is Err {
        (Err(admin_gate(s, caller, StakingError::Unauthorized)->Err_0), s)
    } else if amount < 0 || amount > s.penalty_pool {
        (Err(StakingError::PenaltyInsufficient), s)
    } else if amount == 0 {
        (Ok(None), s)
    } else {
        (
            Ok(Some(TokenMove { from: contract, to: recipient, amount })),
            StakingState { penalty_pool: (s.penalty_pool - amount) as i128, ..s },
        )
    }
}

pub open spec fn accept_spec(s: StakingState, caller: Bytes32, now: u64) -> (Result<(), StakingError>, StakingState) {
    if s.config is None {
        (Err(StakingError::NotInitialized), s)
    } else if s.pending_admin is None {
        (Err(StakingError::NoPendingAdmin), s)
    } else if s.pending_admin->Some_0.0 != caller {
        (Err(StakingError::NotPendingAdmin), s)
    } else if now > s.pending_admin->Some_0.1 + PENDING_ADMIN_TTL && s.pending_admin->Some_0.1 + PENDING_ADMIN_TTL
        <= u64::MAX {
        (Err(StakingError::PendingAdminExpired), s)
    } else {
        (
            Ok(()),
            StakingState {
                config: Some(StakingConfig { admin: caller, ..s.config->Some_0 }),
                pending_admin: None,
                ..s
            },
        )
    }
}

/// The staking contract's storage. `address` is the contract's own
/// account, which holds the staked tokens.
pub struct StakingContract {
    address: Bytes32,
    config: Option<StakingConfig>,
    tiers: Table<Bytes32, TierConfig>,
    active_tiers: Vec<Bytes32>,
    stakes: Table<Bytes32, StakeRecord>,
    total_staked: i128,
    penalty_pool: i128,
    paused: bool,
    pending_admin: Option<(Bytes32, u64)>,
}

impl StakingContract {
    pub closed spec fn wf(&self) -> bool {
        &&& self.tiers.wf()
        &&& self.stakes.wf()
    }

    pub closed spec fn view(&self) -> StakingState {
        StakingState {
            config: self.config,
            tiers: self.tiers.view(),
            active_tiers: self.active_tiers@,
            stakes: self.stakes.view(),
            total_staked: self.total_staked,
            penalty_pool: self.penalty_pool,
            paused: self.paused,
            pending_admin: self.pending_admin,
        }
    }

    /// The contract's own account.
    pub closed spec fn address(&self) -> Bytes32 {
        self.address
    }

    pub fn new(address: Bytes32) -> (c: Self)
        ensures
            c.wf(),
            c.address() == address,
            c@.config is None,
            c@.total_staked == 0,
            c@.penalty_pool == 0,
            c@.stakes == Map::<Bytes32, StakeRecord>::empty(),
    {
        StakingContract {
            address,
            config: None,
            tiers: Table::new(),
            active_tiers: Vec::new(),
            stakes: Table::new(),
            total_staked: 0,
            penalty_pool: 0,
            paused: false,
            pending_admin: None,
        }
    }

    /// Configures the token and the emergency-exit penalty, once.
    pub fn initialize(&mut self, admin: Bytes32, token: Bytes32, emergency_unstake_penalty_bps: u32) -> (r: Result<
        (),
        StakingError,
    >)
        requires
            old(self).wf(),
        ensures
            final(self).wf(),
            final(self).address() == old(self).address(),
            r == if old(self)@.config is Some {
                Err::<(), StakingError>(StakingError::AlreadyInitialized)
            } else if emergency_unstake_penalty_bps < MIN_PENALTY_BPS {
                Err(StakingError::PenaltyTooLow)
            } else {
                Ok(())
            },
            r is Ok ==> final(self)@ == (StakingState {
                config: Some(StakingConfig { token, admin, emergency_unstake_penalty_bps }),
                penalty_pool: 0,
                active_tiers: Seq::empty(),
                ..old(self)@
            }),
            r is Err ==> final(self)@ == old(self)@,
    {
        if self.config.is_some() {
            return Err(StakingError::AlreadyInitialized);
        }
        if emergency_unstake_penalty_bps < MIN_PENALTY_BPS {
            return Err(StakingError::PenaltyTooLow);
        }
        self.config = Some(StakingConfig { token, admin, emergency_unstake_penalty_bps });
        self.penalty_pool = 0;
        self.active_tiers = Vec::new();
        proof {
            assert(self.active_tiers@ =~= Seq::<Bytes32>::empty());
        }
        Ok(())
    }

    fn require_admin(&self, caller: &Bytes32, refusal: StakingError) -> (r: Result<StakingConfig, StakingError>)
        ensures
            r == admin_gate(self@, *caller, refusal),
    {
        match self.config {
            None => Err(StakingError::NotInitialized),
            Some(c) => if bytes32_eq(&c.admin, caller) {
                Ok(c)
            } else {
                Err(refusal)
            },
        }
    }

    /// Registers a new tier; an existing one is never overwritten.
    pub fn add_tier(&mut self, caller: Bytes32, name: Bytes32, tier_config: TierConfig) -> (r: Result<(), StakingError>)
        requires
            old(self).wf(),
        ensures
            final(self).wf(),
            final(self).address() == old(self).address(),
            r == if admin_gate(old(self)@, caller, StakingError::Unauthorized) is Err {
                Err::<(), StakingError>(admin_gate(old(self)@, caller, StakingError::Unauthorized)->Err_0)
            } else if old(self)@.tiers.contains_key(name) {
                Err(StakingError::TierExists)
            } else {
                Ok(())
            },
            r is Ok ==> final(self)@ == (StakingState {
                tiers: old(self)@.tiers.insert(name, tier_config),
                active_tiers: old(self)@.active_tiers.push(name),
                ..old(self)@
            }),
            r is Err ==> final(self)@ == old(self)@,
    {
        match self.require_admin(&caller, StakingError::Unauthorized) {
            Err(e) => return Err(e),
            Ok(_) => {},
        }
        if self.tiers.contains_key(&name) {
            return Err(StakingError::TierExists);
        }
        self.tiers.insert(name, tier_config);
        self.active_tiers.push(name);
        Ok(())
    }

    /// Changes an existing tier.
    pub fn update_tier(&mut self, caller: Bytes32, name: Bytes32, tier_config: TierConfig) -> (r: Result<(), StakingError>)
        requires
            old(self).wf(),
        ensures
            final(self).wf(),
            final(self).address() == old(self).address(),
            r == if admin_gate(old(self)@, caller, StakingError::Unauthorized) is Err {
                Err::<(), StakingError>(admin_gate(old(self)@, caller, StakingError::Unauthorized)->Err_0)
            } else if !old(self)@.tiers.contains_key(name) {
                Err(StakingError::TierNotFound)
            } else {
                Ok(())
            },
            r is Ok ==> final(self)@ == (StakingState {
                tiers: old(self)@.tiers.insert(name, tier_config),
                ..old(self)@
            }),
            r is Err ==> final(self)@ == old(self)@,
    {
        match self.require_admin(&caller, StakingError::Unauthorized) {
            Err(e) => return Err(e),
            Ok(_) => {},
        }
        if !self.tiers.contains_key(&name) {
            return Err(StakingError::TierNotFound);
        }
        self.tiers.insert(name, tier_config);
        Ok(())
    }

    /// Records a stake in a tier and returns the deposit the user owes the
    /// contract. A second stake in the same tier adds to the user's record;
    /// one in another tier is refused. Authorization
    /// is the user's own signature.
    pub fn stake_tokens(&mut self, user: Bytes32, tier: Bytes32, amount: i128, now: u64) -> (r: Result<
        TokenMove,
        StakingError,
    >)
        requires
            old(self).wf(),
            stake_fits(old(self)@, user, amount),
        ensures
            final(self).wf(),
            final(self).address() == old(self).address(),
            (r, final(self)@) == stake_spec(old(self)@, old(self).address(), user, tier, amount, now),
    {
        if self.config.is_none() {
            return Err(StakingError::NotInitialized);
        }
        let tier_cfg = match self.tiers.get(&tier) {
            Some(t) => *t,
            None => return Err(StakingError::TierNotFound),
        };
        if !self.is_tier_active(tier) {
            return Err(StakingError::TierInactive);
        }
        if amount < tier_cfg.min_amount {
            return Err(StakingError::InsufficientBalance);
        }
        if self.paused {
            return Err(StakingError::ContractPaused);
        }
        let record = match self.stakes.get(&user) {
            Some(existing) => {
                if !bytes32_eq(&existing.tier, &tier) {
                    return Err(StakingError::TierChangeNotAllowed);
                }
                StakeRecord { amount: existing.amount + amount, ..*existing }
            },
            None => StakeRecord { amount, tier, staked_at: now },
        };
        self.stakes.insert(user, record);
        self.total_staked = self.total_staked + amount;
        Ok(TokenMove { from: user, to: self.address, amount })
    }

    /// Whether `name` is open to new stakes.
    pub fn is_tier_active(&self, name: Bytes32) -> (b: bool)
        ensures
            b == self@.active_tiers.contains(name),
    {
        let mut i: usize = 0;
        while i < self.active_tiers.len()
            invariant
                i <= self.active_tiers@.len(),
                forall|k: int| 0 <= k < i ==> self.active_tiers@[k] != name,
            decreases self.active_tiers@.len() - i,
        {
            if bytes32_eq(&self.active_tiers[i], &name) {
                return true;
            }
            i = i + 1;
        }
        false
    }

    /// Closes a tier to new stakes; existing stakes in it are untouched.
    pub fn deactivate_tier(&mut self, caller: Bytes32, name: Bytes32) -> (r: Result<(), StakingError>)
        requires
            old(self).wf(),
        ensures
            final(self).wf(),
            final(self).address() == old(self).address(),
            r == if admin_gate(old(self)@, caller, StakingError::Unauthorized) is Err {
                Err::<(), StakingError>(admin_gate(old(self)@, caller, StakingError::Unauthorized)->Err_0)
            } else if !old(self)@.tiers.contains_key(name) {
                Err(StakingError::TierNotFound)
            } else {
                Ok(())
            },
            r is Ok ==> final(self)@ == (StakingState {
                active_tiers: without(old(self)@.active_tiers, name),
                ..old(self)@
            }),
            r is Err ==> final(self)@ == old(self)@,
    {
        match self.require_admin(&caller, StakingError::Unauthorized) {
            Err(e) => return Err(e),
            Ok(_) => {},
        }
        if !self.tiers.contains_key(&name) {
            return Err(StakingError::TierNotFound);
        }
        let mut kept: Vec<Bytes32> = Vec::new();
        let mut i: usize = 0;
        while i < self.active_tiers.len()
            invariant
                i <= self.active_tiers@.len(),
                kept@ == without(self.active_tiers@.take(i as int), name),
            decreases self.active_tiers@.len() - i,
        {
            proof {
                assert(self.active_tiers@.take(i + 1).drop_last() =~= self.active_tiers@.take(i as int));
            }
            let t = self.active_tiers[i];
            if !bytes32_eq(&t, &name) {
                kept.push(t);
            }
            i = i + 1;
        }
        proof {
            assert(self.active_tiers@.take(self.active_tiers@.len() as int) =~= self.active_tiers@);
        }
        self.active_tiers = kept;
        Ok(())
    }

    /// Whether a stake of `amount` now would overflow the staked total.
    pub fn stake_would_overflow(&self, user: Bytes32, amount: i128) -> (b: bool)
        requires
            self.wf(),
        ensures
            b == !stake_fits(self@, user, amount),
    {
        if self.total_staked.checked_add(amount).is_none() {
            return true;
        }
        match self.stakes.get(&user) {
            Some(existing) => existing.amount.checked_add(amount).is_none(),
            None => false,
        }
    }

    /// Exits a stake at once, paying the penalty into the pool, and returns
    /// the payout with the transfer that pays it. Allowed while paused.
    pub fn emergency_unstake(&mut self, user: Bytes32) -> (r: Result<(i128, TokenMove), StakingError>)
        requires
            old(self).wf(),
            unstake_fits(old(self)@, user),
        ensures
            final(self).wf(),
            final(self).address() == old(self).address(),
            (r, final(self)@) == unstake_spec(old(self)@, old(self).address(), user),
    {
        let config = match self.config {
            Some(c) => c,
            None => return Err(StakingError::NotInitialized),
        };
        let record = match self.stakes.get(&user) {
            Some(r) => *r,
            None => return Err(StakingError::NoStake),
        };
        let product = record.amount * (config.emergency_unstake_penalty_bps as i128);
        let penalty = product / 10_000;
        proof {
            assert(penalty == trunc_div(product as int, 10_000));
        }
        let payout = record.amount - penalty;
        self.stakes.remove(&user);
        self.total_staked = self.total_staked - record.amount;
        self.penalty_pool = self.penalty_pool + penalty;
        Ok((payout, TokenMove { from: self.address, to: user, amount: payout }))
    }

    /// Whether an emergency exit for `user` would overflow.
    pub fn unstake_would_overflow(&self, user: Bytes32) -> (b: bool)
        requires
            self.wf(),
        ensures
            b == !unstake_fits(self@, user),
    {
        let config = match self.config {
            Some(c) => c,
            None => return false,
        };
        let record = match self.stakes.get(&user) {
            Some(r) => *r,
            None => return false,
        };
        let product = match record.amount.checked_mul(config.emergency_unstake_penalty_bps as i128) {
            Some(p) => p,
            None => return true,
        };
        let penalty = product / 10_000;
        proof {
            assert(penalty == trunc_div(product as int, 10_000));
        }
        record.amount.checked_sub(penalty).is_none() || self.total_staked.checked_sub(record.amount).is_none()
            || self.penalty_pool.checked_add(penalty).is_none()
    }

    /// Draws on the penalty pool; staked principal is never touched.
    pub fn withdraw_penalties(&mut self, caller: Bytes32, recipient: Bytes32, amount: i128) -> (r: Result<
        Option<TokenMove>,
        StakingError,
    >)
        requires
            old(self).wf(),
        ensures
            final(self).wf(),
            final(self).address() == old(self).address(),
            (r, final(self)@) == withdraw_spec(old(self)@, old(self).address(), caller, recipient, amount),
    {
        match self.require_admin(&caller, StakingError::Unauthorized) {
            Err(e) => return Err(e),
            Ok(_) => {},
        }
        if amount < 0 || amount > self.penalty_pool {
            return Err(StakingError::PenaltyInsufficient);
        }
        if amount == 0 {
            return Ok(None);
        }
        self.penalty_pool = self.penalty_pool - amount;
        Ok(Some(TokenMove { from: self.address, to: recipient, amount }))
    }

    pub fn get_stake(&self, user: Bytes32) -> (r: Option<StakeRecord>)
        requires
            self.wf(),
        ensures
            r == if self@.stakes.contains_key(user) {
                Some(self@.stakes[user])
            } else {
                None::<StakeRecord>
            },
    {
        match self.stakes.get(&user) {
            Some(r) => Some(*r),
            None => None,
        }
    }

    /// When a stake unlocks: its staking time plus its tier's lock period.
    pub fn get_unlock_timestamp(&self, user: Bytes32) -> (r: Option<u64>)
        requires
            self.wf(),
            self@.stakes.contains_key(user) && self@.tiers.contains_key(self@.stakes[user].tier) ==> self@.stakes[user].staked_at
                + self@.tiers[self@.stakes[user].tier].lock_period <= u64::MAX,
        ensures
            r == if self@.stakes.contains_key(user) && self@.tiers.contains_key(self@.stakes[user].tier) {
                Some((self@.stakes[user].staked_at + self@.tiers[self@.stakes[user].tier].lock_period) as u64)
            } else {
                None::<u64>
            },
    {
        let record = match self.stakes.get(&user) {
            Some(r) => *r,
            None => return None,
        };
        let tier = match self.tiers.get(&record.tier) {
            Some(t) => *t,
            None => return None,
        };
        Some(record.staked_at + tier.lock_period)
    }

    pub fn get_tier(&self, name: Bytes32) -> (r: Option<TierConfig>)
        requires
            self.wf(),
        ensures
            r == if self@.tiers.contains_key(name) {
                Some(self@.tiers[name])
            } else {
                None::<TierConfig>
            },
    {
        match self.tiers.get(&name) {
            Some(t) => Some(*t),
            None => None,
        }
    }

    /// The tiers in the order they were added.
    pub fn get_active_tiers(&self) -> (v: Vec<Bytes32>)
        ensures
            v@ == self@.active_tiers,
    {
        let mut v: Vec<Bytes32> = Vec::new();
        let mut i: usize = 0;
        while i < self.active_tiers.len()
            invariant
                i <= self.active_tiers@.len(),
                v@ == self.active_tiers@.take(i as int),
            decreases self.active_tiers@.len() - i,
        {
            v.push(self.active_tiers[i]);
            proof {
                assert(v@ =~= self.active_tiers@.take(i + 1));
            }
            i = i + 1;
        }
        proof {
            assert(self.active_tiers@.take(self.active_tiers@.len() as int) =~= self.active_tiers@);
        }
        v
    }

    /// The configuration of an initialized contract.
    pub fn get_configuration(&self) -> (c: StakingConfig)
        requires
            self@.config is Some,
        ensures
            c == self@.config->Some_0,
    {
        self.config.unwrap()
    }

    pub fn get_total_staked(&self) -> (t: i128)
        ensures
            t == self@.total_staked,
    {
        self.total_staked
    }

    /// The penalties accrued and not yet withdrawn.
    pub fn get_penalty_pool(&self) -> (t: i128)
        ensures
            t == self@.penalty_pool,
    {
        self.penalty_pool
    }

    /// Authorizes replacing the contract code; the runtime performs the
    /// replacement only when this succeeds.
    pub fn upgrade(&self, caller: Bytes32, new_wasm_hash: Bytes32) -> (r: Result<(), StakingError>)
        ensures
            r == match admin_gate(self@, caller, StakingError::Unauthorized) {
                Ok(_) => Ok::<(), StakingError>(()),
                Err(e) => Err(e),
            },
    {
        match self.require_admin(&caller, StakingError::Unauthorized) {
            Ok(_) => Ok(()),
            Err(e) => Err(e),
        }
    }

    /// Stops, or resumes, new stakes; exits stay open.
    pub fn set_paused(&mut self, caller: Bytes32, paused: bool) -> (r: Result<(), StakingError>)
        requires
            old(self).wf(),
        ensures
            final(self).wf(),
            final(self).address() == old(self).address(),
            r == match admin_gate(old(self)@, caller, StakingError::NotAdmin) {
                Ok(_) => Ok::<(), StakingError>(()),
                Err(e) => Err(e),
            },
            r is Ok ==> final(self)@ == (StakingState { paused, ..old(self)@ }),
            r is Err ==> final(self)@ == old(self)@,
    {
        match self.require_admin(&caller, StakingError::NotAdmin) {
            Err(e) => return Err(e),
            Ok(_) => {},
        }
        self.paused = paused;
        Ok(())
    }

    pub fn is_paused(&self) -> (b: bool)
        ensures
            b == self@.paused,
    {
        self.paused
    }

    /// The current admin proposes a successor, who has
    /// `PENDING_ADMIN_TTL` seconds to accept.
    pub fn propose_admin_transfer(&mut self, caller: Bytes32, new_admin: Bytes32, now: u64) -> (r: Result<
        (),
        StakingError,
    >)
        requires
            old(self).wf(),
        ensures
            final(self).wf(),
            final(self).address() == old(self).address(),
            r == if admin_gate(old(self)@, caller, StakingError::NotAdmin) is Err {
                Err::<(), StakingError>(admin_gate(old(self)@, caller, StakingError::NotAdmin)->Err_0)
            } else if old(self)@.pending_admin is Some {
                Err(StakingError::PendingAdminExists)
            } else {
                Ok(())
            },
            r is Ok ==> final(self)@ == (StakingState { pending_admin: Some((new_admin, now)), ..old(self)@ }),
            r is Err ==> final(self)@ == old(self)@,
    {
        match self.require_admin(&caller, StakingError::NotAdmin) {
            Err(e) => return Err(e),
            Ok(_) => {},
        }
        if self.pending_admin.is_some() {
            return Err(StakingError::PendingAdminExists);
        }
        self.pending_admin = Some((new_admin, now));
        Ok(())
    }

    /// The proposed successor takes over, before the proposal expires.
    pub fn accept_admin_transfer(&mut self, caller: Bytes32, now: u64) -> (r: Result<(), StakingError>)
        requires
            old(self).wf(),
        ensures
            final(self).wf(),
            final(self).address() == old(self).address(),
            (r, final(self)@) == accept_spec(old(self)@, caller, now),
    {
        let config = match self.config {
            Some(c) => c,
            None => return Err(StakingError::NotInitialized),
        };
        let (pending, proposed_at) = match self.pending_admin {
            Some(p) => p,
            None => return Err(StakingError::NoPendingAdmin),
        };
        if !bytes32_eq(&pending, &caller) {
            return Err(StakingError::NotPendingAdmin);
        }
        if now > proposed_at.saturating_add(PENDING_ADMIN_TTL) {
            return Err(StakingError::PendingAdminExpired);
        }
        self.pending_admin = None;
        self.config = Some(StakingConfig { admin: caller, ..config });
        Ok(())
    }

    /// Withdraws a pending proposal.
    pub fn cancel_admin_transfer(&mut self, caller: Bytes32) -> (r: Result<(), StakingError>)
        requires
            old(self).wf(),
        ensures
            final(self).wf(),
            final(self).address() == old(self).address(),
            r == if admin_gate(old(self)@, caller, StakingError::NotAdmin) is Err {
                Err::<(), StakingError>(admin_gate(old(self)@, caller, StakingError::NotAdmin)->Err_0)
            } else if old(self)@.pending_admin is None {
                Err(StakingError::NoPendingAdmin)
            } else {
                Ok(())
            },
            r is Ok ==> final(self)@ == (StakingState { pending_admin: None, ..old(self)@ }),
            r is Err ==> final(self)@ == old(self)@,
    {
        match self.require_admin(&caller, StakingError::NotAdmin) {
            Err(e) => return Err(e),
            Ok(_) => {},
        }
        if self.pending_admin.is_none() {
            return Err(StakingError::NoPendingAdmin);
        }
        self.pending_admin = None;
        Ok(())
    }
}

/// An emergency exit splits the stake exactly: payout plus penalty is the
/// staked amount, the staked total falls by it and the pool rises by the
/// penalty.
pub proof fn lemma_exit_splits_the_stake(s: StakingState, contract: Bytes32, user: Bytes32)
    requires
        unstake_spec(s, contract, user).0 is Ok,
        unstake_fits(s, user),
    ensures
        ({
            let (r, t) = unstake_spec(s, contract, user);
            let (payout, mv) = r->Ok_0;
            let amount = s.stakes[user].amount;
            &&& payout + (t.penalty_pool - s.penalty_pool) == amount
            &&& s.total_staked - t.total_staked == amount
            &&& mv.amount == payout && mv.to == user
            &&& !t.stakes.contains_key(user)
        }),
{
}

/// Withdrawing penalties never touches staked principal, and never takes
/// the pool below zero.
pub proof fn lemma_penalties_never_touch_principal(
    s: StakingState,
    contract: Bytes32,
    caller: Bytes32,
    recipient: Bytes32,
    amount: i128,
)
    requires
        s.penalty_pool >= 0,
    ensures
        ({
            let t = withdraw_spec(s, contract, caller, recipient, amount).1;
            &&& t.total_staked == s.total_staked
            &&& t.stakes == s.stakes
            &&& t.penalty_pool >= 0
        }),
{
}

/// Pausing stops new stakes but never an emergency exit.
pub proof fn lemma_pause_blocks_stakes_not_exits(
    s: StakingState,
    contract: Bytes32,
    user: Bytes32,
    tier: Bytes32,
    amount: i128,
    now: u64,
)
    requires
        s.paused,
        s.config is Some,
        s.tiers.contains_key(tier),
        s.active_tiers.contains(tier),
        amount >= s.tiers[tier].min_amount,
        s.stakes.contains_key(user),
    ensures
        stake_spec(s, contract, user, tier, amount, now) == (
            Err::<TokenMove, StakingError>(StakingError::ContractPaused),
            s,
        ),
        unstake_spec(s, contract, user).0 is Ok,
{
}

/// A deactivated tier takes no new stakes, and stays registered.
pub proof fn lemma_deactivated_tier_takes_no_stakes(
    s: StakingState,
    contract: Bytes32,
    user: Bytes32,
    name: Bytes32,
    amount: i128,
    now: u64,
)
    requires
        s.config is Some,
        s.tiers.contains_key(name),
    ensures
        ({
            let t = StakingState { active_tiers: without(s.active_tiers, name), ..s };
            stake_spec(t, contract, user, name, amount, now) == (
                Err::<TokenMove, StakingError>(StakingError::TierInactive),
                t,
            ) && t.tiers.contains_key(name)
        }),
{
    lemma_without_drops(s.active_tiers, name);
}

/// Repeated stakes accumulate in one record: the principal is the sum of
/// the deposits and the tier and start of the first stay.
pub proof fn lemma_repeated_stakes_merge(
    s: StakingState,
    contract: Bytes32,
    user: Bytes32,
    tier: Bytes32,
    amount: i128,
    now: u64,
)
    requires
        stake_spec(s, contract, user, tier, amount, now).0 is Ok,
        s.stakes.contains_key(user),
        stake_fits(s, user, amount),
    ensures
        ({
            let t = stake_spec(s, contract, user, tier, amount, now).1;
            &&& t.stakes[user].amount == s.stakes[user].amount + amount
            &&& t.stakes[user].tier == s.stakes[user].tier
            &&& t.stakes[user].staked_at == s.stakes[user].staked_at
            &&& t.total_staked == s.total_staked + amount
        }),
{
}

} // verus!
