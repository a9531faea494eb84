//! The platform utility token: a fixed supply minted once to the admin,
//! transfers with an optional royalty to a configured recipient,
//! expiring allowances, pausing, and a two-step admin hand-over.
//!
//! A transfer never creates or destroys tokens: what leaves the sender is
//! exactly what reaches the receiver and the royalty recipient. A royalty
//! is at most 100% of a transfer, rounded down. A refused call changes
//! nothing.
use vstd::prelude::*;
use crate::table::{Bytes32, Table, bytes32_eq};

verus! {

#[derive(Copy, Clone, Debug, PartialEq, Eq, Structural)]
pub enum TokenError {
    AlreadyInitialized,
    NotInitialized,
    InsufficientBalance,
    InsufficientAllowance,
    AllowanceNotFound,
    AllowanceExpired,
    InvalidAmount,
    Unauthorized,
    RoyaltyBpsTooHigh,
    ArithmeticOverflow,
    ContractPaused,
    NoPendingAdmin,
}

impl TokenError {
    /// The stable numeric code a client sees.
    pub fn code(self) -> (c: u32)
        ensures
            c == match self {
                TokenError::AlreadyInitialized => 1u32,
                TokenError::NotInitialized => 2u32,
                TokenError::InsufficientBalance => 3u32,
                TokenError::InsufficientAllowance => 4u32,
                TokenError::AllowanceNotFound => 5u32,
                TokenError::AllowanceExpired => 6u32,
                TokenError::InvalidAmount => 7u32,
                TokenError::Unauthorized => 8u32,
                TokenError::RoyaltyBpsTooHigh => 9u32,
                TokenError::ArithmeticOverflow => 10u32,
                TokenError::ContractPaused => 11u32,
                TokenError::NoPendingAdmin => 12u32,
            },
    {
        match self {
            TokenError::AlreadyInitialized => 1,
            TokenError::NotInitialized => 2,
            TokenError::InsufficientBalance => 3,
            TokenError::InsufficientAllowance => 4,
            TokenError::AllowanceNotFound => 5,
            TokenError::AllowanceExpired => 6,
            TokenError::InvalidAmount => 7,
            TokenError::Unauthorized => 8,
            TokenError::RoyaltyBpsTooHigh => 9,
            TokenError::ArithmeticOverflow => 10,
            TokenError::ContractPaused => 11,
            TokenError::NoPendingAdmin => 12,
        }
    }
}

/// Who receives a royalty, and how much of each transfer, in basis points.
#[derive(Copy, Clone, Debug, PartialEq, Eq)]
pub struct RoyaltyConfig {
    pub recipient: Bytes32,
    pub bps: u32,
}

/// What a spender may move for an owner, until an optional expiry.
#[derive(Copy, Clone, Debug, PartialEq, Eq, Structural)]
pub struct Allowance {
    pub amount: i128,
    pub expires_at: Option<u64>,
}

/// An account's balance: zero until first written.
pub open spec fn bal(m: Map<Bytes32, i128>, a: Bytes32) -> int {
    if m.contains_key(a) {
        m[a] as int
    } else {
        0
    }
}

pub open spec fn fits(x: int) -> bool {
    i128::MIN <= x <= i128::MAX
}

/// The royalty a transfer of `amount` owes, or `None` when the product
/// overflows.
pub open spec fn royalty_due(royalty: Option<RoyaltyConfig>, amount: i128) -> Option<int> {
    match royalty {
        None => Some(0),
        Some(c) => if !fits(amount * c.bps) {
            None
        } else {
            Some((amount * c.bps) / 10_000)
        },
    }
}

/// The balances after moving `amount` from `from` to `to`, the royalty
/// going to its recipient.
pub open spec fn transfer_spec(
    balances: Map<Bytes32, i128>,
    royalty: Option<RoyaltyConfig>,
    from: Bytes32,
    to: Bytes32,
    amount: i128,
) -> Result<Map<Bytes32, i128>, TokenError> {
    let from_balance = bal(balances, from);
    if amount <= 0 {
        Err(TokenError::InvalidAmount)
    } else if from_balance < amount {
        Err(TokenError::InsufficientBalance)
    } else if royalty_due(royalty, amount) is None {
        Err(TokenError::ArithmeticOverflow)
    } else {
        let fee = royalty_due(royalty, amount)->Some_0;
        let proceeds = amount - fee;
        if from == to {
            match royalty {
                Some(c) => if c.recipient != from && fee > 0 {
                    if !fits(bal(balances, c.recipient) + fee) {
                        Err(TokenError::ArithmeticOverflow)
                    } else {
                        Ok(
                            balances.insert(from, (from_balance - fee) as i128).insert(
                                c.recipient,
                                (bal(balances, c.recipient) + fee) as i128,
                            ),
                        )
                    }
                } else {
                    Ok(balances)
                },
                None => Ok(balances),
            }
        } else {
            let credit = if royalty matches Some(c) && c.recipient == to {
                amount as int
            } else {
                proceeds
            };
            if !fits(bal(balances, to) + credit) {
                Err(TokenError::ArithmeticOverflow)
            } else {
                let moved = balances.insert(from, (from_balance - amount) as i128).insert(
                    to,
                    (bal(balances, to) + credit) as i128,
                );
                match royalty {
                    Some(c) => if fee > 0 && c.recipient != to {
                        if !fits(bal(moved, c.recipient) + fee) {
                            Err(TokenError::ArithmeticOverflow)
                        } else {
                            Ok(moved.insert(c.recipient, (bal(moved, c.recipient) + fee) as i128))
                        }
                    } else {
                        Ok(moved)
                    },
                    None => Ok(moved),
                }
            }
        }
    }
}

/// The abstract storage of the token.
pub struct TokenState {
    pub initialized: bool,
    pub total_supply: Option<i128>,
    pub admin: Option<Bytes32>,
    pub pending_admin: Option<Bytes32>,
    pub paused: bool,
    pub royalty: Option<RoyaltyConfig>,
    pub balances: Map<Bytes32, i128>,
    pub allowances: Map<(Bytes32, Bytes32), Allowance>,
}

pub open spec fn admin_gate(s: TokenState, caller: Bytes32) -> Result<(), TokenError> {
    match s.admin {
        None => Err(TokenError::NotInitialized),
        Some(a) => if a == caller {
            Ok(())
        } else {
            Err(TokenError::Unauthorized)
        },
    }
}

/// What a spender may still move for an owner at `now`.
pub open spec fn allowance_of(s: TokenState, owner: Bytes32, spender: Bytes32, now: u64) -> i128 {
    if !s.allowances.contains_key((owner, spender)) {
        0
    } else {
        let a = s.allowances[(owner, spender)];
        match a.expires_at {
            Some(exp) => if now > exp {
                0
            } else {
                a.amount
            },
            None => a.amount,
        }
    }
}

pub open spec fn transfer_from_spec(
    s: TokenState,
    spender: Bytes32,
    from: Bytes32,
    to: Bytes32,
    amount: i128,
    now: u64,
) -> (Result<(), TokenError>, TokenState) {
    if s.paused {
        (Err(TokenError::ContractPaused), s)
    } else if !s.allowances.contains_key((from, spender)) {
        (Err(TokenError::AllowanceNotFound), s)
    } else {
        let a = s.allowances[(from, spender)];
        if a.expires_at matches Some(exp) && now > exp {
            (Err(TokenError::AllowanceExpired), s)
        } else if a.amount < amount {
            (Err(TokenError::InsufficientAllowance), s)
        } else {
            match transfer_spec(s.balances, s.royalty, from, to, amount) {
                Err(e) => (Err(e), s),
                Ok(b) => {
                    let left = (a.amount - amount) as i128;
                    let allowances = if left == 0 {
                        s.allowances.remove((from, spender))
                    } else {
                        s.allowances.insert((from, spender), Allowance { amount: left, ..a })
                    };
                    (Ok(()), TokenState { balances: b, allowances, ..s })
                },
            }
        }
    }
}

/// The token's storage.
pub struct TokenContract {
    initialized: bool,
    total_supply: Option<i128>,
    admin: Option<Bytes32>,
    pending_admin: Option<Bytes32>,
    paused: bool,
    royalty: Option<RoyaltyConfig>,
    balances: Table<Bytes32, i128>,
    allowances: Table<(Bytes32, Bytes32), Allowance>,
}

impl TokenContract {
    /// A configured royalty never exceeds the whole transfer.
    pub closed spec fn wf(&self) -> bool {
        &&& self.balances.wf()
        &&& self.allowances.wf()
        &&& (self.royalty matches Some(c) ==> c.bps <= 10_000)
    }

    pub closed spec fn view(&self) -> TokenState {
        TokenState {
            initialized: self.initialized,
            total_supply: self.total_supply,
            admin: self.admin,
            pending_admin: self.pending_admin,
            paused: self.paused,
            royalty: self.royalty,
            balances: self.balances.view(),
            allowances: self.allowances.view(),
        }
    }

    pub fn new() -> (c: Self)
        ensures
            c.wf(),
            c@ == (TokenState {
                initialized: false,
                total_supply: None,
                admin: None,
                pending_admin: None,
                paused: false,
                royalty: None,
                balances: Map::empty(),
                allowances: Map::empty(),
            }),
    {
        TokenContract {
            initialized: false,
            total_supply: None,
            admin: None,
            pending_admin: None,
            paused: false,
            royalty: None,
            balances: Table::new(),
            allowances: Table::new(),
        }
    }

    /// Mints the whole supply to the admin, once.
    pub fn initialize(&mut self, admin: Bytes32, total_supply: i128) -> (r: Result<(), TokenError>)
        requires
            old(self).wf(),
        ensures
            final(self).wf(),
            old(self)@.initialized ==> r == Err::<(), TokenError>(TokenError::AlreadyInitialized) && final(self)@
                == old(self)@,
            !old(self)@.initialized ==> r == Ok::<(), TokenError>(()) && final(self)@ == (TokenState {
                initialized: true,
                total_supply: Some(total_supply),
                admin: Some(admin),
                paused: false,
                balances: old(self)@.balances.insert(admin, total_supply),
                ..old(self)@
            }),
    {
        if self.initialized {
            return Err(TokenError::AlreadyInitialized);
        }
        self.total_supply = Some(total_supply);
        self.balances.insert(admin, total_supply);
        self.admin = Some(admin);
        self.paused = false;
        self.initialized = true;
        Ok(())
    }

    pub fn total_supply(&self) -> (r: Result<i128, TokenError>)
        ensures
            r == match self@.total_supply {
                Some(t) => Ok::<i128, TokenError>(t),
                None => Err(TokenError::NotInitialized),
            },
    {
        match self.total_supply {
            Some(t) => Ok(t),
            None => Err(TokenError::NotInitialized),
        }
    }

    pub fn balance(&self, user: Bytes32) -> (b: i128)
        requires
            self.wf(),
        ensures
            b == bal(self@.balances, user),
    {
        match self.balances.get(&user) {
            Some(b) => *b,
            None => 0,
        }
    }

    fn require_admin(&self, caller: &Bytes32) -> (r: Result<(), TokenError>)
        ensures
            r == admin_gate(self@, *caller),
    {
        match &self.admin {
            None => Err(TokenError::NotInitialized),
            Some(a) => if bytes32_eq(a, caller) {
                Ok(())
            } else {
                Err(TokenError::Unauthorized)
            },
        }
    }

    /// Moves `amount` from `from` to `to`, paying the royalty out of it.
    fn apply_transfer(&mut self, from: Bytes32, to: Bytes32, amount: i128) -> (r: Result<(), TokenError>)
        requires
            old(self).wf(),
        ensures
            final(self).wf(),
            match transfer_spec(old(self)@.balances, old(self)@.royalty, from, to, amount) {
                Ok(b) => r == Ok::<(), TokenError>(()) && final(self)@ == (TokenState { balances: b, ..old(self)@ }),
                Err(e) => r == Err::<(), TokenError>(e) && final(self)@ == old(self)@,
            },
    {
        if amount <= 0 {
            return Err(TokenError::InvalidAmount);
        }
        let from_balance = self.balance(from);
        if from_balance < amount {
            return Err(TokenError::InsufficientBalance);
        }
        let fee: i128 = match self.royalty {
            None => 0,
            Some(c) => match amount.checked_mul(c.bps as i128) {
                Some(p) => p / 10_000,
                None => return Err(TokenError::ArithmeticOverflow),
            },
        };
        proof {
            if let Some(c) = self.royalty {
                let p = amount * c.bps;
                assert(0 <= p / 10_000 <= amount) by (nonlinear_arith)
                    requires
                        p == amount * c.bps,
                        amount > 0,
                        0 <= c.bps <= 10_000,
                ;
            }
        }
        let proceeds = amount - fee;
        if bytes32_eq(&from, &to) {
            match self.royalty {
                Some(c) => {
                    if !bytes32_eq(&c.recipient, &from) && fee > 0 {
                        let recipient_balance = self.balance(c.recipient);
                        let recipient_after = match recipient_balance.checked_add(fee) {
                            Some(v) => v,
                            None => return Err(TokenError::ArithmeticOverflow),
                        };
                        self.balances.insert(from, from_balance - fee);
                        self.balances.insert(c.recipient, recipient_after);
                    }
                },
                None => {},
            }
            return Ok(());
        }
        let to_balance = self.balance(to);
        let credit = match self.royalty {
            Some(c) => if bytes32_eq(&c.recipient, &to) {
                amount
            } else {
                proceeds
            },
            None => proceeds,
        };
        let to_after = match to_balance.checked_add(credit) {
            Some(v) => v,
            None => return Err(TokenError::ArithmeticOverflow),
        };
        let from_after = from_balance - amount;
        let royalty_credit: Option<(Bytes32, i128)> = match self.royalty {
            Some(c) => if fee > 0 && !bytes32_eq(&c.recipient, &to) {
                let current = if bytes32_eq(&c.recipient, &from) {
                    from_after
                } else {
                    self.balance(c.recipient)
                };
                match current.checked_add(fee) {
                    Some(v) => Some((c.recipient, v)),
                    None => return Err(TokenError::ArithmeticOverflow),
                }
            } else {
                None
            },
            None => None,
        };
        self.balances.insert(from, from_after);
        self.balances.insert(to, to_after);
        match royalty_credit {
            Some((recipient, after)) => self.balances.insert(recipient, after),
            None => {},
        }
        Ok(())
    }

    /// Moves tokens between accounts. Authorization is the sender's own
    /// signature.
    pub fn transfer(&mut self, from: Bytes32, to: Bytes32, amount: i128) -> (r: Result<(), TokenError>)
        requires
            old(self).wf(),
        ensures
            final(self).wf(),
            old(self)@.paused ==> r == Err::<(), TokenError>(TokenError::ContractPaused) && final(self)@ == old(
                self,
            )@,
            !old(self)@.paused ==> match transfer_spec(old(self)@.balances, old(self)@.royalty, from, to, amount) {
                Ok(b) => r == Ok::<(), TokenError>(()) && final(self)@ == (TokenState { balances: b, ..old(self)@ }),
                Err(e) => r == Err::<(), TokenError>(e) && final(self)@ == old(self)@,
            },
    {
        if self.paused {
            return Err(TokenError::ContractPaused);
        }
        self.apply_transfer(from, to, amount)
    }

    pub fn pause(&mut self, admin: Bytes32) -> (r: Result<(), TokenError>)
        requires
            old(self).wf(),
        ensures
            final(self).wf(),
            r == admin_gate(old(self)@, admin),
            r is Ok ==> final(self)@ == (TokenState { paused: true, ..old(self)@ }),
            r is Err ==> final(self)@ == old(self)@,
    {
        match self.require_admin(&admin) {
            Err(e) => return Err(e),
            Ok(()) => {},
        }
        self.paused = true;
        Ok(())
    }

    pub fn unpause(&mut self, admin: Bytes32) -> (r: Result<(), TokenError>)
        requires
            old(self).wf(),
        ensures
            final(self).wf(),
            r == admin_gate(old(self)@, admin),
            r is Ok ==> final(self)@ == (TokenState { paused: false, ..old(self)@ }),
            r is Err ==> final(self)@ == old(self)@,
    {
        match self.require_admin(&admin) {
            Err(e) => return Err(e),
            Ok(()) => {},
        }
        self.paused = false;
        Ok(())
    }

    pub fn is_paused(&self) -> (b: bool)
        ensures
            b == self@.paused,
    {
        self.paused
    }

    /// Names the next admin; the hand-over completes when it accepts.
    pub fn propose_admin(&mut self, current_admin: Bytes32, new_admin: Bytes32) -> (r: Result<(), TokenError>)
        requires
            old(self).wf(),
        ensures
            final(self).wf(),
            r == admin_gate(old(self)@, current_admin),
            r is Ok ==> final(self)@ == (TokenState { pending_admin: Some(new_admin), ..old(self)@ }),
            r is Err ==> final(self)@ == old(self)@,
    {
        match self.require_admin(&current_admin) {
            Err(e) => return Err(e),
            Ok(()) => {},
        }
        self.pending_admin = Some(new_admin);
        Ok(())
    }

    /// The proposed admin takes over.
    pub fn accept_admin(&mut self, new_admin: Bytes32) -> (r: Result<(), TokenError>)
        requires
            old(self).wf(),
        ensures
            final(self).wf(),
            r == match old(self)@.pending_admin {
                None => Err::<(), TokenError>(TokenError::NoPendingAdmin),
                Some(p) => if p == new_admin {
                    Ok(())
                } else {
                    Err(TokenError::Unauthorized)
                },
            },
            r is Ok ==> final(self)@ == (TokenState { admin: Some(new_admin), pending_admin: None, ..old(self)@ }),
            r is Err ==> final(self)@ == old(self)@,
    {
        match &self.pending_admin {
            None => return Err(TokenError::NoPendingAdmin),
            Some(p) => if !bytes32_eq(p, &new_admin) {
                return Err(TokenError::Unauthorized);
            },
        }
        self.admin = Some(new_admin);
        self.pending_admin = None;
        Ok(())
    }

    /// Authorizes replacing the contract code; the runtime performs the
    /// replacement only when this succeeds.
    pub fn upgrade(&self, admin: Bytes32, new_wasm_hash: Bytes32) -> (r: Result<(), TokenError>)
        ensures
            r == admin_gate(self@, admin),
    {
        self.require_admin(&admin)
    }

    /// Configures the royalty, at most 100% of a transfer.
    pub fn set_royalty(&mut self, admin: Bytes32, recipient: Bytes32, bps: u32) -> (r: Result<(), TokenError>)
        requires
            old(self).wf(),
        ensures
            final(self).wf(),
            r == if admin_gate(old(self)@, admin) is Err {
                admin_gate(old(self)@, admin)
            } else if bps > 10_000 {
                Err(TokenError::RoyaltyBpsTooHigh)
            } else {
                Ok(())
            },
            r is Ok ==> final(self)@ == (TokenState {
                royalty: Some(RoyaltyConfig { recipient, bps }),
                ..old(self)@
            }),
            r is Err ==> final(self)@ == old(self)@,
    {
        match self.require_admin(&admin) {
            Err(e) => return Err(e),
            Ok(()) => {},
        }
        if bps > 10_000 {
            return Err(TokenError::RoyaltyBpsTooHigh);
        }
        self.royalty = Some(RoyaltyConfig { recipient, bps });
        Ok(())
    }

    /// The configured royalty, if any, as stored.
    pub fn get_royalty(&self) -> (r: Option<RoyaltyConfig>)
        ensures
            r == self@.royalty,
    {
        self.royalty
    }

    /// The configured royalty, if any.
    pub fn royalty(&self) -> (r: Option<RoyaltyConfig>)
        ensures
            r == self@.royalty,
    {
        self.get_royalty()
    }

    /// Lets `spender` move up to `amount` of `owner`'s tokens until
    /// `expires_at`. Authorization is the owner's own signature.
    pub fn approve(&mut self, owner: Bytes32, spender: Bytes32, amount: i128, expires_at: Option<u64>)
        requires
            old(self).wf(),
        ensures
            final(self).wf(),
            final(self)@ == (TokenState {
                allowances: old(self)@.allowances.insert((owner, spender), Allowance { amount, expires_at }),
                ..old(self)@
            }),
    {
        self.allowances.insert((owner, spender), Allowance { amount, expires_at });
    }

    /// What `spender` may still move for `owner` at `now`; zero once
    /// expired.
    pub fn allowance(&self, owner: Bytes32, spender: Bytes32, now: u64) -> (a: i128)
        requires
            self.wf(),
        ensures
            a == allowance_of(self@, owner, spender, now),
    {
        match self.allowances.get(&(owner, spender)) {
            Some(allow) => match allow.expires_at {
                Some(exp) => if now > exp {
                    0
                } else {
                    allow.amount
                },
                None => allow.amount,
            },
            None => 0,
        }
    }

    /// Moves `owner`'s tokens on a spender's allowance, which shrinks by the
    /// amount and disappears when spent.
    pub fn transfer_from(&mut self, spender: Bytes32, from: Bytes32, to: Bytes32, amount: i128, now: u64) -> (r:
        Result<(), TokenError>)
        requires
            old(self).wf(),
        ensures
            final(self).wf(),
            (r, final(self)@) == transfer_from_spec(old(self)@, spender, from, to, amount, now),
    {
        if self.paused {
            return Err(TokenError::ContractPaused);
        }
        let allow = match self.allowances.get(&(from, spender)) {
            Some(a) => *a,
            None => return Err(TokenError::AllowanceNotFound),
        };
        match allow.expires_at {
            Some(exp) => if now > exp {
                return Err(TokenError::AllowanceExpired);
            },
            None => {},
        }
        if allow.amount < amount {
            return Err(TokenError::InsufficientAllowance);
        }
        match self.apply_transfer(from, to, amount) {
            Err(e) => return Err(e),
            Ok(()) => {},
        }
        proof {
            assert(amount > 0);
        }
        let left = allow.amount - amount;
        if left == 0 {
            self.allowances.remove(&(from, spender));
        } else {
            self.allowances.insert((from, spender), Allowance { amount: left, ..allow });
        }
        Ok(())
    }

    pub fn revoke_allowance(&mut self, owner: Bytes32, spender: Bytes32)
        requires
            old(self).wf(),
        ensures
            final(self).wf(),
            final(self)@ == (TokenState { allowances: old(self)@.allowances.remove((owner, spender)), ..old(self)@ }),
    {
        self.allowances.remove(&(owner, spender));
    }
}

/// The net change of an account's balance.
pub open spec fn delta(before: Map<Bytes32, i128>, after: Map<Bytes32, i128>, a: Bytes32) -> int {
    bal(after, a) - bal(before, a)
}

/// A transfer conserves tokens: only the sender, the receiver and the
/// royalty recipient change, and their changes add up to zero.
pub proof fn lemma_transfer_conserves_tokens(
    balances: Map<Bytes32, i128>,
    royalty: Option<RoyaltyConfig>,
    from: Bytes32,
    to: Bytes32,
    amount: i128,
    other: Bytes32,
)
    requires
        royalty matches Some(c) ==> c.bps <= 10_000,
        transfer_spec(balances, royalty, from, to, amount) is Ok,
    ensures
        ({
            let after = transfer_spec(balances, royalty, from, to, amount)->Ok_0;
            let r = match royalty {
                Some(c) => c.recipient,
                None => from,
            };
            &&& (other != from && other != to && other != r) ==> delta(balances, after, other) == 0
            &&& delta(balances, after, from) + (if to != from {
                delta(balances, after, to)
            } else {
                0
            }) + (if r != from && r != to {
                delta(balances, after, r)
            } else {
                0
            }) == 0
        }),
{
    if let Some(c) = royalty {
        let p = amount * c.bps;
        assert(0 <= p / 10_000 <= amount) by (nonlinear_arith)
            requires
                p == amount * c.bps,
                amount > 0,
                0 <= c.bps <= 10_000,
        ;
    }
}

/// The royalty on a transfer is at most the transfer itself, rounded down
/// from its share in basis points.
pub proof fn lemma_royalty_is_bounded(c: RoyaltyConfig, amount: i128)
    requires
        c.bps <= 10_000,
        amount > 0,
        fits(amount * c.bps),
    ensures
        royalty_due(Some(c), amount) matches Some(fee) && 0 <= fee <= amount && fee * 10_000 <= amount * c.bps,
{
    let p = amount * c.bps;
    assert(0 <= p / 10_000 <= amount && (p / 10_000) * 10_000 <= p) by (nonlinear_arith)
        requires
            p == amount * c.bps,
            amount > 0,
            0 <= c.bps <= 10_000,
    ;
}

/// A transfer between distinct accounts with a royalty to a third succeeds
/// whenever the sender holds the amount and every resulting balance fits,
/// and moves exactly: the sender loses the amount, the recipient of the
/// royalty gains `amount * bps / 10_000` and the receiver the rest.
pub proof fn lemma_royalty_transfer_pays_out_exactly(
    balances: Map<Bytes32, i128>,
    c: RoyaltyConfig,
    from: Bytes32,
    to: Bytes32,
    amount: i128,
)
    requires
        c.bps <= 10_000,
        amount > 0,
        bal(balances, from) >= amount,
        fits(amount * c.bps),
        from != to,
        from != c.recipient,
        to != c.recipient,
        fits(bal(balances, to) + amount - (amount * c.bps) / 10_000),
        fits(bal(balances, c.recipient) + (amount * c.bps) / 10_000),
    ensures
        transfer_spec(balances, Some(c), from, to, amount) is Ok,
        ({
            let after = transfer_spec(balances, Some(c), from, to, amount)->Ok_0;
            let fee = (amount * c.bps) / 10_000;
            &&& bal(after, from) == bal(balances, from) - amount
            &&& bal(after, c.recipient) == bal(balances, c.recipient) + fee
            &&& bal(after, to) == bal(balances, to) + amount - fee
            &&& forall|x: Bytes32| x != from && x != to && x != c.recipient ==> bal(after, x) == bal(balances, x)
        }),
{
    let p = amount * c.bps;
    assert(0 <= p / 10_000 <= amount) by (nonlinear_arith)
        requires
            p == amount * c.bps,
            amount > 0,
            0 <= c.bps <= 10_000,
    ;
}

/// Without a royalty, a transfer between distinct accounts succeeds
/// whenever the sender holds the amount and the receiver's new balance
/// fits, and moves exactly the amount.
pub proof fn lemma_plain_transfer_moves_the_amount(
    balances: Map<Bytes32, i128>,
    from: Bytes32,
    to: Bytes32,
    amount: i128,
)
    requires
        amount > 0,
        bal(balances, from) >= amount,
        from != to,
        fits(bal(balances, to) + amount),
    ensures
        transfer_spec(balances, None, from, to, amount) is Ok,
        ({
            let after = transfer_spec(balances, None, from, to, amount)->Ok_0;
            &&& bal(after, from) == bal(balances, from) - amount
            &&& bal(after, to) == bal(balances, to) + amount
            &&& forall|x: Bytes32| x != from && x != to ==> bal(after, x) == bal(balances, x)
        }),
{
}

/// Whoever the parties are (sender, receiver and royalty recipient may
/// coincide), a transfer succeeds whenever the amount is positive, the
/// sender holds it, the royalty product fits, and the receiver's and the
/// recipient's balances could each take the whole amount.
pub proof fn lemma_transfer_succeeds_when_balances_fit(
    balances: Map<Bytes32, i128>,
    royalty: Option<RoyaltyConfig>,
    from: Bytes32,
    to: Bytes32,
    amount: i128,
)
    requires
        amount > 0,
        bal(balances, from) >= amount,
        fits(bal(balances, to) + amount),
        royalty matches Some(c) ==> c.bps <= 10_000 && fits(amount * c.bps) && fits(
            bal(balances, c.recipient) + amount,
        ),
    ensures
        transfer_spec(balances, royalty, from, to, amount) is Ok,
{
    if let Some(c) = royalty {
        let p = amount * c.bps;
        assert(0 <= p / 10_000 <= amount) by (nonlinear_arith)
            requires
                p == amount * c.bps,
                amount > 0,
                0 <= c.bps <= 10_000,
        ;
    }
}

} // verus!
