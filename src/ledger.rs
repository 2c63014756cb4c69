use vstd::prelude::*;

use crate::account::{AccountId, AllowanceKey};
use crate::table::Table;
use crate::{Balance, Error};

verus! {

/// Notification of a balance movement: no source is a mint, no destination a burn.
#[derive(Debug, Clone, Copy, PartialEq, Eq)]
pub struct Transfer {
    pub from: Option<AccountId>,
    pub to: Option<AccountId>,
    pub value: Balance,
}

/// Notification of a new absolute allowance.
#[derive(Debug, Clone, Copy, PartialEq, Eq)]
pub struct Approval {
    pub owner: AccountId,
    pub spender: AccountId,
    pub value: Balance,
}

/// A notification emitted by a ledger operation.
#[derive(Debug, Clone, Copy, PartialEq, Eq)]
pub enum Event {
    Transfer(Transfer),
    Approval(Approval),
}

pub open spec fn transfer_event(from: Option<AccountId>, to: Option<AccountId>, value: Balance) -> Event {
    Event::Transfer(Transfer { from, to, value })
}

pub open spec fn approval_event(owner: AccountId, spender: AccountId, value: Balance) -> Event {
    Event::Approval(Approval { owner, spender, value })
}

pub open spec fn key(owner: AccountId, spender: AccountId) -> AllowanceKey {
    AllowanceKey { owner, spender }
}

/// Balances after taking `value` from `who`.
pub open spec fn debit(m: Map<AccountId, nat>, who: AccountId, value: nat) -> Map<AccountId, nat> {
    m.insert(who, (m[who] - value) as nat)
}

/// Balances after giving `value` to `who`.
pub open spec fn credit(m: Map<AccountId, nat>, who: AccountId, value: nat) -> Map<AccountId, nat> {
    m.insert(who, m[who] + value)
}

pub open spec fn debit_opt(m: Map<AccountId, nat>, who: Option<AccountId>, value: nat) -> Map<
    AccountId,
    nat,
> {
    match who {
        Some(a) => debit(m, a, value),
        None => m,
    }
}

pub open spec fn credit_opt(m: Map<AccountId, nat>, who: Option<AccountId>, value: nat) -> Map<
    AccountId,
    nat,
> {
    match who {
        Some(a) => credit(m, a, value),
        None => m,
    }
}

/// Allowances after `owner` sets what `spender` may move to `value`.
pub open spec fn approved(
    a: Map<AllowanceKey, nat>,
    owner: AccountId,
    spender: AccountId,
    value: nat,
) -> Map<AllowanceKey, nat> {
    a.insert(key(owner, spender), value)
}

/// Setting the same allowance twice leaves what setting it once leaves.
pub proof fn lemma_approve_idempotent(
    a: Map<AllowanceKey, nat>,
    owner: AccountId,
    spender: AccountId,
    value: nat,
)
    ensures
        approved(approved(a, owner, spender, value), owner, spender, value) == approved(
            a,
            owner,
            spender,
            value,
        ),
{
    assert(approved(approved(a, owner, spender, value), owner, spender, value) =~= approved(
        a,
        owner,
        spender,
        value,
    ));
}

/// In every reachable (well-formed) ledger the supply is the sum of all balances.
pub proof fn lemma_supply_is_balance_sum(l: &Wasmerc20)
    requires
        l.wf(),
    ensures
        l.supply() == l.balance_total(),
{
}

/// In every well-formed ledger each balance lies between zero and the supply,
/// and each allowance is at least zero.
pub proof fn lemma_amounts_non_negative(l: &Wasmerc20)
    requires
        l.wf(),
    ensures
        forall|a: AccountId| 0 <= #[trigger] l.balances()[a] <= l.supply(),
        forall|k: AllowanceKey| 0 <= #[trigger] l.allowances()[k],
{
    assert forall|a: AccountId| 0 <= #[trigger] l.balances()[a] <= l.supply() by {
        l.lemma_balances_within_supply(a, a);
    }
}

/// A fungible-token ledger: balances, allowances and a privileged owner.
pub struct Wasmerc20 {
    total_supply: Balance,
    balances: Table<AccountId>,
    approval: Table<AllowanceKey>,
    owner: AccountId,
    events: Vec<Event>,
}

impl Wasmerc20 {
    /// The number of tokens in existence.
    pub closed spec fn supply(&self) -> nat {
        self.total_supply as nat
    }

    /// Balance of every identity, zero where none was recorded.
    pub closed spec fn balances(&self) -> Map<AccountId, nat> {
        self.balances@
    }

    /// Sum of every recorded balance.
    pub closed spec fn balance_total(&self) -> nat {
        self.balances.total()
    }

    /// Allowance of every (owner, spender) pair, zero where none was recorded.
    pub closed spec fn allowances(&self) -> Map<AllowanceKey, nat> {
        self.approval@
    }

    /// The one identity allowed to mint and burn.
    pub closed spec fn owner_id(&self) -> AccountId {
        self.owner
    }

    /// Every notification emitted so far, oldest first.
    pub closed spec fn log(&self) -> Seq<Event> {
        self.events@
    }

    /// Both tables are well formed and the supply equals the sum of all balances.
    /// `new` establishes this and every operation keeps it.
    pub closed spec fn wf(&self) -> bool {
        &&& self.balances.wf()
        &&& self.approval.wf()
        &&& self.total_supply as nat == self.balances.total()
    }

    /// Every balance is at most the supply; two distinct ones together too.
    pub proof fn lemma_balances_within_supply(&self, a: AccountId, b: AccountId)
        requires
            self.wf(),
        ensures
            self.balances()[a] <= self.supply(),
            a != b ==> self.balances()[a] + self.balances()[b] <= self.supply(),
    {
        self.balances.lemma_within_total(a, b);
    }

    /// Creates the ledger with `total_supply` credited to `caller`, who becomes its owner.
    pub fn new(caller: AccountId, total_supply: Balance) -> (l: Self)
        ensures
            l.wf(),
            l.supply() == total_supply,
            l.owner_id() == caller,
            forall|a: AccountId| #[trigger]
                l.balances()[a] == if a == caller {
                    total_supply as nat
                } else {
                    0
                },
            forall|k: AllowanceKey| #[trigger] l.allowances()[k] == 0,
            l.log() == seq![transfer_event(None, Some(caller), total_supply)],
    {
        let mut balances = Table::new();
        balances.set(caller, total_supply);
        let mut events = Vec::new();
        events.push(Event::Transfer(Transfer { from: None, to: Some(caller), value: total_supply }));
        Wasmerc20 { total_supply, balances, approval: Table::new(), owner: caller, events }
    }

    pub fn owner(&self) -> (r: AccountId)
        ensures
            r == self.owner_id(),
    {
        self.owner
    }

    pub fn total_supply(&self) -> (r: Balance)
        ensures
            r == self.supply(),
    {
        self.total_supply
    }

    pub fn balance_of(&self, who: AccountId) -> (r: Balance)
        requires
            self.wf(),
        ensures
            r == self.balances()[who],
    {
        self.balances.get(&who)
    }

    /// What `spender` may still move out of `owner`'s balance.
    pub fn approval(&self, owner: AccountId, spender: AccountId) -> (r: Balance)
        requires
            self.wf(),
        ensures
            r == self.allowances()[key(owner, spender)],
    {
        self.approval.get(&AllowanceKey { owner, spender })
    }

    /// The notifications emitted so far, oldest first.
    pub fn events(&self) -> (r: &Vec<Event>)
        ensures
            r@ == self.log(),
    {
        &self.events
    }

    /// Debits `from` and credits `to` where present, then records the movement.
    /// Sufficiency is the caller's to check.
    fn _transfer(&mut self, from: Option<AccountId>, to: Option<AccountId>, value: Balance)
        requires
            old(self).balances.wf(),
            old(self).approval.wf(),
            from matches Some(a) ==> old(self).balances()[a] >= value,
            to matches Some(b) ==> debit_opt(old(self).balances(), from, value as nat)[b] + value
                <= u128::MAX,
        ensures
            final(self).balances.wf(),
            final(self).approval == old(self).approval,
            final(self).total_supply == old(self).total_supply,
            final(self).owner == old(self).owner,
            final(self).balances() == credit_opt(
                debit_opt(old(self).balances(), from, value as nat),
                to,
                value as nat,
            ),
            final(self).balance_total() + (if from is Some {
                value as nat
            } else {
                0
            }) == old(self).balance_total() + (if to is Some {
                value as nat
            } else {
                0
            }),
            final(self).log() == old(self).log().push(transfer_event(from, to, value)),
    {
        if let Some(a) = from {
            let from_balance = self.balances.get(&a);
            self.balances.set(a, from_balance - value);
        }
        if let Some(b) = to {
            let to_balance = self.balances.get(&b);
            self.balances.set(b, to_balance + value);
        }
        self.events.push(Event::Transfer(Transfer { from, to, value }));
    }

    /// Moves `value` from `caller` to `to`.
    pub fn transfer(&mut self, caller: AccountId, to: AccountId, value: Balance) -> (r: Result<
        (),
        Error,
    >)
        requires
            old(self).wf(),
        ensures
            final(self).wf(),
            final(self).owner_id() == old(self).owner_id(),
            r is Err ==> *final(self) == *old(self),
            old(self).balances()[caller] < value ==> r == Err::<(), Error>(
                Error::InsufficientBalance,
            ) && *final(self) == *old(self),
            old(self).balances()[caller] >= value ==> {
                &&& r == Ok::<(), Error>(())
                &&& final(self).supply() == old(self).supply()
                &&& final(self).balances() == credit(
                    debit(old(self).balances(), caller, value as nat),
                    to,
                    value as nat,
                )
                &&& final(self).allowances() == old(self).allowances()
                &&& final(self).log() == old(self).log().push(
                    transfer_event(Some(caller), Some(to), value),
                )
            },
    {
        let from_balance = self.balance_of(caller);
        if from_balance < value {
            return Err(Error::InsufficientBalance);
        }
        proof {
            self.lemma_balances_within_supply(caller, to);
        }
        self._transfer(Some(caller), Some(to), value);
        Ok(())
    }

    /// `caller` moves `value` out of `from`'s balance to `to`, consuming allowance.
    pub fn transfer_from(
        &mut self,
        caller: AccountId,
        from: AccountId,
        to: AccountId,
        value: Balance,
    ) -> (r: Result<(), Error>)
        requires
            old(self).wf(),
        ensures
            final(self).wf(),
            final(self).owner_id() == old(self).owner_id(),
            r is Err ==> *final(self) == *old(self),
            r is Ok ==> final(self).allowances()[key(from, caller)] + value == old(
                self,
            ).allowances()[key(from, caller)],
            old(self).allowances()[key(from, caller)] < value ==> r == Err::<(), Error>(
                Error::InsufficientApproval,
            ) && *final(self) == *old(self),
            old(self).allowances()[key(from, caller)] >= value && old(self).balances()[from]
                < value ==> r == Err::<(), Error>(Error::InsufficientBalance) && *final(self)
                == *old(self),
            old(self).allowances()[key(from, caller)] >= value && old(self).balances()[from]
                >= value ==> {
                &&& r == Ok::<(), Error>(())
                &&& final(self).supply() == old(self).supply()
                &&& final(self).balances() == credit(
                    debit(old(self).balances(), from, value as nat),
                    to,
                    value as nat,
                )
                &&& final(self).allowances() == old(self).allowances().insert(
                    key(from, caller),
                    (old(self).allowances()[key(from, caller)] - value) as nat,
                )
                &&& final(self).log() == old(self).log().push(
                    transfer_event(Some(from), Some(to), value),
                )
            },
    {
        let approval = self.approval(from, caller);
        if approval < value {
            return Err(Error::InsufficientApproval);
        }
        let from_balance = self.balance_of(from);
        if from_balance < value {
            return Err(Error::InsufficientBalance);
        }
        proof {
            self.lemma_balances_within_supply(from, to);
        }
        self.approval.set(AllowanceKey { owner: from, spender: caller }, approval - value);
        self._transfer(Some(from), Some(to), value);
        Ok(())
    }

    /// `caller` lets `spender` move up to `value` of its balance, replacing any earlier allowance.
    pub fn approve(&mut self, caller: AccountId, spender: AccountId, value: Balance) -> (r: Result<
        (),
        Error,
    >)
        requires
            old(self).wf(),
        ensures
            final(self).wf(),
            r == Ok::<(), Error>(()),
            final(self).owner_id() == old(self).owner_id(),
            final(self).supply() == old(self).supply(),
            final(self).balances() == old(self).balances(),
            final(self).allowances() == approved(old(self).allowances(), caller, spender, value as nat),
            final(self).log() == old(self).log().push(approval_event(caller, spender, value)),
    {
        self.approval.set(AllowanceKey { owner: caller, spender }, value);
        self.events.push(Event::Approval(Approval { owner: caller, spender, value }));
        Ok(())
    }

    /// The owner creates `value` new tokens in its own balance.
    pub fn mint(&mut self, caller: AccountId, value: Balance) -> (r: Result<(), Error>)
        requires
            old(self).wf(),
            caller == old(self).owner_id() ==> old(self).supply() + value <= u128::MAX,
        ensures
            final(self).wf(),
            final(self).owner_id() == old(self).owner_id(),
            r is Err ==> *final(self) == *old(self),
            caller != old(self).owner_id() ==> r == Err::<(), Error>(Error::IllegalManager)
                && *final(self) == *old(self),
            caller == old(self).owner_id() ==> {
                &&& r == Ok::<(), Error>(())
                &&& final(self).supply() == old(self).supply() + value
                &&& final(self).balances() == credit(old(self).balances(), caller, value as nat)
                &&& final(self).allowances() == old(self).allowances()
                &&& final(self).log() == old(self).log().push(
                    transfer_event(None, Some(caller), value),
                )
            },
    {
        if !caller.same(&self.owner) {
            return Err(Error::IllegalManager);
        }
        proof {
            self.lemma_balances_within_supply(caller, caller);
        }
        let total = self.total_supply + value;
        self._transfer(None, Some(caller), value);
        self.total_supply = total;
        Ok(())
    }

    /// The owner destroys `value` tokens of its own balance.
    pub fn burn(&mut self, caller: AccountId, value: Balance) -> (r: Result<(), Error>)
        requires
            old(self).wf(),
        ensures
            final(self).wf(),
            final(self).owner_id() == old(self).owner_id(),
            r is Err ==> *final(self) == *old(self),
            caller != old(self).owner_id() ==> r == Err::<(), Error>(Error::IllegalManager)
                && *final(self) == *old(self),
            caller == old(self).owner_id() && old(self).balances()[caller] < value ==> r == Err::<
                (),
                Error,
            >(Error::InsufficientBalance) && *final(self) == *old(self),
            caller == old(self).owner_id() && old(self).balances()[caller] >= value ==> {
                &&& r == Ok::<(), Error>(())
                &&& final(self).supply() == old(self).supply() - value
                &&& final(self).balances() == debit(old(self).balances(), caller, value as nat)
                &&& final(self).allowances() == old(self).allowances()
                &&& final(self).log() == old(self).log().push(
                    transfer_event(Some(caller), None, value),
                )
            },
    {
        if !caller.same(&self.owner) {
            return Err(Error::IllegalManager);
        }
        let caller_balance = self.balance_of(caller);
        if caller_balance < value {
            return Err(Error::InsufficientBalance);
        }
        proof {
            self.lemma_balances_within_supply(caller, caller);
        }
        let total = self.total_supply - value;
        self._transfer(Some(caller), None, value);
        self.total_supply = total;
        Ok(())
    }
}

} // verus!
