//! Balances: the one-time issue of the supply, transfers between accounts,
//! and the minting of rewards.

use vstd::prelude::*;
use crate::amount::{checked_add, checked_sub, sum_fits, TokenBalance};
use crate::state::{held, inv_reads_records_only, Ledger, LedgerView};
use crate::types::{AccountId, Erc20Token, Error, Event, TokenView, MAX_NAME_LEN, MAX_TICKER_LEN};

verus! {

impl LedgerView {
    /// Names the token and issues the whole supply to `caller`, who becomes
    /// the treasury. Refused once the token is initialized, and for a name or
    /// a ticker that is too long.
    pub open spec fn initialize(
        self,
        caller: AccountId,
        name: Seq<u8>,
        ticker: Seq<u8>,
        total_supply: TokenBalance,
    ) -> Result<LedgerView, Error> {
        if self.initialized {
            Err(Error::AlreadyInitialized)
        } else if name.len() > MAX_NAME_LEN {
            Err(Error::NameTooLong)
        } else if ticker.len() > MAX_TICKER_LEN {
            Err(Error::TickerTooLong)
        } else {
            Ok(
                LedgerView {
                    initialized: true,
                    treasury: caller,
                    token: TokenView { name, ticker, total_supply },
                    balances: self.balances.insert(caller, total_supply),
                    ..self
                },
            )
        }
    }

    /// Moves `amount` from `from` to `to` and emits a `Transfer`.
    ///
    /// Refused when `from` has no balance entry, when it holds less than
    /// `amount`, and when `to`'s balance before the move plus `amount` does
    /// not fit. The debit is applied first and the credit to what it leaves,
    /// so a transfer to oneself changes no balance.
    pub open spec fn transfer(self, from: AccountId, to: AccountId, amount: TokenBalance) -> Result<
        LedgerView,
        Error,
    > {
        if !self.balances.dom().contains(from) {
            Err(Error::UnknownAccount)
        } else if self.balances[from] < amount {
            Err(Error::InsufficientBalance)
        } else if !sum_fits(self.balance_of(to), amount) {
            Err(Error::ArithmeticOverflow)
        } else {
            let debited = self.balances.insert(from, (self.balances[from] - amount) as TokenBalance);
            let credited = debited.insert(to, (held(debited, to) + amount) as TokenBalance);
            Ok(
                LedgerView {
                    balances: credited,
                    events: self.events.push(Event::Transfer(from, to, amount)),
                    ..self
                },
            )
        }
    }

    /// Raises `to`'s balance by `amount` with no matching debit: a reward is
    /// minted. Refused when the new balance does not fit.
    pub open spec fn credit(self, to: AccountId, amount: TokenBalance) -> Result<LedgerView, Error> {
        if !sum_fits(self.balance_of(to), amount) {
            Err(Error::ArithmeticOverflow)
        } else {
            Ok(
                LedgerView {
                    balances: self.balances.insert(to, (self.balance_of(to) + amount) as TokenBalance),
                    ..self
                },
            )
        }
    }
}

/// A successful transfer leaves the sum of the two balances as it was and
/// changes no other balance, nor which accounts have an entry besides the
/// receiver.
pub proof fn transfer_conserves(s: LedgerView, from: AccountId, to: AccountId, amount: TokenBalance)
    requires
        s.transfer(from, to, amount) is Ok,
    ensures
        ({
            let n = s.transfer(from, to, amount)->Ok_0;
            &&& n.balance_of(from) + n.balance_of(to) == s.balance_of(from) + s.balance_of(to)
            &&& forall|other: AccountId|
                other != from && other != to ==> {
                    &&& n.balances.dom().contains(other) == s.balances.dom().contains(other)
                    &&& #[trigger] n.balance_of(other) == s.balance_of(other)
                }
        }),
{
}

/// A transfer never takes more out of a balance than it holds: one that
/// would is refused, and one that succeeds leaves the sender, where the
/// receiver is another account, with exactly the difference.
pub proof fn transfer_never_overdraws(s: LedgerView, from: AccountId, to: AccountId, amount: TokenBalance)
    ensures
        s.balance_of(from) < amount ==> s.transfer(from, to, amount) is Err,
        s.transfer(from, to, amount) matches Ok(n) ==> {
            &&& amount <= s.balance_of(from)
            &&& from != to ==> n.balance_of(from) == s.balance_of(from) - amount
            &&& from != to ==> n.balance_of(to) == s.balance_of(to) + amount
        },
{
}

/// A successful transfer changes nothing but balances and the pending
/// notifications, and keeps the invariant.
pub proof fn transfer_keeps_rest(s: LedgerView, from: AccountId, to: AccountId, amount: TokenBalance)
    requires
        s.inv(),
    ensures
        s.transfer(from, to, amount) matches Ok(n) ==> {
            &&& n.inv()
            &&& n == (LedgerView { balances: n.balances, events: n.events, ..s })
        },
{
    if let Ok(n) = s.transfer(from, to, amount) {
        inv_reads_records_only(s, n);
    }
}

impl Ledger {
    /// Names the token and issues the whole supply to `caller`, who becomes
    /// the treasury.
    pub fn initialize(
        &mut self,
        caller: AccountId,
        name: Vec<u8>,
        ticker: Vec<u8>,
        total_supply: TokenBalance,
    ) -> (r: Result<(), Error>)
        requires
            old(self).wf(),
        ensures
            final(self).wf(),
            match old(self)@.initialize(caller, name@, ticker@, total_supply) {
                Ok(next) => r is Ok && final(self)@ == next,
                Err(e) => r == Err::<(), Error>(e) && final(self)@ == old(self)@,
            },
    {
        if self.initialized {
            return Err(Error::AlreadyInitialized);
        }
        if name.len() > MAX_NAME_LEN {
            return Err(Error::NameTooLong);
        }
        if ticker.len() > MAX_TICKER_LEN {
            return Err(Error::TickerTooLong);
        }
        let ghost before = self@;
        self.initialized = true;
        self.treasury = caller;
        self.token_info = Erc20Token { name, ticker, total_supply };
        self.balances.insert(caller, total_supply);
        proof {
            let next = before.initialize(caller, name@, ticker@, total_supply)->Ok_0;
            assert(self@ =~= next);
            inv_reads_records_only(before, next);
        }
        Ok(())
    }

    /// What a transfer would leave the sender with and raise the receiver's
    /// balance from before to, or why it would be refused. The two amounts
    /// come from the checked subtraction and addition of the amount type.
    fn transfer_amounts(&self, from: AccountId, to: AccountId, amount: TokenBalance) -> (r: Result<
        (TokenBalance, TokenBalance),
        Error,
    >)
        requires
            self.wf(),
        ensures
            match self@.transfer(from, to, amount) {
                Ok(_) => r matches Ok((rest, raised)) && rest == self@.balances[from] - amount && raised
                    == self@.balance_of(to) + amount,
                Err(e) => r == Err::<(TokenBalance, TokenBalance), Error>(e),
            },
    {
        let available = match self.balances.get(&from) {
            Some(amount_held) => *amount_held,
            None => { return Err(Error::UnknownAccount); },
        };
        let rest = match checked_sub(available, amount) {
            Some(rest) => rest,
            None => { return Err(Error::InsufficientBalance); },
        };
        let raised = match checked_add(self.balance_of(to), amount) {
            Some(raised) => raised,
            None => { return Err(Error::ArithmeticOverflow); },
        };
        Ok((rest, raised))
    }

    /// Whether a transfer would go through, and if not, why. Changes nothing.
    pub fn check_transfer(&self, from: AccountId, to: AccountId, amount: TokenBalance) -> (r: Result<
        (),
        Error,
    >)
        requires
            self.wf(),
        ensures
            match self@.transfer(from, to, amount) {
                Ok(_) => r is Ok,
                Err(e) => r == Err::<(), Error>(e),
            },
    {
        match self.transfer_amounts(from, to, amount) {
            Ok(_) => Ok(()),
            Err(e) => Err(e),
        }
    }

    /// Moves `amount` from `from` to `to` and emits a `Transfer`. Every
    /// movement of value between accounts goes through here.
    pub fn transfer(&mut self, from: AccountId, to: AccountId, amount: TokenBalance) -> (r: Result<
        (),
        Error,
    >)
        requires
            old(self).wf(),
        ensures
            final(self).wf(),
            match old(self)@.transfer(from, to, amount) {
                Ok(next) => r is Ok && final(self)@ == next,
                Err(e) => r == Err::<(), Error>(e) && final(self)@ == old(self)@,
            },
    {
        let (rest, raised) = match self.transfer_amounts(from, to, amount) {
            Ok(amounts) => amounts,
            Err(e) => { return Err(e); },
        };
        let ghost before = self@;
        if from != to {
            self.balances.insert(from, rest);
            self.balances.insert(to, raised);
        }
        self.events.push(Event::Transfer(from, to, amount));
        proof {
            let next = before.transfer(from, to, amount)->Ok_0;
            assert(self@.balances =~= next.balances);
            assert(self@ =~= next);
            transfer_keeps_rest(before, from, to, amount);
        }
        Ok(())
    }

    /// What a credit would raise the balance to, or why it would be refused.
    fn credit_amount(&self, to: AccountId, amount: TokenBalance) -> (r: Result<TokenBalance, Error>)
        requires
            self.wf(),
        ensures
            match self@.credit(to, amount) {
                Ok(_) => r matches Ok(raised) && raised == self@.balance_of(to) + amount,
                Err(e) => r == Err::<TokenBalance, Error>(e),
            },
    {
        match checked_add(self.balance_of(to), amount) {
            Some(raised) => Ok(raised),
            None => Err(Error::ArithmeticOverflow),
        }
    }

    /// Whether a reward could be credited, and if not, why. Changes nothing.
    pub fn check_credit(&self, to: AccountId, amount: TokenBalance) -> (r: Result<(), Error>)
        requires
            self.wf(),
        ensures
            match self@.credit(to, amount) {
                Ok(_) => r is Ok,
                Err(e) => r == Err::<(), Error>(e),
            },
    {
        match self.credit_amount(to, amount) {
            Ok(_) => Ok(()),
            Err(e) => Err(e),
        }
    }

    /// Raises `to`'s balance by `amount` with no matching debit.
    pub fn credit(&mut self, to: AccountId, amount: TokenBalance) -> (r: Result<(), Error>)
        requires
            old(self).wf(),
        ensures
            final(self).wf(),
            match old(self)@.credit(to, amount) {
                Ok(next) => r is Ok && final(self)@ == next,
                Err(e) => r == Err::<(), Error>(e) && final(self)@ == old(self)@,
            },
    {
        let raised = match self.credit_amount(to, amount) {
            Ok(raised) => raised,
            Err(e) => { return Err(e); },
        };
        let ghost before = self@;
        self.balances.insert(to, raised);
        proof {
            let next = before.credit(to, amount)->Ok_0;
            assert(self@ =~= next);
            inv_reads_records_only(before, next);
        }
        Ok(())
    }
}

} // verus!
