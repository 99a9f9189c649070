//! The ledger as a state machine: every request it accepts, as one value,
//! and the single entry point that routes a request to its operation.

use vstd::prelude::*;
use crate::amount::TokenBalance;
use crate::state::{Ledger, LedgerView};
use crate::types::{link_view, AccountId, Error};

verus! {

/// One request to the ledger. Who makes it is passed alongside.
#[derive(Clone, Debug, PartialEq)]
pub enum Call {
    /// Name the token and issue its supply to the caller.
    Initialize { name: Vec<u8>, ticker: Vec<u8>, total_supply: TokenBalance },
    /// Move `value` from the caller to `to`.
    Transfer { to: AccountId, value: TokenBalance },
    /// Let `spender` move `value` more out of the caller's balance.
    Approve { spender: AccountId, value: TokenBalance },
    /// Move `value` from `from` to `to` on the allowance that `from` gave the caller.
    TransferFrom { from: AccountId, to: AccountId, value: TokenBalance },
    /// Replace the caller's profile.
    UpdateUser { name: Vec<u8>, avatar: Vec<u8> },
    /// Register content for the caller.
    Upload { content_id: Vec<u8>, affiliate_link: Option<(AccountId, Vec<u8>)> },
    /// Record that the caller likes the content.
    Like { content_id: Vec<u8> },
    /// Append a comment of the caller's to the content.
    Comment { content_id: Vec<u8>, text: Vec<u8> },
    /// Append a variant to the content.
    AddVariant { content_id: Vec<u8>, variant: Vec<u8> },
    /// Open a referral pool of the caller's.
    CreatePool { url: Vec<u8>, total_credit: TokenBalance, single_credit: TokenBalance },
    /// Pay the caller one claim out of `founder`'s pool.
    Claim { founder: AccountId, url: Vec<u8> },
}

/// The mathematical value of a [`Call`].
pub enum CallView {
    Initialize { name: Seq<u8>, ticker: Seq<u8>, total_supply: TokenBalance },
    Transfer { to: AccountId, value: TokenBalance },
    Approve { spender: AccountId, value: TokenBalance },
    TransferFrom { from: AccountId, to: AccountId, value: TokenBalance },
    UpdateUser { name: Seq<u8>, avatar: Seq<u8> },
    Upload { content_id: Seq<u8>, affiliate_link: Option<(AccountId, Seq<u8>)> },
    Like { content_id: Seq<u8> },
    Comment { content_id: Seq<u8>, text: Seq<u8> },
    AddVariant { content_id: Seq<u8>, variant: Seq<u8> },
    CreatePool { url: Seq<u8>, total_credit: TokenBalance, single_credit: TokenBalance },
    Claim { founder: AccountId, url: Seq<u8> },
}

impl View for Call {
    type V = CallView;

    open spec fn view(&self) -> CallView {
        match *self {
            Call::Initialize { name, ticker, total_supply } => CallView::Initialize {
                name: name@,
                ticker: ticker@,
                total_supply,
            },
            Call::Transfer { to, value } => CallView::Transfer { to, value },
            Call::Approve { spender, value } => CallView::Approve { spender, value },
            Call::TransferFrom { from, to, value } => CallView::TransferFrom { from, to, value },
            Call::UpdateUser { name, avatar } => CallView::UpdateUser { name: name@, avatar: avatar@ },
            Call::Upload { content_id, affiliate_link } => CallView::Upload {
                content_id: content_id@,
                affiliate_link: link_view(affiliate_link),
            },
            Call::Like { content_id } => CallView::Like { content_id: content_id@ },
            Call::Comment { content_id, text } => CallView::Comment {
                content_id: content_id@,
                text: text@,
            },
            Call::AddVariant { content_id, variant } => CallView::AddVariant {
                content_id: content_id@,
                variant: variant@,
            },
            Call::CreatePool { url, total_credit, single_credit } => CallView::CreatePool {
                url: url@,
                total_credit,
                single_credit,
            },
            Call::Claim { founder, url } => CallView::Claim { founder, url: url@ },
        }
    }
}

impl LedgerView {
    /// What the request `call` of `caller` does to this state.
    pub open spec fn step(self, caller: AccountId, call: CallView) -> Result<LedgerView, Error> {
        match call {
            CallView::Initialize { name, ticker, total_supply } => self.initialize(
                caller,
                name,
                ticker,
                total_supply,
            ),
            CallView::Transfer { to, value } => self.transfer(caller, to, value),
            CallView::Approve { spender, value } => self.approve(caller, spender, value),
            CallView::TransferFrom { from, to, value } => self.transfer_from(caller, from, to, value),
            CallView::UpdateUser { name, avatar } => Ok(self.update_user(caller, name, avatar)),
            CallView::Upload { content_id, affiliate_link } => self.upload(
                caller,
                content_id,
                affiliate_link,
            ),
            CallView::Like { content_id } => self.like(caller, content_id),
            CallView::Comment { content_id, text } => self.comment(caller, content_id, text),
            CallView::AddVariant { content_id, variant } => self.add_variant(caller, content_id, variant),
            CallView::CreatePool { url, total_credit, single_credit } => self.create_pool(
                caller,
                url,
                total_credit,
                single_credit,
            ),
            CallView::Claim { founder, url } => self.claim(caller, founder, url),
        }
    }

    /// The state after the requests in `calls`, made in order, each by the
    /// caller it is paired with. A refused request leaves the state as it is.
    pub open spec fn run(self, calls: Seq<(AccountId, CallView)>) -> LedgerView
        decreases calls.len(),
    {
        if calls.len() == 0 {
            self
        } else {
            let before = self.run(calls.drop_last());
            before.after(before.step(calls.last().0, calls.last().1))
        }
    }
}

impl Ledger {
    /// Carries out the request `call` of `caller`.
    pub fn dispatch(&mut self, caller: AccountId, call: Call) -> (r: Result<(), Error>)
        requires
            old(self).wf(),
        ensures
            final(self).wf(),
            match old(self)@.step(caller, call@) {
                Ok(next) => r is Ok && final(self)@ == next,
                Err(e) => r == Err::<(), Error>(e) && final(self)@ == old(self)@,
            },
    {
        match call {
            Call::Initialize { name, ticker, total_supply } => self.initialize(
                caller,
                name,
                ticker,
                total_supply,
            ),
            Call::Transfer { to, value } => self.transfer(caller, to, value),
            Call::Approve { spender, value } => self.approve(caller, spender, value),
            Call::TransferFrom { from, to, value } => self.transfer_from(caller, from, to, value),
            Call::UpdateUser { name, avatar } => {
                self.update_user(caller, name, avatar);
                Ok(())
            },
            Call::Upload { content_id, affiliate_link } => self.upload(caller, content_id, affiliate_link),
            Call::Like { content_id } => self.like(caller, content_id),
            Call::Comment { content_id, text } => self.comment(caller, content_id, text),
            Call::AddVariant { content_id, variant } => self.add_variant(caller, content_id, variant),
            Call::CreatePool { url, total_credit, single_credit } => self.create_pool(
                caller,
                url,
                total_credit,
                single_credit,
            ),
            Call::Claim { founder, url } => self.claim(caller, founder, url),
        }
    }
}

} // verus!
