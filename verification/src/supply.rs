//! What all accounts hold together, and how each request changes it:
//! transfers conserve it, rewards raise it, and nothing else touches it
//! but the issue of the supply. Rewards are not backed by any debit, so the
//! sum of all balances is not bound to the supply that was issued.

use vstd::prelude::*;
use crate::amount::TokenBalance;
use crate::content_registry::{COMMENT_REWARD, LIKE_REWARD, UPLOAD_REWARD, VARIANT_REWARD};
use crate::service::CallView;
use crate::state::{held, Ledger, LedgerView};
use crate::table::map_of_is_finite;
use crate::types::AccountId;

verus! {

/// The sum of all balances.
pub open spec fn total_held(balances: Map<AccountId, TokenBalance>) -> int
    decreases balances.dom().len(),
    when balances.dom().finite()
{
    if balances.dom().len() == 0 {
        0
    } else {
        let who = balances.dom().choose();
        balances[who] + total_held(balances.remove(who))
    }
}

/// The sum of all balances is what any one account holds plus the sum of
/// the others.
pub proof fn total_held_splits(balances: Map<AccountId, TokenBalance>, who: AccountId)
    requires
        balances.dom().finite(),
        balances.dom().contains(who),
    ensures
        total_held(balances) == balances[who] + total_held(balances.remove(who)),
    decreases balances.dom().len(),
{
    let first = balances.dom().choose();
    if first != who {
        let rest = balances.remove(first);
        total_held_splits(rest, who);
        total_held_splits(balances.remove(who), first);
        assert(rest.remove(who) =~= balances.remove(who).remove(first));
    }
}

/// Setting one balance changes the sum by the difference between the new
/// balance and the old.
pub proof fn total_held_after_insert(
    balances: Map<AccountId, TokenBalance>,
    who: AccountId,
    amount: TokenBalance,
)
    requires
        balances.dom().finite(),
    ensures
        balances.insert(who, amount).dom().finite(),
        total_held(balances.insert(who, amount)) == total_held(balances) - held(balances, who) + amount,
{
    let after = balances.insert(who, amount);
    total_held_splits(after, who);
    assert(after.remove(who) =~= balances.remove(who));
    if balances.dom().contains(who) {
        total_held_splits(balances, who);
    } else {
        assert(balances.remove(who) =~= balances);
    }
}

/// A successful transfer leaves the sum of all balances as it was.
pub proof fn transfer_conserves_total(s: LedgerView, from: AccountId, to: AccountId, amount: TokenBalance)
    requires
        s.balances.dom().finite(),
        s.transfer(from, to, amount) is Ok,
    ensures
        s.transfer(from, to, amount)->Ok_0.balances.dom().finite(),
        total_held(s.transfer(from, to, amount)->Ok_0.balances) == total_held(s.balances),
{
    let rest = (s.balances[from] - amount) as TokenBalance;
    let debited = s.balances.insert(from, rest);
    total_held_after_insert(s.balances, from, rest);
    total_held_after_insert(debited, to, (held(debited, to) + amount) as TokenBalance);
}

/// A successful credit raises the sum of all balances by the amount
/// credited: rewards are new tokens.
pub proof fn credit_mints(s: LedgerView, to: AccountId, amount: TokenBalance)
    requires
        s.balances.dom().finite(),
        s.credit(to, amount) is Ok,
    ensures
        s.credit(to, amount)->Ok_0.balances.dom().finite(),
        total_held(s.credit(to, amount)->Ok_0.balances) == total_held(s.balances) + amount,
{
    total_held_after_insert(s.balances, to, (s.balance_of(to) + amount) as TokenBalance);
}

/// By how much the request `call` of `caller`, when carried out in state
/// `s`, changes the sum of all balances: a reward for content, a like, a
/// comment or a variant; for the issue of the supply, the supply less what
/// the caller held before; and nothing for any other request.
pub open spec fn issued_by(s: LedgerView, caller: AccountId, call: CallView) -> int {
    match call {
        CallView::Initialize { total_supply, .. } => total_supply - s.balance_of(caller),
        CallView::Upload { .. } => UPLOAD_REWARD as int,
        CallView::Like { .. } => LIKE_REWARD as int,
        CallView::Comment { .. } => COMMENT_REWARD as int,
        CallView::AddVariant { .. } => VARIANT_REWARD as int,
        _ => 0,
    }
}

/// A request that is carried out changes the sum of all balances by exactly
/// what it issues, and a refused one leaves it as it was.
pub proof fn step_changes_total(s: LedgerView, caller: AccountId, call: CallView)
    requires
        s.balances.dom().finite(),
    ensures
        s.after(s.step(caller, call)).balances.dom().finite(),
        total_held(s.after(s.step(caller, call)).balances) == total_held(s.balances) + (if s.step(
            caller,
            call,
        ) is Ok {
            issued_by(s, caller, call)
        } else {
            0
        }),
{
    if let Ok(n) = s.step(caller, call) {
        match call {
            CallView::Initialize { total_supply, .. } => {
                total_held_after_insert(s.balances, caller, total_supply);
            },
            CallView::Transfer { to, value } => {
                transfer_conserves_total(s, caller, to, value);
            },
            CallView::Approve { .. } => {},
            CallView::TransferFrom { from, to, value } => {
                let spent = LedgerView { allowances: n.allowances, events: n.events.drop_last(), ..s };
                assert(spent.transfer(from, to, value) is Ok);
                transfer_conserves_total(spent, from, to, value);
            },
            CallView::UpdateUser { .. } => {},
            CallView::Upload { content_id, affiliate_link } => {
                credit_mints(s.registered(caller, content_id, affiliate_link), caller, UPLOAD_REWARD);
            },
            CallView::Like { content_id } => {
                credit_mints(s.with_record(content_id, n.photos[content_id]), caller, LIKE_REWARD);
            },
            CallView::Comment { content_id, .. } => {
                credit_mints(s.with_record(content_id, n.photos[content_id]), caller, COMMENT_REWARD);
            },
            CallView::AddVariant { content_id, .. } => {
                credit_mints(s.with_record(content_id, n.photos[content_id]), caller, VARIANT_REWARD);
            },
            CallView::CreatePool { total_credit, .. } => {
                transfer_conserves_total(s, caller, s.treasury, total_credit);
            },
            CallView::Claim { founder, url } => {
                let drawn = LedgerView { affiliations: n.affiliations, ..s };
                assert(drawn.transfer(s.treasury, caller, s.affiliations[(founder, url)].single_credit) is Ok);
                transfer_conserves_total(drawn, s.treasury, caller, s.affiliations[(founder, url)].single_credit);
            },
        }
    }
}

/// What the requests in `calls` issue altogether when made in order from
/// state `s`, refused ones counting for nothing.
pub open spec fn issued_in(s: LedgerView, calls: Seq<(AccountId, CallView)>) -> int
    decreases calls.len(),
{
    if calls.len() == 0 {
        0
    } else {
        let before = s.run(calls.drop_last());
        let last = calls.last();
        issued_in(s, calls.drop_last()) + (if before.step(last.0, last.1) is Ok {
            issued_by(before, last.0, last.1)
        } else {
            0
        })
    }
}

/// After any number of requests, all accounts together hold what they held
/// before plus what the requests issued. Tokens appear only by the issue of
/// the supply and by rewards, and disappear only where the issue of the
/// supply replaces what its caller held.
pub proof fn run_changes_total(s: LedgerView, calls: Seq<(AccountId, CallView)>)
    requires
        s.balances.dom().finite(),
    ensures
        s.run(calls).balances.dom().finite(),
        total_held(s.run(calls).balances) == total_held(s.balances) + issued_in(s, calls),
    decreases calls.len(),
{
    if calls.len() > 0 {
        run_changes_total(s, calls.drop_last());
        step_changes_total(s.run(calls.drop_last()), calls.last().0, calls.last().1);
    }
}

/// A ledger holds finitely many balances, so their sum is defined.
pub proof fn balances_are_finite(ledger: Ledger)
    requires
        ledger.wf(),
    ensures
        ledger@.balances.dom().finite(),
{
    map_of_is_finite(ledger.balances.entries());
}

} // verus!
