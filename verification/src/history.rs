//! What holds of every state that a sequence of requests can lead to, and of
//! how a later state relates to an earlier one.

use vstd::prelude::*;
use crate::account_ledger::transfer_keeps_rest;
use crate::amount::TokenBalance;
use crate::content_registry::{
    push_keeps_distinct, registered_keeps_invariant, update_user_keeps_invariant,
    with_record_keeps_invariant,
};
use crate::service::CallView;
use crate::state::{inv_reads_records_only, LedgerView};
use crate::types::{AccountId, AffiliateInfo, Error, Event, PhotoView};

verus! {

/// A request keeps the invariant, whether it is carried out or refused.
pub proof fn step_keeps_invariant(s: LedgerView, caller: AccountId, call: CallView)
    requires
        s.inv(),
    ensures
        s.after(s.step(caller, call)).inv(),
{
    if let Ok(n) = s.step(caller, call) {
        match call {
            CallView::Initialize { .. } => {
                inv_reads_records_only(s, n);
            },
            CallView::Transfer { to, value } => {
                transfer_keeps_rest(s, caller, to, value);
            },
            CallView::Approve { .. } => {
                inv_reads_records_only(s, n);
            },
            CallView::TransferFrom { from, to, value } => {
                let spent = LedgerView {
                    allowances: s.allowances.insert(
                        (from, caller),
                        (s.allowances[(from, caller)] - value) as TokenBalance,
                    ),
                    events: s.events.push(Event::Approval(from, caller, value)),
                    ..s
                };
                inv_reads_records_only(s, spent);
                transfer_keeps_rest(spent, from, to, value);
            },
            CallView::UpdateUser { name, avatar } => {
                update_user_keeps_invariant(s, caller, name, avatar);
            },
            CallView::Upload { content_id, affiliate_link } => {
                registered_keeps_invariant(s, caller, content_id, affiliate_link);
                inv_reads_records_only(s.registered(caller, content_id, affiliate_link), n);
            },
            CallView::Like { content_id } => {
                let record = s.photos[content_id];
                let liked = PhotoView { likes: record.likes.push(caller), ..record };
                assert(s.photo_inv(content_id));
                push_keeps_distinct(record.likes, caller);
                with_record_keeps_invariant(s, content_id, liked);
                inv_reads_records_only(s.with_record(content_id, liked), n);
            },
            CallView::Comment { content_id, text } => {
                let record = s.photos[content_id];
                let commented = PhotoView { comments: record.comments.push(text), ..record };
                assert(s.photo_inv(content_id));
                with_record_keeps_invariant(s, content_id, commented);
                inv_reads_records_only(s.with_record(content_id, commented), n);
            },
            CallView::AddVariant { content_id, variant } => {
                let record = s.photos[content_id];
                let varied = PhotoView { variants: record.variants.push(variant), ..record };
                assert(s.photo_inv(content_id));
                push_keeps_distinct(record.variants, variant);
                with_record_keeps_invariant(s, content_id, varied);
                inv_reads_records_only(s.with_record(content_id, varied), n);
            },
            CallView::CreatePool { url, total_credit, single_credit } => {
                transfer_keeps_rest(s, caller, s.treasury, total_credit);
                inv_reads_records_only(s.transfer(caller, s.treasury, total_credit)->Ok_0, n);
            },
            CallView::Claim { founder, url } => {
                let pool = s.affiliations[(founder, url)];
                let drawn = LedgerView {
                    affiliations: s.affiliations.insert(
                        (founder, url),
                        AffiliateInfo {
                            single_credit: pool.single_credit,
                            total_credit: (pool.total_credit - pool.single_credit) as TokenBalance,
                        },
                    ),
                    ..s
                };
                inv_reads_records_only(s, drawn);
                transfer_keeps_rest(drawn, s.treasury, caller, pool.single_credit);
            },
        }
    }
}

/// A refused request changes nothing, and no request is refused for want of
/// authentication: who the caller is has been settled before the ledger is
/// asked.
pub proof fn refused_request_changes_nothing(s: LedgerView, caller: AccountId, call: CallView)
    ensures
        s.step(caller, call) is Err ==> s.after(s.step(caller, call)) == s,
        s.step(caller, call) != Err::<LedgerView, Error>(Error::Unauthenticated),
{
}

/// Every state that requests lead to from a state that satisfies the
/// invariant satisfies it: from the empty ledger, every reachable state does.
pub proof fn run_keeps_invariant(s: LedgerView, calls: Seq<(AccountId, CallView)>)
    requires
        s.inv(),
    ensures
        s.run(calls).inv(),
    decreases calls.len(),
{
    if calls.len() > 0 {
        run_keeps_invariant(s, calls.drop_last());
        step_keeps_invariant(s.run(calls.drop_last()), calls.last().0, calls.last().1);
    }
}

/// No balance is ever negative: after any number of the requests in `calls`,
/// made from any state, what any account holds is a non-negative amount that
/// fits the amount type. A debit that would go below zero is refused instead.
pub proof fn balances_never_negative(
    s: LedgerView,
    calls: Seq<(AccountId, CallView)>,
    done: int,
    who: AccountId,
)
    requires
        0 <= done <= calls.len(),
    ensures
        0 <= s.run(calls.take(done)).balance_of(who) <= TokenBalance::MAX,
{
}

/// Whether `later` can be what became of the content record `earlier`:
/// owner and referral link are the same, and likes, variants and comments
/// were only appended to.
pub open spec fn record_extends(earlier: PhotoView<AccountId>, later: PhotoView<AccountId>) -> bool {
    &&& later.owner == earlier.owner
    &&& later.affiliate_url == earlier.affiliate_url
    &&& earlier.likes.is_prefix_of(later.likes)
    &&& earlier.variants.is_prefix_of(later.variants)
    &&& earlier.comments.is_prefix_of(later.comments)
}

/// Whether `later` can be what became of the pool `earlier`: a claim pays
/// what it paid, and the pool holds no more than it held.
pub open spec fn pool_drawn_from(
    earlier: AffiliateInfo<TokenBalance>,
    later: AffiliateInfo<TokenBalance>,
) -> bool {
    &&& later.single_credit == earlier.single_credit
    &&& later.total_credit <= earlier.total_credit
}

/// Whether `later` can be what became of the state `earlier`.
///
/// Once initialized, the ledger stays so, with the same treasury and token.
/// No balance entry, allowance, profile, content record or pool is ever
/// deleted; records only gather more likes, variants and comments; pools
/// are only drawn from; and notifications are only appended.
pub open spec fn evolves(earlier: LedgerView, later: LedgerView) -> bool {
    &&& earlier.initialized ==> {
        &&& later.initialized
        &&& later.treasury == earlier.treasury
        &&& later.token == earlier.token
    }
    &&& forall|who: AccountId| #[trigger]
        earlier.balances.dom().contains(who) ==> later.balances.dom().contains(who)
    &&& forall|pair: (AccountId, AccountId)| #[trigger]
        earlier.allowances.dom().contains(pair) ==> later.allowances.dom().contains(pair)
    &&& forall|who: AccountId| #[trigger]
        earlier.accounts.dom().contains(who) ==> later.accounts.dom().contains(who)
    &&& forall|id: Seq<u8>| #[trigger]
        earlier.photos.dom().contains(id) ==> {
            &&& later.photos.dom().contains(id)
            &&& record_extends(earlier.photos[id], later.photos[id])
        }
    &&& forall|link: (AccountId, Seq<u8>)| #[trigger]
        earlier.affiliations.dom().contains(link) ==> {
            &&& later.affiliations.dom().contains(link)
            &&& pool_drawn_from(earlier.affiliations[link], later.affiliations[link])
        }
    &&& earlier.events.is_prefix_of(later.events)
}

/// Every state is what became of itself.
pub proof fn evolves_reflexive(s: LedgerView)
    ensures
        evolves(s, s),
{
}

/// What became of what became of a state is what became of that state.
pub proof fn evolves_transitive(a: LedgerView, b: LedgerView, c: LedgerView)
    requires
        evolves(a, b),
        evolves(b, c),
    ensures
        evolves(a, c),
{
    assert forall|id: Seq<u8>| #[trigger] a.photos.dom().contains(id) implies c.photos.dom().contains(
        id,
    ) && record_extends(a.photos[id], c.photos[id]) by {
        assert(b.photos.dom().contains(id));
    }
    assert forall|link: (AccountId, Seq<u8>)| #[trigger]
        a.affiliations.dom().contains(link) implies c.affiliations.dom().contains(link)
        && pool_drawn_from(a.affiliations[link], c.affiliations[link]) by {
        assert(b.affiliations.dom().contains(link));
    }
    assert forall|who: AccountId| #[trigger] a.balances.dom().contains(who) implies c.balances.dom().contains(
        who,
    ) by {
        assert(b.balances.dom().contains(who));
    }
    assert forall|pair: (AccountId, AccountId)| #[trigger]
        a.allowances.dom().contains(pair) implies c.allowances.dom().contains(pair) by {
        assert(b.allowances.dom().contains(pair));
    }
    assert forall|who: AccountId| #[trigger] a.accounts.dom().contains(who) implies c.accounts.dom().contains(
        who,
    ) by {
        assert(b.accounts.dom().contains(who));
    }
}

/// A request, carried out or refused, leaves what became of the state it
/// was made in.
pub proof fn step_evolves(s: LedgerView, caller: AccountId, call: CallView)
    ensures
        evolves(s, s.after(s.step(caller, call))),
{
}

/// Any number of requests leave what became of the state they started from.
pub proof fn run_evolves(s: LedgerView, calls: Seq<(AccountId, CallView)>)
    ensures
        evolves(s, s.run(calls)),
    decreases calls.len(),
{
    if calls.len() > 0 {
        let before = s.run(calls.drop_last());
        run_evolves(s, calls.drop_last());
        step_evolves(before, calls.last().0, calls.last().1);
        evolves_transitive(s, before, s.run(calls));
    }
}

/// The token is initialized at most once: in whatever state requests lead to
/// from an initialized one, initializing is refused, whoever asks and with
/// whatever name, ticker and supply.
pub proof fn initialize_refused_ever_after(
    s: LedgerView,
    calls: Seq<(AccountId, CallView)>,
    caller: AccountId,
    name: Seq<u8>,
    ticker: Seq<u8>,
    total_supply: TokenBalance,
)
    requires
        s.initialized,
    ensures
        s.run(calls).initialize(caller, name, ticker, total_supply) == Err::<LedgerView, Error>(
            Error::AlreadyInitialized,
        ),
        s.run(calls).treasury == s.treasury,
        s.run(calls).token == s.token,
{
    run_evolves(s, calls);
}

} // verus!
