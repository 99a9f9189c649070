//! The ledger's state: the aggregate that owns every map, the mathematical
//! value contracts speak of, and the queries that read it.

use vstd::prelude::*;
use crate::amount::TokenBalance;
use crate::table::Table;
use crate::types::{
    AccountId, AccountProfile, AffiliateInfo, Erc20Token, Error, Event, PhotoInfo, PhotoView,
    ProfileView, TokenView, MAX_NAME_LEN, MAX_TICKER_LEN,
};

verus! {

/// The mathematical value of a [`Ledger`].
#[verifier::ext_equal]
pub struct LedgerView {
    /// Whether the token was initialized.
    pub initialized: bool,
    /// The escrow account of the referral pools.
    pub treasury: AccountId,
    /// Name, ticker and issued supply.
    pub token: TokenView<TokenBalance>,
    /// What each account holds. An account without an entry holds nothing.
    pub balances: Map<AccountId, TokenBalance>,
    /// What each spender may still move out of each owner's balance, keyed
    /// by `(owner, spender)`.
    pub allowances: Map<(AccountId, AccountId), TokenBalance>,
    /// The profile of each account that has one.
    pub accounts: Map<AccountId, ProfileView>,
    /// The record of each registered content identifier.
    pub photos: Map<Seq<u8>, PhotoView<AccountId>>,
    /// The pool of each `(founder, link)` that has one.
    pub affiliations: Map<(AccountId, Seq<u8>), AffiliateInfo<TokenBalance>>,
    /// The notifications emitted and not yet collected, oldest first.
    pub events: Seq<Event>,
}

/// What `who` holds in `balances`: the entry, or nothing where there is none.
pub open spec fn held(balances: Map<AccountId, TokenBalance>, who: AccountId) -> TokenBalance {
    if balances.dom().contains(who) {
        balances[who]
    } else {
        0
    }
}

impl LedgerView {
    /// The state before any operation.
    pub open spec fn empty() -> LedgerView {
        LedgerView {
            initialized: false,
            treasury: 0,
            token: TokenView { name: Seq::empty(), ticker: Seq::empty(), total_supply: 0 },
            balances: Map::empty(),
            allowances: Map::empty(),
            accounts: Map::empty(),
            photos: Map::empty(),
            affiliations: Map::empty(),
            events: Seq::empty(),
        }
    }

    /// The state that an operation with this outcome leaves behind: the new
    /// state where it succeeded, this one where it was refused.
    pub open spec fn after(self, outcome: Result<LedgerView, Error>) -> LedgerView {
        match outcome {
            Ok(next) => next,
            Err(_) => self,
        }
    }

    /// What `who` holds.
    pub open spec fn balance_of(self, who: AccountId) -> TokenBalance {
        held(self.balances, who)
    }

    /// What `spender` may still move out of `owner`'s balance.
    pub open spec fn allowance(self, owner: AccountId, spender: AccountId) -> TokenBalance {
        if self.allowances.dom().contains((owner, spender)) {
            self.allowances[(owner, spender)]
        } else {
            0
        }
    }

    /// What must hold of the record of a registered content identifier:
    /// nobody liked it twice, no variant occurs twice, and a referral link
    /// names a pool that exists.
    pub open spec fn photo_inv(self, id: Seq<u8>) -> bool {
        let photo = self.photos[id];
        &&& photo.likes.no_duplicates()
        &&& photo.variants.no_duplicates()
        &&& (photo.affiliate_url matches Some(link) ==> self.affiliations.dom().contains(link))
    }

    /// What must hold of a profile: each content identifier it lists occurs
    /// once, is registered, and belongs to the profile's account.
    pub open spec fn profile_inv(self, who: AccountId) -> bool {
        let profile = self.accounts[who];
        &&& profile.photos.no_duplicates()
        &&& forall|i: int|
            0 <= i < profile.photos.len() ==> {
                &&& self.photos.dom().contains(#[trigger] profile.photos[i])
                &&& self.photos[profile.photos[i]].owner == who
            }
    }

    /// Whoever gave an allowance and whoever founded a pool has a balance
    /// entry.
    pub open spec fn owners_known(self) -> bool {
        &&& forall|owner: AccountId, spender: AccountId| #[trigger]
            self.allowances.dom().contains((owner, spender)) ==> self.balances.dom().contains(owner)
        &&& forall|founder: AccountId, url: Seq<u8>| #[trigger]
            self.affiliations.dom().contains((founder, url)) ==> self.balances.dom().contains(founder)
    }

    /// What holds of every state that operations can reach: the token's
    /// name and ticker are within bounds, the treasury of an initialized
    /// ledger has a balance entry, so has whoever gave an allowance or
    /// founded a pool, and every content record and profile is sound.
    pub open spec fn inv(self) -> bool {
        &&& self.token.name.len() <= MAX_NAME_LEN
        &&& self.token.ticker.len() <= MAX_TICKER_LEN
        &&& self.initialized ==> self.balances.dom().contains(self.treasury)
        &&& self.owners_known()
        &&& forall|id: Seq<u8>| self.photos.dom().contains(id) ==> #[trigger] self.photo_inv(id)
        &&& forall|who: AccountId| self.accounts.dom().contains(who) ==> #[trigger] self.profile_inv(who)
    }
}

/// Of the records, the invariant speaks only of profiles, of content records
/// and of which pools exist: a state with the same profiles and records as
/// one that satisfies it and with at least the same pools satisfies it too,
/// if its name and ticker are within bounds and its treasury, once
/// initialized, has a balance entry, as has whoever gave an allowance or
/// founded a pool.
pub proof fn inv_reads_records_only(s: LedgerView, n: LedgerView)
    requires
        s.inv(),
        n.token.name.len() <= MAX_NAME_LEN,
        n.token.ticker.len() <= MAX_TICKER_LEN,
        n.initialized ==> n.balances.dom().contains(n.treasury),
        n.owners_known(),
        n.accounts == s.accounts,
        n.photos == s.photos,
        forall|link: (AccountId, Seq<u8>)|
            s.affiliations.dom().contains(link) ==> n.affiliations.dom().contains(link),
    ensures
        n.inv(),
{
    assert forall|id: Seq<u8>| n.photos.dom().contains(id) implies #[trigger] n.photo_inv(id) by {
        assert(s.photo_inv(id));
    }
    assert forall|who: AccountId| n.accounts.dom().contains(who) implies #[trigger] n.profile_inv(
        who,
    ) by {
        assert(s.profile_inv(who));
    }
}

/// Every well-formed ledger satisfies the invariant.
pub proof fn well_formed_satisfies_invariant(ledger: Ledger)
    requires
        ledger.wf(),
    ensures
        ledger@.inv(),
{
}

/// The whole state of the system. Operations take it explicitly; two
/// ledgers share nothing.
pub struct Ledger {
    pub(crate) initialized: bool,
    pub(crate) treasury: AccountId,
    pub(crate) token_info: Erc20Token<TokenBalance>,
    pub(crate) balances: Table<AccountId, TokenBalance>,
    pub(crate) allowances: Table<(AccountId, AccountId), TokenBalance>,
    pub(crate) accounts: Table<AccountId, AccountProfile>,
    pub(crate) photos: Table<Vec<u8>, PhotoInfo<AccountId>>,
    pub(crate) affiliations: Table<(AccountId, Vec<u8>), AffiliateInfo<TokenBalance>>,
    pub(crate) events: Vec<Event>,
}

impl View for Ledger {
    type V = LedgerView;

    open(crate) spec fn view(&self) -> LedgerView {
        LedgerView {
            initialized: self.initialized,
            treasury: self.treasury,
            token: self.token_info@,
            balances: self.balances@,
            allowances: self.allowances@,
            accounts: self.accounts@,
            photos: self.photos@,
            affiliations: self.affiliations@,
            events: self.events@,
        }
    }
}

impl Ledger {
    /// Every table is well formed.
    pub open(crate) spec fn tables_wf(&self) -> bool {
        &&& self.balances.wf()
        &&& self.allowances.wf()
        &&& self.accounts.wf()
        &&& self.photos.wf()
        &&& self.affiliations.wf()
    }

    /// The representation is sound and the state satisfies the invariant.
    pub open(crate) spec fn wf(&self) -> bool {
        &&& self.tables_wf()
        &&& self@.inv()
    }

    /// A ledger on which nothing has happened yet.
    pub fn new() -> (ledger: Ledger)
        ensures
            ledger.wf(),
            ledger@ == LedgerView::empty(),
    {
        Ledger {
            initialized: false,
            treasury: 0,
            token_info: Erc20Token::default(),
            balances: Table::new(),
            allowances: Table::new(),
            accounts: Table::new(),
            photos: Table::new(),
            affiliations: Table::new(),
            events: Vec::new(),
        }
    }

    /// Whether the token was initialized.
    pub fn initialized(&self) -> (yes: bool)
        ensures
            yes == self@.initialized,
    {
        self.initialized
    }

    /// The escrow account of the referral pools: whoever initialized the
    /// token, and account 0 before that.
    pub fn treasury(&self) -> (who: AccountId)
        ensures
            who == self@.treasury,
    {
        self.treasury
    }

    /// Name, ticker and issued supply of the token.
    pub fn token_info(&self) -> (token: &Erc20Token<TokenBalance>)
        ensures
            token@ == self@.token,
    {
        &self.token_info
    }

    /// The profile of `who`, if `who` has one.
    pub fn accounts(&self, who: AccountId) -> (profile: Option<&AccountProfile>)
        requires
            self.wf(),
        ensures
            profile is Some == self@.accounts.dom().contains(who),
            profile matches Some(found) ==> found@ == self@.accounts[who],
    {
        self.accounts.get(&who)
    }

    /// The record of `content_id`, if it is registered.
    pub fn photos(&self, content_id: &Vec<u8>) -> (record: Option<&PhotoInfo<AccountId>>)
        requires
            self.wf(),
        ensures
            record is Some == self@.photos.dom().contains(content_id@),
            record matches Some(found) ==> found@ == self@.photos[content_id@],
    {
        self.photos.get(content_id)
    }

    /// The pool of `(founder, url)`, if the founder opened one for this link.
    pub fn affiliations(&self, founder: AccountId, url: Vec<u8>) -> (pool: Option<
        AffiliateInfo<TokenBalance>,
    >)
        requires
            self.wf(),
        ensures
            pool == (if self@.affiliations.dom().contains((founder, url@)) {
                Some(self@.affiliations[(founder, url@)])
            } else {
                None
            }),
    {
        let key = (founder, url);
        match self.affiliations.get(&key) {
            Some(found) => Some(*found),
            None => None,
        }
    }

    /// The notifications emitted since they were last collected, oldest first.
    pub fn events(&self) -> (pending: &Vec<Event>)
        ensures
            pending@ == self@.events,
    {
        &self.events
    }

    /// Hands out the pending notifications and forgets them. Nothing else
    /// changes.
    pub fn take_events(&mut self) -> (pending: Vec<Event>)
        requires
            old(self).wf(),
        ensures
            final(self).wf(),
            pending@ == old(self)@.events,
            final(self)@ == (LedgerView { events: Seq::empty(), ..old(self)@ }),
    {
        let ghost before = self@;
        let mut pending: Vec<Event> = Vec::new();
        std::mem::swap(&mut self.events, &mut pending);
        proof {
            inv_reads_records_only(before, self@);
        }
        pending
    }

    /// What `who` holds; zero for an account the ledger has never seen.
    pub fn balance_of(&self, who: AccountId) -> (amount: TokenBalance)
        requires
            self.wf(),
        ensures
            amount == self@.balance_of(who),
    {
        match self.balances.get(&who) {
            Some(amount) => *amount,
            None => 0,
        }
    }
}

} // verus!
