//! A ledger as plain values, for keeping it somewhere else, and the way back
//! from such values to a ledger, which accepts only what satisfies the
//! invariant.

use vstd::prelude::*;
use crate::amount::TokenBalance;
use crate::state::{Ledger, LedgerView};
use crate::table::{
    bytes_equal, keys_distinct, map_of, map_of_holds_each_entry, map_of_holds_entries_only,
    position_of, Table,
};
use crate::types::{
    byte_strings, AccountId, AccountProfile, AffiliateInfo, Erc20Token, Event, PhotoInfo,
    MAX_NAME_LEN, MAX_TICKER_LEN,
};

verus! {

/// Everything a ledger holds. Each list gives the entries of one map.
#[derive(Clone, Debug, PartialEq)]
pub struct Snapshot {
    /// Whether the token was initialized.
    pub initialized: bool,
    /// The escrow account of the referral pools.
    pub treasury: AccountId,
    /// Name, ticker and issued supply.
    pub token_info: Erc20Token<TokenBalance>,
    /// What each account with a balance entry holds.
    pub balances: Vec<(AccountId, TokenBalance)>,
    /// What is left of each allowance, under `(owner, spender)`.
    pub allowances: Vec<((AccountId, AccountId), TokenBalance)>,
    /// The profile of each account that has one.
    pub accounts: Vec<(AccountId, AccountProfile)>,
    /// The record of each registered content identifier.
    pub photos: Vec<(Vec<u8>, PhotoInfo<AccountId>)>,
    /// The pool of each `(founder, link)` that has one.
    pub affiliations: Vec<((AccountId, Vec<u8>), AffiliateInfo<TokenBalance>)>,
    /// The notifications not yet collected, oldest first.
    pub events: Vec<Event>,
}

impl View for Snapshot {
    type V = LedgerView;

    open spec fn view(&self) -> LedgerView {
        LedgerView {
            initialized: self.initialized,
            treasury: self.treasury,
            token: self.token_info@,
            balances: map_of(self.balances@),
            allowances: map_of(self.allowances@),
            accounts: map_of(self.accounts@),
            photos: map_of(self.photos@),
            affiliations: map_of(self.affiliations@),
            events: self.events@,
        }
    }
}

impl Snapshot {
    /// No list gives two entries for one key.
    pub open spec fn keys_distinct(&self) -> bool {
        &&& keys_distinct(self.balances@)
        &&& keys_distinct(self.allowances@)
        &&& keys_distinct(self.accounts@)
        &&& keys_distinct(self.photos@)
        &&& keys_distinct(self.affiliations@)
    }

    /// Whether these values are a state of the ledger: no list gives two
    /// entries for one key, and the state they describe satisfies the
    /// invariant.
    pub open spec fn valid(&self) -> bool {
        &&& self.keys_distinct()
        &&& self@.inv()
    }
}

/// Whether no account occurs twice in `accounts`.
pub fn accounts_distinct(accounts: &Vec<AccountId>) -> (ok: bool)
    ensures
        ok == accounts@.no_duplicates(),
{
    let mut i: usize = 0;
    while i < accounts.len()
        invariant
            i <= accounts@.len(),
            forall|a: int, b: int| 0 <= a < b < i ==> accounts@[a] != accounts@[b],
        decreases accounts@.len() - i,
    {
        let mut j: usize = 0;
        while j < i
            invariant
                j <= i < accounts@.len(),
                forall|a: int| 0 <= a < j ==> accounts@[a] != accounts@[i as int],
            decreases i - j,
        {
            if accounts[j] == accounts[i] {
                return false;
            }
            j += 1;
        }
        i += 1;
    }
    assert forall|a: int, b: int|
        0 <= a < accounts@.len() && 0 <= b < accounts@.len() && a != b implies accounts@[a]
        != accounts@[b] by {
        if a < b {
            assert(accounts@[a] != accounts@[b]);
        } else {
            assert(accounts@[b] != accounts@[a]);
        }
    }
    true
}

/// Whether no byte string occurs twice in `strings`.
pub fn bytes_distinct(strings: &Vec<Vec<u8>>) -> (ok: bool)
    ensures
        ok == byte_strings(strings@).no_duplicates(),
{
    let ghost values = byte_strings(strings@);
    let mut i: usize = 0;
    while i < strings.len()
        invariant
            values == byte_strings(strings@),
            i <= strings@.len(),
            forall|a: int, b: int| 0 <= a < b < i ==> values[a] != values[b],
        decreases strings@.len() - i,
    {
        let mut j: usize = 0;
        while j < i
            invariant
                values == byte_strings(strings@),
                j <= i < strings@.len(),
                forall|a: int| 0 <= a < j ==> values[a] != values[i as int],
            decreases i - j,
        {
            if bytes_equal(&strings[j], &strings[i]) {
                assert(values[j as int] == values[i as int]);
                return false;
            }
            j += 1;
        }
        i += 1;
    }
    assert forall|a: int, b: int| 0 <= a < values.len() && 0 <= b < values.len() && a != b implies values[a]
        != values[b] by {
        if a < b {
            assert(values[a] != values[b]);
        } else {
            assert(values[b] != values[a]);
        }
    }
    true
}

impl Ledger {
    /// Whether the content record at position `i` is sound.
    fn record_sound(&self, i: usize) -> (ok: bool)
        requires
            self.tables_wf(),
            i < self.photos.entries().len(),
        ensures
            ok == self@.photo_inv(self.photos.entries()[i as int].0@),
    {
        proof {
            map_of_holds_each_entry(self.photos.entries(), i as int);
        }
        let record = &self.photos.entry(i).1;
        if !accounts_distinct(&record.likes) {
            return false;
        }
        if !bytes_distinct(&record.variants) {
            return false;
        }
        match &record.affiliate_url {
            Some(link) => self.affiliations.contains_key(link),
            None => true,
        }
    }

    /// Whether every content record is sound.
    fn records_sound(&self) -> (ok: bool)
        requires
            self.tables_wf(),
        ensures
            ok == (forall|id: Seq<u8>| self@.photos.dom().contains(id) ==> #[trigger] self@.photo_inv(id)),
    {
        let mut i: usize = 0;
        while i < self.photos.len()
            invariant
                self.tables_wf(),
                i <= self.photos.entries().len(),
                forall|j: int| 0 <= j < i ==> self@.photo_inv(#[trigger] self.photos.entries()[j].0@),
            decreases self.photos.entries().len() - i,
        {
            if !self.record_sound(i) {
                proof {
                    map_of_holds_each_entry(self.photos.entries(), i as int);
                }
                return false;
            }
            i += 1;
        }
        assert forall|id: Seq<u8>| self@.photos.dom().contains(id) implies #[trigger] self@.photo_inv(
            id,
        ) by {
            map_of_holds_entries_only(self.photos.entries(), id);
            let j = position_of(self.photos.entries(), id);
            assert(self@.photo_inv(self.photos.entries()[j].0@));
        }
        true
    }

    /// Whether the profile at position `i` is sound.
    fn profile_sound(&self, i: usize) -> (ok: bool)
        requires
            self.tables_wf(),
            i < self.accounts.entries().len(),
        ensures
            ok == self@.profile_inv(self.accounts.entries()[i as int].0@),
    {
        proof {
            map_of_holds_each_entry(self.accounts.entries(), i as int);
        }
        let pair = self.accounts.entry(i);
        let who = pair.0;
        let profile = &pair.1;
        let ghost listed = byte_strings(profile.photos@);
        assert(listed == self@.accounts[who].photos);
        if !bytes_distinct(&profile.photos) {
            return false;
        }
        let mut t: usize = 0;
        while t < profile.photos.len()
            invariant
                self.tables_wf(),
                i < self.accounts.entries().len(),
                who == self.accounts.entries()[i as int].0@,
                listed == byte_strings(profile.photos@),
                listed == self@.accounts[who].photos,
                listed.no_duplicates(),
                t <= profile.photos@.len(),
                forall|u: int|
                    0 <= u < t ==> {
                        &&& self@.photos.dom().contains(#[trigger] listed[u])
                        &&& self@.photos[listed[u]].owner == who
                    },
            decreases profile.photos@.len() - t,
        {
            assert(listed[t as int] == profile.photos@[t as int]@);
            match self.photos.get(&profile.photos[t]) {
                Some(record) => {
                    if record.owner != who {
                        return false;
                    }
                },
                None => {
                    return false;
                },
            }
            t += 1;
        }
        true
    }

    /// Whether every profile is sound.
    fn profiles_sound(&self) -> (ok: bool)
        requires
            self.tables_wf(),
        ensures
            ok == (forall|who: AccountId|
                self@.accounts.dom().contains(who) ==> #[trigger] self@.profile_inv(who)),
    {
        let mut i: usize = 0;
        while i < self.accounts.len()
            invariant
                self.tables_wf(),
                i <= self.accounts.entries().len(),
                forall|j: int| 0 <= j < i ==> self@.profile_inv(#[trigger] self.accounts.entries()[j].0@),
            decreases self.accounts.entries().len() - i,
        {
            if !self.profile_sound(i) {
                proof {
                    map_of_holds_each_entry(self.accounts.entries(), i as int);
                }
                return false;
            }
            i += 1;
        }
        assert forall|who: AccountId| self@.accounts.dom().contains(who) implies #[trigger] self@.profile_inv(
            who,
        ) by {
            map_of_holds_entries_only(self.accounts.entries(), who);
            let j = position_of(self.accounts.entries(), who);
            assert(self@.profile_inv(self.accounts.entries()[j].0@));
        }
        true
    }

    /// Whether whoever gave an allowance has a balance entry.
    fn allowance_owners_known(&self) -> (ok: bool)
        requires
            self.tables_wf(),
        ensures
            ok == (forall|owner: AccountId, spender: AccountId| #[trigger]
                self@.allowances.dom().contains((owner, spender)) ==> self@.balances.dom().contains(
                    owner,
                )),
    {
        let mut i: usize = 0;
        while i < self.allowances.len()
            invariant
                self.tables_wf(),
                i <= self.allowances.entries().len(),
                forall|j: int|
                    0 <= j < i ==> self@.balances.dom().contains(
                        (#[trigger] self.allowances.entries()[j]).0@.0,
                    ),
            decreases self.allowances.entries().len() - i,
        {
            let owner = self.allowances.entry(i).0.0;
            if !self.balances.contains_key(&owner) {
                proof {
                    map_of_holds_each_entry(self.allowances.entries(), i as int);
                    let pair = self.allowances.entries()[i as int].0@;
                    assert(self@.allowances.dom().contains((pair.0, pair.1)));
                }
                return false;
            }
            i += 1;
        }
        assert forall|owner: AccountId, spender: AccountId| #[trigger]
            self@.allowances.dom().contains((owner, spender)) implies self@.balances.dom().contains(
            owner,
        ) by {
            map_of_holds_entries_only(self.allowances.entries(), (owner, spender));
            let j = position_of(self.allowances.entries(), (owner, spender));
            assert(self@.balances.dom().contains(self.allowances.entries()[j].0@.0));
        }
        true
    }

    /// Whether whoever founded a pool has a balance entry.
    fn founders_known(&self) -> (ok: bool)
        requires
            self.tables_wf(),
        ensures
            ok == (forall|founder: AccountId, url: Seq<u8>| #[trigger]
                self@.affiliations.dom().contains((founder, url)) ==> self@.balances.dom().contains(
                    founder,
                )),
    {
        let mut i: usize = 0;
        while i < self.affiliations.len()
            invariant
                self.tables_wf(),
                i <= self.affiliations.entries().len(),
                forall|j: int|
                    0 <= j < i ==> self@.balances.dom().contains(
                        (#[trigger] self.affiliations.entries()[j]).0@.0,
                    ),
            decreases self.affiliations.entries().len() - i,
        {
            let founder = self.affiliations.entry(i).0.0;
            if !self.balances.contains_key(&founder) {
                proof {
                    map_of_holds_each_entry(self.affiliations.entries(), i as int);
                    let link = self.affiliations.entries()[i as int].0@;
                    assert(self@.affiliations.dom().contains((link.0, link.1)));
                }
                return false;
            }
            i += 1;
        }
        assert forall|founder: AccountId, url: Seq<u8>| #[trigger]
            self@.affiliations.dom().contains((founder, url)) implies self@.balances.dom().contains(
            founder,
        ) by {
            map_of_holds_entries_only(self.affiliations.entries(), (founder, url));
            let j = position_of(self.affiliations.entries(), (founder, url));
            assert(self@.balances.dom().contains(self.affiliations.entries()[j].0@.0));
        }
        true
    }

    /// Whether the state satisfies the invariant.
    fn invariant_holds(&self) -> (ok: bool)
        requires
            self.tables_wf(),
        ensures
            ok == self@.inv(),
    {
        self.token_info.name.len() <= MAX_NAME_LEN && self.token_info.ticker.len() <= MAX_TICKER_LEN
            && (!self.initialized || self.balances.contains_key(&self.treasury))
            && self.allowance_owners_known() && self.founders_known() && self.records_sound()
            && self.profiles_sound()
    }

    /// Everything the ledger holds, as plain values.
    pub fn snapshot(self) -> (taken: Snapshot)
        requires
            self.wf(),
        ensures
            taken.valid(),
            taken@ == self@,
    {
        Snapshot {
            initialized: self.initialized,
            treasury: self.treasury,
            token_info: self.token_info,
            balances: self.balances.into_entries(),
            allowances: self.allowances.into_entries(),
            accounts: self.accounts.into_entries(),
            photos: self.photos.into_entries(),
            affiliations: self.affiliations.into_entries(),
            events: self.events,
        }
    }

    /// The ledger that `taken` describes, or nothing where `taken` is not a
    /// state of the ledger.
    pub fn restore(taken: Snapshot) -> (r: Option<Ledger>)
        ensures
            r is Some == taken.valid(),
            r matches Some(ledger) ==> ledger.wf() && ledger@ == taken@,
    {
        let balances = match Table::from_entries(taken.balances) {
            Some(table) => table,
            None => { return None; },
        };
        let allowances = match Table::from_entries(taken.allowances) {
            Some(table) => table,
            None => { return None; },
        };
        let accounts = match Table::from_entries(taken.accounts) {
            Some(table) => table,
            None => { return None; },
        };
        let photos = match Table::from_entries(taken.photos) {
            Some(table) => table,
            None => { return None; },
        };
        let affiliations = match Table::from_entries(taken.affiliations) {
            Some(table) => table,
            None => { return None; },
        };
        let ledger = Ledger {
            initialized: taken.initialized,
            treasury: taken.treasury,
            token_info: taken.token_info,
            balances,
            allowances,
            accounts,
            photos,
            affiliations,
            events: taken.events,
        };
        if ledger.invariant_holds() {
            Some(ledger)
        } else {
            None
        }
    }
}

} // verus!
