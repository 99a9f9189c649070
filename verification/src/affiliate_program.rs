//! Referral credit pools: a founder escrows credit with the treasury under a
//! link, and claimants draw it down, one fixed amount per claim.

use vstd::prelude::*;
use crate::amount::{checked_sub, TokenBalance};
use crate::state::{inv_reads_records_only, Ledger, LedgerView};
use crate::types::{AccountId, AffiliateInfo, Error};

verus! {

impl LedgerView {
    /// Opens a pool for `(founder, url)`: `total_credit` moves from the
    /// founder to the treasury, and each claim will pay `single_credit`.
    ///
    /// Refused when the founder has a pool for this link already, and
    /// whenever the transfer to the treasury is refused.
    pub open spec fn create_pool(
        self,
        founder: AccountId,
        url: Seq<u8>,
        total_credit: TokenBalance,
        single_credit: TokenBalance,
    ) -> Result<LedgerView, Error> {
        if self.affiliations.dom().contains((founder, url)) {
            Err(Error::DuplicatePool)
        } else {
            match self.transfer(founder, self.treasury, total_credit) {
                Err(e) => Err(e),
                Ok(funded) => Ok(
                    LedgerView {
                        affiliations: funded.affiliations.insert(
                            (founder, url),
                            AffiliateInfo { single_credit, total_credit },
                        ),
                        ..funded
                    },
                ),
            }
        }
    }

    /// Pays `claimant` one `single_credit` of the pool of `(founder, url)`
    /// out of the treasury.
    ///
    /// Refused when there is no such pool, when the pool holds less than one
    /// `single_credit`, and whenever the transfer from the treasury is
    /// refused. Nothing else limits how often an account may claim.
    pub open spec fn claim(self, claimant: AccountId, founder: AccountId, url: Seq<u8>) -> Result<
        LedgerView,
        Error,
    > {
        if !self.affiliations.dom().contains((founder, url)) {
            Err(Error::UnknownPool)
        } else {
            let pool = self.affiliations[(founder, url)];
            if pool.total_credit < pool.single_credit {
                Err(Error::PoolExhausted)
            } else {
                LedgerView {
                    affiliations: self.affiliations.insert(
                        (founder, url),
                        AffiliateInfo {
                            single_credit: pool.single_credit,
                            total_credit: (pool.total_credit - pool.single_credit) as TokenBalance,
                        },
                    ),
                    ..self
                }.transfer(self.treasury, claimant, pool.single_credit)
            }
        }
    }
}

/// A successful claim lowers what the pool holds by exactly what it pays,
/// leaves the amount per claim as it was, and moves that amount from the
/// treasury to the claimant.
pub proof fn claim_draws_pool_down(s: LedgerView, claimant: AccountId, founder: AccountId, url: Seq<u8>)
    requires
        s.claim(claimant, founder, url) is Ok,
    ensures
        ({
            let n = s.claim(claimant, founder, url)->Ok_0;
            let before = s.affiliations[(founder, url)];
            let after = n.affiliations[(founder, url)];
            &&& n.affiliations.dom() == s.affiliations.dom()
            &&& after.single_credit == before.single_credit
            &&& after.total_credit + before.single_credit == before.total_credit
            &&& claimant != s.treasury ==> {
                &&& n.balance_of(claimant) == s.balance_of(claimant) + before.single_credit
                &&& n.balance_of(s.treasury) + before.single_credit == s.balance_of(s.treasury)
            }
        }),
{
    let n = s.claim(claimant, founder, url)->Ok_0;
    assert(n.affiliations.dom() =~= s.affiliations.dom());
}

/// A successful `create_pool` records the pool with its full credit and
/// moves that credit from the founder to the treasury.
pub proof fn create_pool_escrows_credit(
    s: LedgerView,
    founder: AccountId,
    url: Seq<u8>,
    total_credit: TokenBalance,
    single_credit: TokenBalance,
)
    requires
        s.create_pool(founder, url, total_credit, single_credit) is Ok,
    ensures
        ({
            let n = s.create_pool(founder, url, total_credit, single_credit)->Ok_0;
            &&& n.affiliations[(founder, url)] == AffiliateInfo { single_credit, total_credit }
            &&& founder != s.treasury ==> {
                &&& n.balance_of(founder) + total_credit == s.balance_of(founder)
                &&& n.balance_of(s.treasury) == s.balance_of(s.treasury) + total_credit
            }
        }),
{
}

/// Once the ledger is initialized the treasury has a balance entry, so a
/// claim is never refused for want of one.
pub proof fn claim_knows_the_treasury(s: LedgerView, claimant: AccountId, founder: AccountId, url: Seq<u8>)
    requires
        s.inv(),
        s.initialized,
    ensures
        s.claim(claimant, founder, url) != Err::<LedgerView, Error>(Error::UnknownAccount),
{
}

impl Ledger {
    /// Opens a pool for `(founder, url)` and escrows `total_credit` with the
    /// treasury.
    pub fn create_pool(
        &mut self,
        founder: AccountId,
        url: Vec<u8>,
        total_credit: TokenBalance,
        single_credit: TokenBalance,
    ) -> (r: Result<(), Error>)
        requires
            old(self).wf(),
        ensures
            final(self).wf(),
            match old(self)@.create_pool(founder, url@, total_credit, single_credit) {
                Ok(next) => r is Ok && final(self)@ == next,
                Err(e) => r == Err::<(), Error>(e) && final(self)@ == old(self)@,
            },
    {
        let key = (founder, url);
        if self.affiliations.contains_key(&key) {
            return Err(Error::DuplicatePool);
        }
        let treasury = self.treasury;
        if let Err(e) = self.transfer(founder, treasury, total_credit) {
            return Err(e);
        }
        let ghost funded = self@;
        self.affiliations.insert(key, AffiliateInfo { single_credit, total_credit });
        proof {
            let next = LedgerView {
                affiliations: funded.affiliations.insert(
                    (founder, url@),
                    AffiliateInfo { single_credit, total_credit },
                ),
                ..funded
            };
            assert(self@ =~= next);
            inv_reads_records_only(funded, next);
        }
        Ok(())
    }

    /// Pays `claimant` one `single_credit` of the pool of `(founder, url)`
    /// out of the treasury. The payment is checked before the pool is
    /// touched, so a refusal at any point leaves the pool as it was.
    pub fn claim(&mut self, claimant: AccountId, founder: AccountId, url: Vec<u8>) -> (r: Result<
        (),
        Error,
    >)
        requires
            old(self).wf(),
        ensures
            final(self).wf(),
            match old(self)@.claim(claimant, founder, url@) {
                Ok(next) => r is Ok && final(self)@ == next,
                Err(e) => r == Err::<(), Error>(e) && final(self)@ == old(self)@,
            },
    {
        let key = (founder, url);
        let pool = match self.affiliations.get(&key) {
            Some(pool) => *pool,
            None => { return Err(Error::UnknownPool); },
        };
        let left = match checked_sub(pool.total_credit, pool.single_credit) {
            Some(left) => left,
            None => { return Err(Error::PoolExhausted); },
        };
        let treasury = self.treasury;
        if let Err(e) = self.check_transfer(treasury, claimant, pool.single_credit) {
            return Err(e);
        }
        let ghost before = self@;
        self.affiliations.insert(
            key,
            AffiliateInfo { single_credit: pool.single_credit, total_credit: left },
        );
        proof {
            let drawn = LedgerView {
                affiliations: before.affiliations.insert(
                    (founder, url@),
                    AffiliateInfo { single_credit: pool.single_credit, total_credit: left },
                ),
                ..before
            };
            assert(self@ =~= drawn);
            inv_reads_records_only(before, drawn);
        }
        self.transfer(treasury, claimant, pool.single_credit)
    }
}

} // verus!
