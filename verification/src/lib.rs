//! A deterministic token ledger with spending delegations, user content
//! records that reward their contributors, and referral credit pools.
//!
//! All state lives in one [`Ledger`] value. Every operation either applies
//! all of its effects or fails and leaves the ledger as it was. What an
//! operation does is stated over [`LedgerView`], the mathematical value of a
//! ledger: each operation of [`Ledger`] has a specification of the same name
//! there, and its contract says that it does exactly that.

pub mod account_ledger;
pub mod affiliate_program;
pub mod allowance_registry;
pub mod amount;
pub mod content_registry;
pub mod history;
pub mod service;
pub mod snapshot;
pub mod state;
pub mod supply;
pub mod table;
pub mod types;

pub use amount::TokenBalance;
pub use content_registry::{COMMENT_REWARD, LIKE_REWARD, UPLOAD_REWARD, VARIANT_REWARD};
pub use service::Call;
pub use snapshot::Snapshot;
pub use state::{Ledger, LedgerView};
pub use types::{
    AccountId, AccountProfile, AffiliateInfo, Erc20Token, Error, Event, PhotoInfo, MAX_NAME_LEN,
    MAX_TICKER_LEN,
};
