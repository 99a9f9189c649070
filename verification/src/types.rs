//! The records the ledger keeps, the errors its operations return and the
//! notifications they emit, each with the mathematical value that contracts
//! speak of.

use vstd::prelude::*;

verus! {

/// Identity of an account holder, as established by whoever authenticated
/// the caller. The ledger only compares identities.
pub type AccountId = u64;

/// Longest token name that `initialize` accepts, in bytes.
pub const MAX_NAME_LEN: usize = 64;

/// Longest ticker that `initialize` accepts, in bytes.
pub const MAX_TICKER_LEN: usize = 32;

/// Why an operation was refused. A refused operation changes nothing.
#[derive(Clone, Copy, Debug, PartialEq, Eq, Structural)]
pub enum Error {
    /// The token was initialized before.
    AlreadyInitialized,
    /// The token name is longer than [`MAX_NAME_LEN`].
    NameTooLong,
    /// The ticker is longer than [`MAX_TICKER_LEN`].
    TickerTooLong,
    /// The paying account has no balance entry.
    UnknownAccount,
    /// The paying account holds less than the amount.
    InsufficientBalance,
    /// A balance or an allowance would exceed the amount type.
    ArithmeticOverflow,
    /// The owner never approved the spender.
    NoAllowance,
    /// The spender may spend less than the amount.
    InsufficientAllowance,
    /// The content identifier is registered already.
    DuplicateContent,
    /// The content identifier is not registered.
    UnknownContent,
    /// The account liked this content before.
    AlreadyLiked,
    /// The content already has this variant.
    DuplicateVariant,
    /// The referral link of an upload names no pool.
    UnknownAffiliate,
    /// The founder already has a pool for this link.
    DuplicatePool,
    /// The founder has no pool for this link.
    UnknownPool,
    /// The pool holds less than one claim pays.
    PoolExhausted,
    /// The caller could not be identified. The ledger never returns this:
    /// it is for the layer that authenticates callers.
    Unauthenticated,
}

/// A notification for the outside world. Emitting one never affects state.
#[derive(Clone, Copy, Debug, PartialEq, Eq, Structural)]
pub enum Event {
    /// `Transfer(from, to, amount)`: tokens moved from one balance to another.
    Transfer(AccountId, AccountId, crate::amount::TokenBalance),
    /// `Approval(owner, spender, amount)`: an allowance was raised or spent by `amount`.
    Approval(AccountId, AccountId, crate::amount::TokenBalance),
}

/// What the token is called and how much of it was issued at initialization.
#[derive(Clone, Debug, PartialEq)]
pub struct Erc20Token<U> {
    pub name: Vec<u8>,
    pub ticker: Vec<u8>,
    pub total_supply: U,
}

impl<U: Default> Default for Erc20Token<U> {
    /// A token without a name or a ticker.
    fn default() -> (token: Self)
        ensures
            token.name@ == Seq::<u8>::empty(),
            token.ticker@ == Seq::<u8>::empty(),
            call_ensures(U::default, (), token.total_supply),
    {
        Erc20Token { name: Vec::new(), ticker: Vec::new(), total_supply: U::default() }
    }
}

/// The mathematical value of an [`Erc20Token`].
#[verifier::ext_equal]
pub struct TokenView<U> {
    pub name: Seq<u8>,
    pub ticker: Seq<u8>,
    pub total_supply: U,
}

impl<U> View for Erc20Token<U> {
    type V = TokenView<U>;

    open spec fn view(&self) -> TokenView<U> {
        TokenView { name: self.name@, ticker: self.ticker@, total_supply: self.total_supply }
    }
}

/// What an account holder shows of themselves, and the content they uploaded.
#[derive(Clone, Debug, PartialEq)]
pub struct AccountProfile {
    pub name: Vec<u8>,
    pub avatar: Vec<u8>,
    pub photos: Vec<Vec<u8>>,
}

impl Default for AccountProfile {
    /// The profile of an account that never set one up and uploaded nothing.
    fn default() -> (profile: Self)
        ensures
            profile@ == (ProfileView { name: Seq::empty(), avatar: Seq::empty(), photos: Seq::empty() }),
    {
        let profile = AccountProfile { name: Vec::new(), avatar: Vec::new(), photos: Vec::new() };
        assert(profile@.photos =~= Seq::<Seq<u8>>::empty());
        profile
    }
}

/// The mathematical value of an [`AccountProfile`].
#[verifier::ext_equal]
pub struct ProfileView {
    pub name: Seq<u8>,
    pub avatar: Seq<u8>,
    pub photos: Seq<Seq<u8>>,
}

/// The byte strings of a vector of byte vectors, in order.
pub open spec fn byte_strings(v: Seq<Vec<u8>>) -> Seq<Seq<u8>> {
    Seq::new(v.len(), |i: int| v[i]@)
}

impl View for AccountProfile {
    type V = ProfileView;

    open spec fn view(&self) -> ProfileView {
        ProfileView { name: self.name@, avatar: self.avatar@, photos: byte_strings(self.photos@) }
    }
}

/// One registered piece of content and what happened to it since.
#[derive(Clone, Debug, PartialEq)]
pub struct PhotoInfo<A> {
    pub owner: A,
    pub affiliate_url: Option<(A, Vec<u8>)>,
    pub likes: Vec<A>,
    pub variants: Vec<Vec<u8>>,
    pub comments: Vec<Vec<u8>>,
}

impl<A: Default> Default for PhotoInfo<A> {
    /// A record without a referral link that nobody liked, varied or
    /// commented on.
    fn default() -> (record: Self)
        ensures
            call_ensures(A::default, (), record.owner),
            record.affiliate_url is None,
            record.likes@ == Seq::<A>::empty(),
            record@.variants == Seq::<Seq<u8>>::empty(),
            record@.comments == Seq::<Seq<u8>>::empty(),
    {
        PhotoInfo {
            owner: A::default(),
            affiliate_url: None,
            likes: Vec::new(),
            variants: Vec::new(),
            comments: Vec::new(),
        }
    }
}

/// The mathematical value of a [`PhotoInfo`].
#[verifier::ext_equal]
pub struct PhotoView<A> {
    pub owner: A,
    pub affiliate_url: Option<(A, Seq<u8>)>,
    pub likes: Seq<A>,
    pub variants: Seq<Seq<u8>>,
    pub comments: Seq<Seq<u8>>,
}

/// The mathematical value of an optional referral link.
pub open spec fn link_view<A>(link: Option<(A, Vec<u8>)>) -> Option<(A, Seq<u8>)> {
    match link {
        Some((founder, url)) => Some((founder, url@)),
        None => None,
    }
}

impl<A> View for PhotoInfo<A> {
    type V = PhotoView<A>;

    open spec fn view(&self) -> PhotoView<A> {
        PhotoView {
            owner: self.owner,
            affiliate_url: link_view(self.affiliate_url),
            likes: self.likes@,
            variants: byte_strings(self.variants@),
            comments: byte_strings(self.comments@),
        }
    }
}

/// A referral credit pool: what one claim pays and what is left to pay.
#[derive(Clone, Copy, Debug, PartialEq)]
pub struct AffiliateInfo<B> {
    pub single_credit: B,
    pub total_credit: B,
}

impl<B: Default> Default for AffiliateInfo<B> {
    /// A pool of the default amounts.
    fn default() -> (pool: Self)
        ensures
            call_ensures(B::default, (), pool.single_credit),
            call_ensures(B::default, (), pool.total_credit),
    {
        AffiliateInfo { single_credit: B::default(), total_credit: B::default() }
    }
}

impl<B> View for AffiliateInfo<B> {
    type V = AffiliateInfo<B>;

    open spec fn view(&self) -> AffiliateInfo<B> {
        *self
    }
}

} // verus!
