//! Profiles and content: registering content under its identifier, and the
//! likes, comments and variants that it gathers. Whoever contributes is
//! rewarded with newly minted tokens.

use vstd::prelude::*;
use crate::amount::TokenBalance;
use crate::state::{Ledger, LedgerView};
use crate::table::bytes_equal;
use crate::types::{
    byte_strings, link_view, AccountId, AccountProfile, Error, PhotoInfo, PhotoView, ProfileView,
};

verus! {

/// What the uploader of new content is paid.
pub const UPLOAD_REWARD: TokenBalance = 10;

/// What an account is paid for liking content.
pub const LIKE_REWARD: TokenBalance = 1;

/// What the author of a comment is paid.
pub const COMMENT_REWARD: TokenBalance = 1;

/// What the editor who adds a variant is paid.
pub const VARIANT_REWARD: TokenBalance = 2;

impl LedgerView {
    /// The profile of `who`; an empty one where `who` has none.
    pub open spec fn profile_of(self, who: AccountId) -> ProfileView {
        if self.accounts.dom().contains(who) {
            self.accounts[who]
        } else {
            ProfileView { name: Seq::empty(), avatar: Seq::empty(), photos: Seq::empty() }
        }
    }

    /// Replaces the whole profile of `who`: the new one has the given name
    /// and avatar and lists no content.
    pub open spec fn update_user(self, who: AccountId, name: Seq<u8>, avatar: Seq<u8>) -> LedgerView {
        LedgerView {
            accounts: self.accounts.insert(who, ProfileView { name, avatar, photos: Seq::empty() }),
            ..self
        }
    }

    /// Registers `content_id` for `owner`, lists it in the owner's profile
    /// and rewards the owner.
    ///
    /// Refused when the identifier is registered already, when a referral
    /// link is given that names no pool, and when the reward does not fit
    /// the owner's balance.
    pub open spec fn upload(
        self,
        owner: AccountId,
        content_id: Seq<u8>,
        affiliate_link: Option<(AccountId, Seq<u8>)>,
    ) -> Result<LedgerView, Error> {
        if self.photos.dom().contains(content_id) {
            Err(Error::DuplicateContent)
        } else if affiliate_link is Some && !self.affiliations.dom().contains(affiliate_link->Some_0) {
            Err(Error::UnknownAffiliate)
        } else {
            self.registered(owner, content_id, affiliate_link).credit(owner, UPLOAD_REWARD)
        }
    }

    /// The state with a fresh record for `content_id`, which `owner`'s
    /// profile lists last.
    pub open spec fn registered(
        self,
        owner: AccountId,
        content_id: Seq<u8>,
        affiliate_link: Option<(AccountId, Seq<u8>)>,
    ) -> LedgerView {
        let record = PhotoView {
            owner,
            affiliate_url: affiliate_link,
            likes: Seq::empty(),
            variants: Seq::empty(),
            comments: Seq::empty(),
        };
        let profile = self.profile_of(owner);
        LedgerView {
            photos: self.photos.insert(content_id, record),
            accounts: self.accounts.insert(
                owner,
                ProfileView { photos: profile.photos.push(content_id), ..profile },
            ),
            ..self
        }
    }

    /// The state in which the record of `content_id` is `record`.
    pub open spec fn with_record(self, content_id: Seq<u8>, record: PhotoView<AccountId>) -> LedgerView {
        LedgerView { photos: self.photos.insert(content_id, record), ..self }
    }

    /// Records that `liker` likes `content_id` and rewards the liker.
    ///
    /// Refused when the identifier is not registered, when `liker` liked it
    /// before, and when the reward does not fit the liker's balance.
    pub open spec fn like(self, liker: AccountId, content_id: Seq<u8>) -> Result<LedgerView, Error> {
        if !self.photos.dom().contains(content_id) {
            Err(Error::UnknownContent)
        } else if self.photos[content_id].likes.contains(liker) {
            Err(Error::AlreadyLiked)
        } else {
            let record = self.photos[content_id];
            self.with_record(
                content_id,
                PhotoView { likes: record.likes.push(liker), ..record },
            ).credit(liker, LIKE_REWARD)
        }
    }

    /// Appends `text` to the comments of `content_id` and rewards the author.
    ///
    /// Refused when the identifier is not registered and when the reward
    /// does not fit the author's balance.
    pub open spec fn comment(self, author: AccountId, content_id: Seq<u8>, text: Seq<u8>) -> Result<
        LedgerView,
        Error,
    > {
        if !self.photos.dom().contains(content_id) {
            Err(Error::UnknownContent)
        } else {
            let record = self.photos[content_id];
            self.with_record(
                content_id,
                PhotoView { comments: record.comments.push(text), ..record },
            ).credit(author, COMMENT_REWARD)
        }
    }

    /// Appends `variant` to the variants of `content_id` and rewards the
    /// editor.
    ///
    /// Refused when the identifier is not registered, when the content has
    /// this variant already, and when the reward does not fit the editor's
    /// balance.
    pub open spec fn add_variant(self, editor: AccountId, content_id: Seq<u8>, variant: Seq<u8>) -> Result<
        LedgerView,
        Error,
    > {
        if !self.photos.dom().contains(content_id) {
            Err(Error::UnknownContent)
        } else if self.photos[content_id].variants.contains(variant) {
            Err(Error::DuplicateVariant)
        } else {
            let record = self.photos[content_id];
            self.with_record(
                content_id,
                PhotoView { variants: record.variants.push(variant), ..record },
            ).credit(editor, VARIANT_REWARD)
        }
    }
}

/// Replacing a profile keeps the invariant.
pub proof fn update_user_keeps_invariant(s: LedgerView, who: AccountId, name: Seq<u8>, avatar: Seq<u8>)
    requires
        s.inv(),
    ensures
        s.update_user(who, name, avatar).inv(),
{
    let n = s.update_user(who, name, avatar);
    assert forall|id: Seq<u8>| n.photos.dom().contains(id) implies #[trigger] n.photo_inv(id) by {
        assert(s.photo_inv(id));
    }
    assert forall|other: AccountId| n.accounts.dom().contains(other) implies #[trigger] n.profile_inv(
        other,
    ) by {
        if other != who {
            assert(s.profile_inv(other));
        }
    }
}

/// Registering an identifier that is not registered yet, with no referral
/// link or one that names a pool, keeps the invariant.
pub proof fn registered_keeps_invariant(
    s: LedgerView,
    owner: AccountId,
    content_id: Seq<u8>,
    affiliate_link: Option<(AccountId, Seq<u8>)>,
)
    requires
        s.inv(),
        !s.photos.dom().contains(content_id),
        affiliate_link matches Some(link) ==> s.affiliations.dom().contains(link),
    ensures
        s.registered(owner, content_id, affiliate_link).inv(),
{
    let n = s.registered(owner, content_id, affiliate_link);
    assert forall|id: Seq<u8>| n.photos.dom().contains(id) implies #[trigger] n.photo_inv(id) by {
        if id != content_id {
            assert(s.photo_inv(id));
        }
    }
    assert forall|who: AccountId| n.accounts.dom().contains(who) implies #[trigger] n.profile_inv(
        who,
    ) by {
        if who == owner {
            let before = s.profile_of(owner).photos;
            let listed = n.accounts[owner].photos;
            assert(listed == before.push(content_id));
            if s.accounts.dom().contains(owner) {
                assert(s.profile_inv(owner));
            }
            assert forall|i: int| 0 <= i < before.len() implies s.photos.dom().contains(
                #[trigger] before[i],
            ) && s.photos[before[i]].owner == owner by {}
            assert forall|i: int, j: int| 0 <= i < listed.len() && 0 <= j < listed.len() && i
                != j implies listed[i] != listed[j] by {
                if i < before.len() {
                    assert(s.photos.dom().contains(before[i]));
                }
                if j < before.len() {
                    assert(s.photos.dom().contains(before[j]));
                }
            }
            assert forall|i: int| 0 <= i < listed.len() implies n.photos.dom().contains(
                #[trigger] listed[i],
            ) && n.photos[listed[i]].owner == owner by {
                if i < before.len() {
                    assert(s.photos.dom().contains(before[i]));
                }
            }
        } else {
            assert(s.profile_inv(who));
            let listed = s.accounts[who].photos;
            assert forall|i: int| 0 <= i < listed.len() implies n.photos.dom().contains(
                #[trigger] listed[i],
            ) && n.photos[listed[i]].owner == who by {
                assert(s.photos.dom().contains(listed[i]));
            }
        }
    }
}

/// Replacing the record of a registered identifier by one of the same owner
/// and referral link, in which no account and no variant occurs twice, keeps
/// the invariant.
pub proof fn with_record_keeps_invariant(s: LedgerView, content_id: Seq<u8>, record: PhotoView<AccountId>)
    requires
        s.inv(),
        s.photos.dom().contains(content_id),
        record.owner == s.photos[content_id].owner,
        record.affiliate_url == s.photos[content_id].affiliate_url,
        record.likes.no_duplicates(),
        record.variants.no_duplicates(),
    ensures
        s.with_record(content_id, record).inv(),
{
    let n = s.with_record(content_id, record);
    assert(s.photo_inv(content_id));
    assert forall|id: Seq<u8>| n.photos.dom().contains(id) implies #[trigger] n.photo_inv(id) by {
        if id != content_id {
            assert(s.photo_inv(id));
        }
    }
    assert forall|who: AccountId| n.accounts.dom().contains(who) implies #[trigger] n.profile_inv(
        who,
    ) by {
        assert(s.profile_inv(who));
        let listed = s.accounts[who].photos;
        assert forall|i: int| 0 <= i < listed.len() implies n.photos.dom().contains(
            #[trigger] listed[i],
        ) && n.photos[listed[i]].owner == who by {
            assert(s.photos.dom().contains(listed[i]));
        }
    }
}

/// Appending a value that a sequence does not hold to a sequence without
/// repetitions gives a sequence without repetitions.
pub proof fn push_keeps_distinct<T>(items: Seq<T>, item: T)
    requires
        items.no_duplicates(),
        !items.contains(item),
    ensures
        items.push(item).no_duplicates(),
{
    let longer = items.push(item);
    assert forall|i: int, j: int| 0 <= i < longer.len() && 0 <= j < longer.len() && i != j implies longer[i]
        != longer[j] by {
        if i < items.len() {
            assert(items.contains(items[i]));
        }
        if j < items.len() {
            assert(items.contains(items[j]));
        }
    }
}

/// Once an upload of an identifier has succeeded, every further upload of it
/// is refused as a duplicate, whoever makes it and with whatever link, and
/// the record that the first upload made stays as it is.
pub proof fn upload_twice_is_refused(
    s: LedgerView,
    owner: AccountId,
    content_id: Seq<u8>,
    affiliate_link: Option<(AccountId, Seq<u8>)>,
    second_owner: AccountId,
    second_link: Option<(AccountId, Seq<u8>)>,
)
    requires
        s.upload(owner, content_id, affiliate_link) is Ok,
    ensures
        ({
            let n = s.upload(owner, content_id, affiliate_link)->Ok_0;
            let again = n.upload(second_owner, content_id, second_link);
            &&& again == Err::<LedgerView, Error>(Error::DuplicateContent)
            &&& n.after(again) == n
            &&& n.photos[content_id] == PhotoView {
                owner,
                affiliate_url: affiliate_link,
                likes: Seq::empty(),
                variants: Seq::empty(),
                comments: Seq::empty(),
            }
        }),
{
}

/// Whether `who` occurs in `accounts`.
pub fn contains_account(accounts: &Vec<AccountId>, who: AccountId) -> (found: bool)
    ensures
        found == accounts@.contains(who),
{
    let mut i: usize = 0;
    while i < accounts.len()
        invariant
            i <= accounts@.len(),
            forall|j: int| 0 <= j < i ==> accounts@[j] != who,
        decreases accounts@.len() - i,
    {
        if accounts[i] == who {
            return true;
        }
        i += 1;
    }
    false
}

/// Whether the byte string `wanted` occurs in `strings`.
pub fn contains_bytes(strings: &Vec<Vec<u8>>, wanted: &Vec<u8>) -> (found: bool)
    ensures
        found == byte_strings(strings@).contains(wanted@),
{
    let mut i: usize = 0;
    while i < strings.len()
        invariant
            i <= strings@.len(),
            forall|j: int| 0 <= j < i ==> byte_strings(strings@)[j] != wanted@,
        decreases strings@.len() - i,
    {
        if bytes_equal(&strings[i], wanted) {
            assert(byte_strings(strings@)[i as int] == wanted@);
            return true;
        }
        i += 1;
    }
    false
}

/// A second byte vector with the same bytes.
pub fn copy_bytes(bytes: &Vec<u8>) -> (copy: Vec<u8>)
    ensures
        copy@ == bytes@,
{
    let mut copy: Vec<u8> = Vec::new();
    let mut i: usize = 0;
    while i < bytes.len()
        invariant
            i <= bytes@.len(),
            copy@ == bytes@.take(i as int),
        decreases bytes@.len() - i,
    {
        copy.push(bytes[i]);
        i += 1;
    }
    copy
}

impl Ledger {
    /// Replaces the whole profile of `who`. The new profile lists no
    /// content, whatever the old one listed.
    pub fn update_user(&mut self, who: AccountId, name: Vec<u8>, avatar: Vec<u8>)
        requires
            old(self).wf(),
        ensures
            final(self).wf(),
            final(self)@ == old(self)@.update_user(who, name@, avatar@),
    {
        let ghost before = self@;
        let ghost next = before.update_user(who, name@, avatar@);
        let profile = AccountProfile { name, avatar, photos: Vec::new() };
        assert(profile@.photos =~= Seq::<Seq<u8>>::empty());
        self.accounts.insert(who, profile);
        proof {
            assert(self@ =~= next);
            update_user_keeps_invariant(before, who, next.accounts[who].name, next.accounts[who].avatar);
        }
    }

    /// Registers `content_id` for `owner`, lists it in the owner's profile
    /// and rewards the owner with [`UPLOAD_REWARD`].
    pub fn upload(
        &mut self,
        owner: AccountId,
        content_id: Vec<u8>,
        affiliate_link: Option<(AccountId, Vec<u8>)>,
    ) -> (r: Result<(), Error>)
        requires
            old(self).wf(),
        ensures
            final(self).wf(),
            match old(self)@.upload(owner, content_id@, link_view(affiliate_link)) {
                Ok(next) => r is Ok && final(self)@ == next,
                Err(e) => r == Err::<(), Error>(e) && final(self)@ == old(self)@,
            },
    {
        if self.photos.contains_key(&content_id) {
            return Err(Error::DuplicateContent);
        }
        match &affiliate_link {
            Some(link) => {
                if !self.affiliations.contains_key(link) {
                    return Err(Error::UnknownAffiliate);
                }
            },
            None => {},
        }
        if let Err(e) = self.check_credit(owner, UPLOAD_REWARD) {
            return Err(e);
        }
        let ghost before = self@;
        let ghost mid = before.registered(owner, content_id@, link_view(affiliate_link));
        let listed = copy_bytes(&content_id);
        let mut profile = match self.accounts.remove(&owner) {
            Some(profile) => profile,
            None => AccountProfile::default(),
        };
        assert(profile@ =~= before.profile_of(owner));
        profile.photos.push(listed);
        assert(profile@.photos =~= before.profile_of(owner).photos.push(listed@));
        self.accounts.insert(owner, profile);
        let record = PhotoInfo {
            owner,
            affiliate_url: affiliate_link,
            likes: Vec::new(),
            variants: Vec::new(),
            comments: Vec::new(),
        };
        assert(record@.variants =~= Seq::<Seq<u8>>::empty());
        assert(record@.comments =~= Seq::<Seq<u8>>::empty());
        self.photos.insert(content_id, record);
        proof {
            assert(self@.accounts =~= mid.accounts);
            assert(self@.photos =~= mid.photos);
            assert(self@ =~= mid);
            registered_keeps_invariant(before, owner, listed@, mid.photos[listed@].affiliate_url);
        }
        self.credit(owner, UPLOAD_REWARD)
    }

    /// Records that `liker` likes `content_id` and rewards the liker with
    /// [`LIKE_REWARD`].
    pub fn like(&mut self, liker: AccountId, content_id: Vec<u8>) -> (r: Result<(), Error>)
        requires
            old(self).wf(),
        ensures
            final(self).wf(),
            match old(self)@.like(liker, content_id@) {
                Ok(next) => r is Ok && final(self)@ == next,
                Err(e) => r == Err::<(), Error>(e) && final(self)@ == old(self)@,
            },
    {
        match self.photos.get(&content_id) {
            None => { return Err(Error::UnknownContent); },
            Some(record) => {
                if contains_account(&record.likes, liker) {
                    return Err(Error::AlreadyLiked);
                }
            },
        }
        if let Err(e) = self.check_credit(liker, LIKE_REWARD) {
            return Err(e);
        }
        let ghost before = self@;
        let ghost old_record = before.photos[content_id@];
        let ghost new_record = PhotoView { likes: old_record.likes.push(liker), ..old_record };
        let mut record = match self.photos.remove(&content_id) {
            Some(record) => record,
            None => { return Err(Error::UnknownContent); },
        };
        record.likes.push(liker);
        assert(record@ =~= new_record);
        self.photos.insert(content_id, record);
        proof {
            let mid = before.with_record(content_id@, new_record);
            assert(self@.photos =~= mid.photos);
            assert(self@ =~= mid);
            assert(before.photo_inv(content_id@));
            push_keeps_distinct(old_record.likes, liker);
            with_record_keeps_invariant(before, content_id@, new_record);
        }
        self.credit(liker, LIKE_REWARD)
    }

    /// Appends `text` to the comments of `content_id` and rewards the author
    /// with [`COMMENT_REWARD`].
    pub fn comment(&mut self, author: AccountId, content_id: Vec<u8>, text: Vec<u8>) -> (r: Result<
        (),
        Error,
    >)
        requires
            old(self).wf(),
        ensures
            final(self).wf(),
            match old(self)@.comment(author, content_id@, text@) {
                Ok(next) => r is Ok && final(self)@ == next,
                Err(e) => r == Err::<(), Error>(e) && final(self)@ == old(self)@,
            },
    {
        if !self.photos.contains_key(&content_id) {
            return Err(Error::UnknownContent);
        }
        if let Err(e) = self.check_credit(author, COMMENT_REWARD) {
            return Err(e);
        }
        let ghost before = self@;
        let ghost old_record = before.photos[content_id@];
        let ghost new_record = PhotoView { comments: old_record.comments.push(text@), ..old_record };
        let mut record = match self.photos.remove(&content_id) {
            Some(record) => record,
            None => { return Err(Error::UnknownContent); },
        };
        record.comments.push(text);
        assert(record@.comments =~= new_record.comments);
        assert(record@ =~= new_record);
        self.photos.insert(content_id, record);
        proof {
            let mid = before.with_record(content_id@, new_record);
            assert(self@.photos =~= mid.photos);
            assert(self@ =~= mid);
            assert(before.photo_inv(content_id@));
            with_record_keeps_invariant(before, content_id@, new_record);
        }
        self.credit(author, COMMENT_REWARD)
    }

    /// Appends `variant` to the variants of `content_id` and rewards the
    /// editor with [`VARIANT_REWARD`].
    pub fn add_variant(&mut self, editor: AccountId, content_id: Vec<u8>, variant: Vec<u8>) -> (r: Result<
        (),
        Error,
    >)
        requires
            old(self).wf(),
        ensures
            final(self).wf(),
            match old(self)@.add_variant(editor, content_id@, variant@) {
                Ok(next) => r is Ok && final(self)@ == next,
                Err(e) => r == Err::<(), Error>(e) && final(self)@ == old(self)@,
            },
    {
        match self.photos.get(&content_id) {
            None => { return Err(Error::UnknownContent); },
            Some(record) => {
                if contains_bytes(&record.variants, &variant) {
                    return Err(Error::DuplicateVariant);
                }
            },
        }
        if let Err(e) = self.check_credit(editor, VARIANT_REWARD) {
            return Err(e);
        }
        let ghost before = self@;
        let ghost old_record = before.photos[content_id@];
        let ghost new_record = PhotoView { variants: old_record.variants.push(variant@), ..old_record };
        let mut record = match self.photos.remove(&content_id) {
            Some(record) => record,
            None => { return Err(Error::UnknownContent); },
        };
        record.variants.push(variant);
        assert(record@.variants =~= new_record.variants);
        assert(record@ =~= new_record);
        self.photos.insert(content_id, record);
        proof {
            let mid = before.with_record(content_id@, new_record);
            assert(self@.photos =~= mid.photos);
            assert(self@ =~= mid);
            assert(before.photo_inv(content_id@));
            push_keeps_distinct(old_record.variants, new_record.variants.last());
            with_record_keeps_invariant(before, content_id@, new_record);
        }
        self.credit(editor, VARIANT_REWARD)
    }
}

} // verus!
