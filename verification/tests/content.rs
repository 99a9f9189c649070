use content_ledger::{
    Error, Ledger, COMMENT_REWARD, LIKE_REWARD, UPLOAD_REWARD, VARIANT_REWARD,
};

const OWNER: u64 = 10;
const FAN: u64 = 11;
const OTHER: u64 = 12;
const FOUNDER: u64 = 1;

fn id(text: &str) -> Vec<u8> {
    text.as_bytes().to_vec()
}

fn with_photo() -> Ledger {
    let mut ledger = Ledger::new();
    assert_eq!(ledger.upload(OWNER, id("Qm1"), None), Ok(()));
    ledger
}

#[test]
fn rewards_have_their_fixed_values() {
    assert_eq!(UPLOAD_REWARD, 10);
    assert_eq!(LIKE_REWARD, 1);
    assert_eq!(COMMENT_REWARD, 1);
    assert_eq!(VARIANT_REWARD, 2);
}

#[test]
fn upload_registers_lists_and_rewards() {
    let ledger = with_photo();
    let record = ledger.photos(&id("Qm1")).expect("registered");
    assert_eq!(record.owner, OWNER);
    assert_eq!(record.affiliate_url, None);
    assert!(record.likes.is_empty());
    assert!(record.variants.is_empty());
    assert!(record.comments.is_empty());
    let profile = ledger.accounts(OWNER).expect("profile made");
    assert!(profile.name.is_empty());
    assert!(profile.avatar.is_empty());
    assert_eq!(profile.photos, vec![id("Qm1")]);
    assert_eq!(ledger.balance_of(OWNER), 10);
    assert!(ledger.events().is_empty());
}

#[test]
fn upload_appends_to_the_profile_in_order() {
    let mut ledger = with_photo();
    assert_eq!(ledger.upload(OWNER, id("Qm2"), None), Ok(()));
    assert_eq!(ledger.upload(OTHER, id("Qm3"), None), Ok(()));
    assert_eq!(ledger.upload(OWNER, id("Qm4"), None), Ok(()));
    assert_eq!(ledger.accounts(OWNER).unwrap().photos, vec![id("Qm1"), id("Qm2"), id("Qm4")]);
    assert_eq!(ledger.accounts(OTHER).unwrap().photos, vec![id("Qm3")]);
    assert_eq!(ledger.balance_of(OWNER), 30);
    assert_eq!(ledger.balance_of(OTHER), 10);
}

#[test]
fn upload_twice_is_refused_and_keeps_the_first_record() {
    let mut ledger = with_photo();
    assert_eq!(ledger.like(FAN, id("Qm1")), Ok(()));
    let before = ledger.photos(&id("Qm1")).unwrap().clone();
    assert_eq!(ledger.upload(OWNER, id("Qm1"), None), Err(Error::DuplicateContent));
    assert_eq!(ledger.upload(OTHER, id("Qm1"), None), Err(Error::DuplicateContent));
    assert_eq!(ledger.photos(&id("Qm1")).unwrap(), &before);
    assert_eq!(ledger.accounts(OWNER).unwrap().photos, vec![id("Qm1")]);
    assert!(ledger.accounts(OTHER).is_none());
    assert_eq!(ledger.balance_of(OWNER), 10);
    assert_eq!(ledger.balance_of(OTHER), 0);
}

#[test]
fn upload_duplicate_is_reported_before_unknown_affiliate() {
    let mut ledger = with_photo();
    assert_eq!(
        ledger.upload(OTHER, id("Qm1"), Some((FOUNDER, id("nowhere")))),
        Err(Error::DuplicateContent)
    );
}

#[test]
fn upload_with_unknown_affiliate_is_refused() {
    let mut ledger = Ledger::new();
    assert_eq!(
        ledger.upload(OWNER, id("Qm1"), Some((FOUNDER, id("url")))),
        Err(Error::UnknownAffiliate)
    );
    assert!(ledger.photos(&id("Qm1")).is_none());
    assert!(ledger.accounts(OWNER).is_none());
    assert_eq!(ledger.balance_of(OWNER), 0);
}

#[test]
fn upload_with_known_affiliate_keeps_the_link() {
    let mut ledger = Ledger::new();
    assert_eq!(ledger.initialize(FOUNDER, id("T"), id("T"), 100), Ok(()));
    assert_eq!(ledger.create_pool(FOUNDER, id("url"), 50, 10), Ok(()));
    // The pool is keyed by founder and link together.
    assert_eq!(
        ledger.upload(OWNER, id("Qm1"), Some((OTHER, id("url")))),
        Err(Error::UnknownAffiliate)
    );
    assert_eq!(
        ledger.upload(OWNER, id("Qm1"), Some((FOUNDER, id("ur")))),
        Err(Error::UnknownAffiliate)
    );
    assert_eq!(ledger.upload(OWNER, id("Qm1"), Some((FOUNDER, id("url")))), Ok(()));
    assert_eq!(
        ledger.photos(&id("Qm1")).unwrap().affiliate_url,
        Some((FOUNDER, id("url")))
    );
    assert_eq!(ledger.balance_of(OWNER), 10);
}

#[test]
fn upload_whose_reward_overflows_changes_nothing() {
    let mut ledger = Ledger::new();
    assert_eq!(ledger.initialize(OWNER, id("T"), id("T"), u128::MAX - 9), Ok(()));
    assert_eq!(ledger.upload(OWNER, id("Qm1"), None), Err(Error::ArithmeticOverflow));
    assert!(ledger.photos(&id("Qm1")).is_none());
    assert!(ledger.accounts(OWNER).is_none());
    assert_eq!(ledger.balance_of(OWNER), u128::MAX - 9);
    assert_eq!(ledger.transfer(OWNER, OTHER, 1), Ok(()));
    assert_eq!(ledger.upload(OWNER, id("Qm1"), None), Ok(()));
    assert_eq!(ledger.balance_of(OWNER), u128::MAX);
}

#[test]
fn content_ids_are_compared_byte_for_byte() {
    let mut ledger = with_photo();
    assert_eq!(ledger.upload(OWNER, id("Qm"), None), Ok(()));
    assert_eq!(ledger.upload(OWNER, id("Qm11"), None), Ok(()));
    assert_eq!(ledger.upload(OWNER, Vec::new(), None), Ok(()));
    assert_eq!(ledger.upload(OWNER, Vec::new(), None), Err(Error::DuplicateContent));
    assert_eq!(ledger.upload(OWNER, id("Qm2"), None), Ok(()));
    assert_eq!(ledger.accounts(OWNER).unwrap().photos.len(), 5);
}

#[test]
fn update_user_replaces_the_whole_profile() {
    let mut ledger = with_photo();
    ledger.update_user(OWNER, id("Ada"), id("avatar.png"));
    let profile = ledger.accounts(OWNER).unwrap();
    assert_eq!(profile.name, id("Ada"));
    assert_eq!(profile.avatar, id("avatar.png"));
    assert!(profile.photos.is_empty());
    // The content itself stays registered, and the balance stays.
    assert_eq!(ledger.photos(&id("Qm1")).unwrap().owner, OWNER);
    assert_eq!(ledger.balance_of(OWNER), 10);
    assert_eq!(ledger.upload(OWNER, id("Qm2"), None), Ok(()));
    let profile = ledger.accounts(OWNER).unwrap();
    assert_eq!(profile.name, id("Ada"));
    assert_eq!(profile.photos, vec![id("Qm2")]);
}

#[test]
fn update_user_makes_a_profile_for_a_new_account() {
    let mut ledger = Ledger::new();
    ledger.update_user(FAN, id("Fan"), Vec::new());
    let profile = ledger.accounts(FAN).unwrap();
    assert_eq!(profile.name, id("Fan"));
    assert!(profile.avatar.is_empty());
    assert!(profile.photos.is_empty());
    assert_eq!(ledger.balance_of(FAN), 0);
}

#[test]
fn like_appends_and_rewards_the_liker() {
    let mut ledger = with_photo();
    assert_eq!(ledger.like(FAN, id("Qm1")), Ok(()));
    assert_eq!(ledger.like(OTHER, id("Qm1")), Ok(()));
    assert_eq!(ledger.like(OWNER, id("Qm1")), Ok(()));
    assert_eq!(ledger.photos(&id("Qm1")).unwrap().likes, vec![FAN, OTHER, OWNER]);
    assert_eq!(ledger.balance_of(FAN), 1);
    assert_eq!(ledger.balance_of(OTHER), 1);
    assert_eq!(ledger.balance_of(OWNER), 11);
}

#[test]
fn like_of_unknown_content_is_refused() {
    let mut ledger = with_photo();
    assert_eq!(ledger.like(FAN, id("Qm2")), Err(Error::UnknownContent));
    assert_eq!(ledger.balance_of(FAN), 0);
    assert!(ledger.photos(&id("Qm2")).is_none());
}

#[test]
fn like_twice_is_refused() {
    let mut ledger = with_photo();
    assert_eq!(ledger.like(FAN, id("Qm1")), Ok(()));
    assert_eq!(ledger.like(FAN, id("Qm1")), Err(Error::AlreadyLiked));
    assert_eq!(ledger.photos(&id("Qm1")).unwrap().likes, vec![FAN]);
    assert_eq!(ledger.balance_of(FAN), 1);
    assert_eq!(ledger.upload(OWNER, id("Qm2"), None), Ok(()));
    assert_eq!(ledger.like(FAN, id("Qm2")), Ok(()));
    assert_eq!(ledger.balance_of(FAN), 2);
}

#[test]
fn like_whose_reward_overflows_changes_nothing() {
    let mut ledger = with_photo();
    assert_eq!(ledger.initialize(FAN, id("T"), id("T"), u128::MAX), Ok(()));
    assert_eq!(ledger.like(FAN, id("Qm1")), Err(Error::ArithmeticOverflow));
    assert!(ledger.photos(&id("Qm1")).unwrap().likes.is_empty());
    assert_eq!(ledger.balance_of(FAN), u128::MAX);
}

#[test]
fn comment_appends_and_rewards_the_author() {
    let mut ledger = with_photo();
    assert_eq!(ledger.comment(FAN, id("Qm1"), id("nice")), Ok(()));
    assert_eq!(ledger.comment(FAN, id("Qm1"), id("nice")), Ok(()));
    assert_eq!(ledger.comment(OWNER, id("Qm1"), id("thanks")), Ok(()));
    assert_eq!(
        ledger.photos(&id("Qm1")).unwrap().comments,
        vec![id("nice"), id("nice"), id("thanks")]
    );
    assert_eq!(ledger.balance_of(FAN), 2);
    assert_eq!(ledger.balance_of(OWNER), 11);
}

#[test]
fn comment_on_unknown_content_is_refused() {
    let mut ledger = with_photo();
    assert_eq!(ledger.comment(FAN, id("Qm2"), id("nice")), Err(Error::UnknownContent));
    assert!(ledger.photos(&id("Qm2")).is_none());
    assert_eq!(ledger.balance_of(FAN), 0);
}

#[test]
fn comment_whose_reward_overflows_changes_nothing() {
    let mut ledger = with_photo();
    assert_eq!(ledger.initialize(FAN, id("T"), id("T"), u128::MAX), Ok(()));
    assert_eq!(ledger.comment(FAN, id("Qm1"), id("nice")), Err(Error::ArithmeticOverflow));
    assert!(ledger.photos(&id("Qm1")).unwrap().comments.is_empty());
}

#[test]
fn add_variant_appends_and_rewards_the_editor() {
    let mut ledger = with_photo();
    assert_eq!(ledger.add_variant(FAN, id("Qm1"), id("Qm1-small")), Ok(()));
    assert_eq!(ledger.add_variant(OTHER, id("Qm1"), id("Qm1-large")), Ok(()));
    assert_eq!(
        ledger.photos(&id("Qm1")).unwrap().variants,
        vec![id("Qm1-small"), id("Qm1-large")]
    );
    assert_eq!(ledger.balance_of(FAN), 2);
    assert_eq!(ledger.balance_of(OTHER), 2);
    assert_eq!(ledger.balance_of(OWNER), 10);
}

#[test]
fn add_variant_to_unknown_content_is_refused() {
    let mut ledger = with_photo();
    assert_eq!(ledger.add_variant(FAN, id("Qm2"), id("v")), Err(Error::UnknownContent));
    assert_eq!(ledger.balance_of(FAN), 0);
}

#[test]
fn add_variant_twice_is_refused() {
    let mut ledger = with_photo();
    assert_eq!(ledger.add_variant(FAN, id("Qm1"), id("v")), Ok(()));
    assert_eq!(ledger.add_variant(FAN, id("Qm1"), id("v")), Err(Error::DuplicateVariant));
    assert_eq!(ledger.add_variant(OTHER, id("Qm1"), id("v")), Err(Error::DuplicateVariant));
    assert_eq!(ledger.photos(&id("Qm1")).unwrap().variants, vec![id("v")]);
    assert_eq!(ledger.balance_of(FAN), 2);
    assert_eq!(ledger.balance_of(OTHER), 0);
    assert_eq!(ledger.add_variant(OTHER, id("Qm1"), id("w")), Ok(()));
}

#[test]
fn add_variant_whose_reward_overflows_changes_nothing() {
    let mut ledger = with_photo();
    assert_eq!(ledger.initialize(FAN, id("T"), id("T"), u128::MAX - 1), Ok(()));
    assert_eq!(ledger.add_variant(FAN, id("Qm1"), id("v")), Err(Error::ArithmeticOverflow));
    assert!(ledger.photos(&id("Qm1")).unwrap().variants.is_empty());
    assert_eq!(ledger.balance_of(FAN), u128::MAX - 1);
}

#[test]
fn rewards_are_minted_beyond_the_issued_supply() {
    let mut ledger = Ledger::new();
    assert_eq!(ledger.initialize(FOUNDER, id("T"), id("T"), 100), Ok(()));
    assert_eq!(ledger.upload(OWNER, id("Qm1"), None), Ok(()));
    assert_eq!(ledger.like(FAN, id("Qm1")), Ok(()));
    let held = ledger.balance_of(FOUNDER) + ledger.balance_of(OWNER) + ledger.balance_of(FAN);
    assert_eq!(held, 111);
    assert_eq!(ledger.token_info().total_supply, 100);
}
