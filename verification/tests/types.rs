use content_ledger::{AccountProfile, AffiliateInfo, Erc20Token, Error, Event, PhotoInfo};

#[test]
fn default_records_are_empty() {
    let token: Erc20Token<u128> = Erc20Token::default();
    assert_eq!(token, Erc20Token { name: vec![], ticker: vec![], total_supply: 0 });

    let profile = AccountProfile::default();
    assert_eq!(profile, AccountProfile { name: vec![], avatar: vec![], photos: vec![] });

    let record: PhotoInfo<u64> = PhotoInfo::default();
    assert_eq!(
        record,
        PhotoInfo { owner: 0, affiliate_url: None, likes: vec![], variants: vec![], comments: vec![] }
    );

    let pool: AffiliateInfo<u128> = AffiliateInfo::default();
    assert_eq!(pool, AffiliateInfo { single_credit: 0, total_credit: 0 });
}

#[test]
fn errors_and_events_compare_by_value() {
    assert_eq!(Error::NoAllowance, Error::NoAllowance);
    assert_ne!(Error::NoAllowance, Error::InsufficientAllowance);
    assert_ne!(Error::UnknownAffiliate, Error::UnknownPool);
    assert_eq!(Event::Transfer(1, 2, 3), Event::Transfer(1, 2, 3));
    assert_ne!(Event::Transfer(1, 2, 3), Event::Approval(1, 2, 3));
    assert_ne!(Event::Transfer(1, 2, 3), Event::Transfer(2, 1, 3));
}

#[test]
fn records_can_be_cloned() {
    let record =
        PhotoInfo { owner: 7u64, affiliate_url: Some((1, b"u".to_vec())), likes: vec![1, 2], variants: vec![b"v".to_vec()], comments: vec![] };
    assert_eq!(record.clone(), record);
    let pool = AffiliateInfo { single_credit: 1u128, total_credit: 2 };
    let copy = pool;
    assert_eq!(copy, pool);
}
