use record_ledger::blog::BlogLedger;
use record_ledger::identity::Identity;
use record_ledger::journal::create_entry_handler;
use record_ledger::seeds::blog_seed;
use record_ledger::seeds::entry_seed;
use record_ledger::seeds::post_seed;

fn ident(b: u8) -> Identity {
    Identity::new(vec![b; 32]).unwrap()
}

#[test]
fn entry_seed_layout() {
    // 2024 = 0x07E8, little-endian first: E8 07, then month, day, owner.
    let owner = ident(0xAB);
    let seed = entry_seed(2024, 2, 30, &owner);
    let mut expected = vec![0xE8u8, 0x07, 2, 30];
    expected.extend_from_slice(&[0xABu8; 32]);
    assert_eq!(seed, expected);
}

#[test]
fn entry_seed_year_boundaries() {
    let owner = ident(0);
    assert_eq!(&entry_seed(0, 1, 1, &owner)[..4], &[0, 0, 1, 1]);
    assert_eq!(&entry_seed(65535, 12, 31, &owner)[..4], &[0xFF, 0xFF, 12, 31]);
    assert_eq!(&entry_seed(256, 1, 1, &owner)[..4], &[0, 1, 1, 1]);
}

#[test]
fn blog_seed_layout() {
    let owner = ident(0x11);
    let seed = blog_seed(&owner, "garden");
    let mut expected = vec![0x11u8; 32];
    expected.extend_from_slice("garden".as_bytes());
    assert_eq!(seed, expected);
}

#[test]
fn blog_seed_uses_utf8_bytes() {
    let owner = ident(0);
    let seed = blog_seed(&owner, "é");
    let mut expected = vec![0u8; 32];
    expected.extend_from_slice(&[0xC3, 0xA9]);
    assert_eq!(seed, expected);
}

#[test]
fn post_seed_layout() {
    let owner = ident(0x11);
    let blog_key = blog_seed(&owner, "garden");
    let seed = post_seed(&blog_key, "weeds");
    let mut expected = blog_key.clone();
    expected.extend_from_slice("weeds".as_bytes());
    assert_eq!(seed, expected);
}

#[test]
fn keys_differ_when_fields_differ() {
    assert_ne!(entry_seed(2024, 2, 30, &ident(1)), entry_seed(2024, 2, 30, &ident(2)));
    assert_ne!(entry_seed(2024, 2, 29, &ident(1)), entry_seed(2024, 2, 30, &ident(1)));
    assert_ne!(entry_seed(2023, 2, 30, &ident(1)), entry_seed(2024, 2, 30, &ident(1)));
    assert_eq!(entry_seed(2024, 2, 30, &ident(1)), entry_seed(2024, 2, 30, &ident(1)));
    assert_ne!(blog_seed(&ident(1), "a"), blog_seed(&ident(1), "b"));
    assert_ne!(blog_seed(&ident(1), "a"), blog_seed(&ident(2), "a"));
}

#[test]
fn entry_key_bytes_match_its_fields() {
    let e = create_entry_handler(
        ident(5),
        "calm".to_string(),
        1999,
        12,
        31,
        "fog".to_string(),
        "note".to_string(),
    )
    .unwrap();
    assert_eq!(e.key_bytes(), entry_seed(1999, 12, 31, &ident(5)));
}

#[test]
fn stored_records_expose_their_keys() {
    let mut l = BlogLedger::new();
    l.create_blog(ident(3), "garden".to_string(), "d".to_string())
        .unwrap();
    let b = l.get_blog(&ident(3), "garden").unwrap();
    assert_eq!(b.key_bytes(), blog_seed(&ident(3), "garden"));
    l.create_post(
        &ident(3),
        &ident(3),
        "garden",
        "weeds".to_string(),
        "body".to_string(),
    )
    .unwrap();
    let p = l.get_post(&ident(3), "garden", "weeds").unwrap();
    assert_eq!(p.blog, blog_seed(&ident(3), "garden"));
}
