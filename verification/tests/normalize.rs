use tikclip::normalize::{
    canonicalize_username, username_lookup_key, usernames_match_for_lookup,
    CanonicalUsernameError,
};

#[test]
fn canonicalize_username_strips_one_leading_at_and_whitespace() {
    assert_eq!(
        canonicalize_username("  @Shop_ABC  ").unwrap().canonical,
        "Shop_ABC"
    );
    assert_eq!(
        canonicalize_username("@@Shop_ABC").unwrap().canonical,
        "@Shop_ABC"
    );
    assert_eq!(
        canonicalize_username("shop_abc").unwrap().lookup_key,
        "shop_abc"
    );
}

#[test]
fn canonicalize_username_rejects_empty_after_cleanup() {
    assert_eq!(
        canonicalize_username(" @ ").unwrap_err(),
        CanonicalUsernameError::Empty
    );
}

#[test]
fn usernames_match_for_lookup_uses_canonical_rule() {
    assert!(usernames_match_for_lookup(" @Shop_ABC ", "shop_abc"));
    assert!(!usernames_match_for_lookup("@@Shop_ABC", "@shop_abc"));
    assert!(!usernames_match_for_lookup(" @ ", "shop_abc"));
}

#[test]
fn lookup_key_lowercases_the_canonical_name() {
    assert_eq!(username_lookup_key("  @Shop_ABC ").as_deref(), Some("shop_abc"));
    assert_eq!(username_lookup_key("@"), None);
}

#[test]
fn canonical_name_is_idempotent() {
    let once = canonicalize_username(" @@Name ").unwrap().canonical;
    let twice = canonicalize_username(&once).unwrap().canonical;
    assert_eq!(once, "@Name");
    assert_eq!(twice, "Name");
}

#[test]
fn lookup_match_is_symmetric() {
    assert_eq!(
        usernames_match_for_lookup("@Abc", "abc"),
        usernames_match_for_lookup("abc", "@Abc")
    );
}
