use tikclip::account_binding::{
    match_flow_for_account, pick_start_account, resolve_account_id, resolve_account_match,
    AccountMatch, ResolveAccountResult,
};

#[test]
fn resolve_or_create_account_for_username_creates_missing_monitored_account() {
    assert_eq!(resolve_account_match(&[], "shop_abc"), Ok(AccountMatch::Create));
}

#[test]
fn resolve_or_create_account_for_username_returns_existing_account_for_canonical_username() {
    assert_eq!(
        resolve_account_match(&[7], "Shop_ABC"),
        Ok(AccountMatch::Existing { account_id: 7 })
    );
    assert_eq!(resolve_account_id(ResolveAccountResult::Existing { account_id: 7 }), 7);
    assert_eq!(resolve_account_id(ResolveAccountResult::Created { account_id: 8 }), 8);
}

#[test]
fn resolve_or_create_account_for_username_errors_on_normalized_duplicates() {
    assert_eq!(
        resolve_account_match(&[1, 2], "shop_abc"),
        Err("duplicate accounts for username shop_abc".to_string())
    );
}

#[test]
fn find_account_by_start_username_errors_on_normalized_duplicates() {
    assert_eq!(pick_start_account("a", vec![]), Ok(None));
    assert_eq!(
        pick_start_account("a", vec![(3, "A".to_string())]),
        Ok(Some((3, "A".to_string())))
    );
    assert_eq!(
        pick_start_account("@a", vec![(3, "A".to_string()), (4, "a".to_string())]),
        Err("duplicate accounts for username @a".to_string())
    );
}

#[test]
fn find_flow_id_for_account_matches_start_username_with_shared_canonical_rule() {
    let rows = vec![
        (1, Some("  @Shop_ABC ".to_string())),
        (2, Some("other".to_string())),
        (3, None),
    ];
    assert_eq!(match_flow_for_account(9, "shop_abc", &rows), Ok(Some(1)));
    assert_eq!(match_flow_for_account(9, "nobody", &rows), Ok(None));
    assert_eq!(match_flow_for_account(9, " @ ", &rows), Ok(None));
}

#[test]
fn find_flow_id_for_account_errors_when_multiple_enabled_flows_share_username() {
    let rows = vec![(1, Some("shop".to_string())), (2, Some("@SHOP".to_string()))];
    assert_eq!(
        match_flow_for_account(9, "shop", &rows),
        Err("multiple enabled flows match account_id 9".to_string())
    );
}
