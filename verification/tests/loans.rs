use loan::errors::LoanError;
use loan::factory::LoanFactory;
use loan::meta::JsonLoan;

const WEEK: u64 = 604_800_000;

/// A pool with owner 1, commission 9, one depositor and contract 7
/// whitelisted at price 1000, percent 10.
fn funded_pool() -> LoanFactory {
    let mut f = LoanFactory::new(1, 9);
    f.loan_deposit(10, 2_000, 1_000);
    f.loan_update_nft_price(7, 1_000, 10, 1).unwrap();
    f.loan_nft_whitelist_add(7, 1).unwrap();
    f
}

/// A funded pool with a fully opened loan on token 42 for borrower 20.
fn pool_with_loan(now: u64) -> LoanFactory {
    let mut f = funded_pool();
    f.loan_nft(42, 7, 20).unwrap();
    let granted = f.loan_resolve_nft(20, 7, 42, 1_000, 10, true, now);
    assert_eq!(granted, Some((900, now + WEEK)));
    f.on_transfer_resolve_nft(20, 900, 7, 42, true);
    f
}

#[test]
fn set_terms_is_owner_only() {
    let mut f = LoanFactory::new(1, 9);
    assert_eq!(f.loan_update_nft_price(7, 1_000, 10, 2), Err(LoanError::Permission));
    assert_eq!(f.loan_update_nft_price(7, 1_000, 10, 1), Ok(()));
}

#[test]
fn set_terms_bounds_percent_and_price() {
    let mut f = LoanFactory::new(1, 9);
    assert_eq!(f.loan_update_nft_price(7, 1_000, 0, 1), Err(LoanError::Validation));
    assert_eq!(f.loan_update_nft_price(7, 1_000, 51, 1), Err(LoanError::Validation));
    assert_eq!(f.loan_update_nft_price(7, 0, 10, 1), Err(LoanError::Validation));
    assert_eq!(f.loan_update_nft_price(7, 1, 1, 1), Ok(()));
    assert_eq!(f.loan_update_nft_price(7, 1, 50, 1), Ok(()));
}

#[test]
fn whitelist_add_and_remove_are_owner_only() {
    let mut f = LoanFactory::new(1, 9);
    assert_eq!(f.loan_nft_whitelist_add(7, 2), Err(LoanError::Permission));
    assert_eq!(f.loan_nft_whitelist_add(7, 1), Ok(()));
    assert_eq!(f.loan_nft_whitelist_remove(7, 2), Err(LoanError::Permission));
    assert_eq!(f.loan_nft_whitelist_remove(7, 1), Ok(()));
}

#[test]
fn eligibility_needs_listing_and_both_terms() {
    let mut f = LoanFactory::new(1, 9);
    assert!(!f.loan_nft_is_whitelist(7));
    f.loan_nft_whitelist_add(7, 1).unwrap();
    // listed but no terms yet
    assert!(!f.loan_nft_is_whitelist(7));
    f.loan_update_nft_price(7, 1_000, 10, 1).unwrap();
    assert!(f.loan_nft_is_whitelist(7));
    // terms without listing are not enough either
    f.loan_update_nft_price(8, 500, 5, 1).unwrap();
    assert!(!f.loan_nft_is_whitelist(8));
}

#[test]
fn removing_a_contract_clears_its_terms() {
    let mut f = LoanFactory::new(1, 9);
    f.loan_nft_whitelist_add(7, 1).unwrap();
    f.loan_update_nft_price(7, 1_000, 10, 1).unwrap();
    f.loan_nft_whitelist_remove(7, 1).unwrap();
    assert!(!f.loan_nft_is_whitelist(7));
    assert_eq!(f.loan_nft_price(7), Err(LoanError::NotFound));
    // re-listing alone does not restore the cleared terms
    f.loan_nft_whitelist_add(7, 1).unwrap();
    assert!(!f.loan_nft_is_whitelist(7));
}

#[test]
fn whitelist_lists_only_eligible_contracts() {
    let mut f = LoanFactory::new(1, 9);
    f.loan_nft_whitelist_add(7, 1).unwrap();
    f.loan_update_nft_price(7, 1_000, 10, 1).unwrap();
    f.loan_nft_whitelist_add(8, 1).unwrap();
    // listed without terms
    f.loan_update_nft_price(9, 500, 5, 1).unwrap();
    // terms without listing
    f.loan_nft_whitelist_add(11, 1).unwrap();
    f.loan_update_nft_price(11, 250, 2, 1).unwrap();
    assert_eq!(f.loan_nft_whitelist(), vec![7, 11]);
}

#[test]
fn open_loan_scenario_credits_900_for_a_week() {
    let mut f = funded_pool();
    let now: u64 = 5_000;
    assert_eq!(f.loan_total_loan(), 0);
    f.loan_nft(42, 7, 20).unwrap();
    // custody recorded before any value moves
    assert_eq!(f.loan_owner_by_id(42, 7), Ok(20));
    let granted = f.loan_resolve_nft(20, 7, 42, 1_000, 10, true, now);
    assert_eq!(granted, Some((900, now + WEEK)));
    f.on_transfer_resolve_nft(20, 900, 7, 42, true);
    assert_eq!(f.loan_total_loan(), 900);
    assert_eq!(f.loan_balance_borrowed_of(20), 900);
    assert_eq!(f.loan_rest_by_id(42, 7), Ok(900));
    assert_eq!(f.loan_total_nft(), 1);
}

#[test]
fn open_loan_requires_an_eligible_contract() {
    let mut f = LoanFactory::new(1, 9);
    f.loan_deposit(10, 2_000, 1_000);
    assert_eq!(f.loan_nft(42, 7, 20), Err(LoanError::Permission));
}

#[test]
fn open_loan_fails_while_a_loan_is_active() {
    let mut f = pool_with_loan(5_000);
    assert_eq!(f.loan_nft(42, 7, 21), Err(LoanError::Validation));
    // a different token of the same contract is fine
    assert_eq!(f.loan_nft(43, 7, 21), Ok(()));
}

#[test]
fn open_loan_is_rejected_beyond_available_liquidity() {
    let mut f = LoanFactory::new(1, 9);
    f.loan_deposit(10, 500, 1_000);
    f.loan_update_nft_price(7, 1_000, 10, 1).unwrap();
    f.loan_nft_whitelist_add(7, 1).unwrap();
    assert_eq!(f.loan_nft(42, 7, 20), Err(LoanError::InsufficientFunds));
    // with enough liquidity the same call passes
    f.loan_deposit(11, 500, 1_001);
    assert_eq!(f.loan_nft(42, 7, 20), Ok(()));
}

#[test]
fn failed_custody_transfer_clears_the_custodian() {
    let mut f = funded_pool();
    f.loan_nft(42, 7, 20).unwrap();
    let granted = f.loan_resolve_nft(20, 7, 42, 1_000, 10, false, 5_000);
    assert_eq!(granted, None);
    assert_eq!(f.loan_owner_by_id(42, 7), Err(LoanError::NotFound));
    assert_eq!(f.loan_total_loan(), 0);
}

#[test]
fn failed_payout_compensation_restores_the_debt_but_not_custody() {
    let mut f = funded_pool();
    let total_loan_before = f.loan_total_loan();
    let borrowed_before = f.loan_balance_borrowed_of(20);
    f.loan_nft(42, 7, 20).unwrap();
    f.loan_resolve_nft(20, 7, 42, 1_000, 10, true, 5_000);
    f.on_transfer_resolve_nft(20, 900, 7, 42, false);
    assert_eq!(f.loan_total_loan(), total_loan_before);
    assert_eq!(f.loan_balance_borrowed_of(20), borrowed_before);
    assert_eq!(f.loan_rest_by_id(42, 7), Ok(0));
    // the custody transfer itself is not wound back
    assert_eq!(f.loan_owner_by_id(42, 7), Ok(20));
    // the loan window was cleared
    assert_eq!(f.loan_total_nft(), 0);
}

#[test]
fn repay_requires_the_exact_payment() {
    let now: u64 = 5_000;
    let mut f = pool_with_loan(now);
    // required: 900 + 900 * 9 / 100 = 981
    assert_eq!(f.loan_nft_pay(42, 7, 20, 980, now + 1), Err(LoanError::Validation));
    assert_eq!(f.loan_nft_pay(42, 7, 20, 982, now + 1), Err(LoanError::Validation));
    assert_eq!(f.loan_total_loan(), 900);
    assert_eq!(f.loan_nft_pay(42, 7, 20, 981, now + 1), Ok((981, 81)));
    assert_eq!(f.loan_total_loan(), 0);
    assert_eq!(f.loan_rest_by_id(42, 7), Ok(0));
    assert_eq!(f.loan_balance_borrowed_of(20), 0);
    assert_eq!(f.loan_total_rewards_pool(), 81);
}

#[test]
fn repay_window_closes_exactly_at_expiry() {
    let now: u64 = 5_000;
    let expiry = now + WEEK;
    let mut f = pool_with_loan(now);
    assert_eq!(f.loan_nft_pay(42, 7, 20, 981, expiry), Err(LoanError::Expiry));
    assert_eq!(f.loan_nft_pay(42, 7, 20, 981, expiry + 1), Err(LoanError::Expiry));
    assert_eq!(f.loan_nft_pay(42, 7, 20, 981, expiry - 1), Ok((981, 81)));
}

#[test]
fn repay_without_a_loan_is_refused() {
    let mut f = funded_pool();
    assert_eq!(f.loan_nft_pay(42, 7, 20, 0, 5_000), Err(LoanError::NotFound));
}

#[test]
fn repay_of_an_already_repaid_loan_is_refused() {
    let now: u64 = 5_000;
    let mut f = pool_with_loan(now);
    f.loan_nft_pay(42, 7, 20, 981, now + 1).unwrap();
    assert_eq!(f.loan_nft_pay(42, 7, 20, 0, now + 2), Err(LoanError::Validation));
}

#[test]
fn failed_refund_compensation_restores_the_repayment() {
    let now: u64 = 5_000;
    let mut f = pool_with_loan(now);
    f.loan_nft_pay(42, 7, 20, 981, now + 1).unwrap();
    f.on_transfer_nft_pay(20, 981, 81, 7, 42, false);
    assert_eq!(f.loan_total_loan(), 900);
    assert_eq!(f.loan_rest_by_id(42, 7), Ok(900));
    assert_eq!(f.loan_balance_borrowed_of(20), 900);
    assert_eq!(f.loan_total_rewards_pool(), 0);
}

#[test]
fn claim_returns_the_token_once_the_loan_is_closed() {
    let now: u64 = 5_000;
    let mut f = pool_with_loan(now);
    // still outstanding
    assert_eq!(f.loan_nft_claim(42, 7), Err(LoanError::Validation));
    f.loan_nft_pay(42, 7, 20, 981, now + 1).unwrap();
    assert_eq!(f.loan_nft_claim(42, 7), Ok(20));
    f.loan_resolve_nft_claim(20, 7, 42, true);
    assert_eq!(f.loan_owner_by_id(42, 7), Err(LoanError::NotFound));
    assert_eq!(f.loan_total_nft(), 0);
    // the principal record stays at its repaid zero
    assert_eq!(f.loan_rest_by_id(42, 7), Ok(0));
}

#[test]
fn claim_without_a_custodian_is_refused() {
    let f = funded_pool();
    assert_eq!(f.loan_nft_claim(42, 7), Err(LoanError::NotFound));
}

#[test]
fn failed_return_transfer_keeps_the_loan_row() {
    let now: u64 = 5_000;
    let mut f = pool_with_loan(now);
    f.loan_nft_pay(42, 7, 20, 981, now + 1).unwrap();
    f.loan_resolve_nft_claim(20, 7, 42, false);
    assert_eq!(f.loan_owner_by_id(42, 7), Ok(20));
}

#[test]
fn seizure_opens_exactly_after_expiry() {
    let now: u64 = 5_000;
    let expiry = now + WEEK;
    let mut f = pool_with_loan(now);
    assert_eq!(f.loan_nft_claim_expired(42, 7, now + 1, 1), Err(LoanError::Expiry));
    assert_eq!(f.loan_nft_claim_expired(42, 7, expiry, 1), Err(LoanError::Expiry));
    assert_eq!(f.loan_nft_claim_expired(42, 7, expiry + 1, 1), Ok(20));
    // custody passed to the operator, the window is gone, the debt stays
    assert_eq!(f.loan_owner_by_id(42, 7), Ok(1));
    assert_eq!(f.loan_total_nft(), 0);
    assert_eq!(f.loan_total_loan(), 900);
    assert_eq!(f.loan_balance_borrowed_of(20), 900);
    // with the window gone a second seizure finds nothing to act on
    assert_eq!(f.loan_nft_claim_expired(42, 7, expiry + 2, 1), Err(LoanError::NotFound));
}

#[test]
fn seizure_without_a_loan_is_refused() {
    let mut f = funded_pool();
    assert_eq!(f.loan_nft_claim_expired(42, 7, 5_000, 1), Err(LoanError::NotFound));
}

#[test]
fn terms_query_lists_price_then_percent() {
    let mut f = LoanFactory::new(1, 9);
    assert_eq!(f.loan_nft_price(7), Err(LoanError::NotFound));
    f.loan_update_nft_price(7, 1_000, 10, 1).unwrap();
    assert_eq!(f.loan_nft_price(7), Ok(vec![1_000, 10]));
}

#[test]
fn commission_is_reported() {
    let f = LoanFactory::new(1, 9);
    assert_eq!(f.loan_commission(), 9);
}

#[test]
fn loan_report_carries_the_window_and_principal() {
    let now: u64 = 5_000;
    let f = pool_with_loan(now);
    let report = f.loan_nft_by_id(42, 7, now + 1).unwrap();
    assert_eq!(
        report,
        JsonLoan {
            token_id: 42,
            contract_id: 7,
            owner_id: 20,
            started_at: now,
            expired_at: now + WEEK,
            price: 900,
            expired: false,
        }
    );
    assert!(f.loan_nft_by_id(42, 7, now + WEEK + 1).unwrap().expired);
    assert_eq!(f.loan_nft_by_id(43, 7, now).unwrap_err(), LoanError::NotFound);
}

#[test]
fn reports_by_owner_page_through_the_holdings() {
    let now: u64 = 5_000;
    let mut f = funded_pool();
    f.loan_deposit(10, 2_000, 1_000);
    for token in [42, 43] {
        f.loan_nft(token, 7, 20).unwrap();
        f.loan_resolve_nft(20, 7, token, 1_000, 10, true, now);
        f.on_transfer_resolve_nft(20, 900, 7, token, true);
    }
    let all = f.loan_nft_by_owner(20, None, None, now).unwrap();
    assert_eq!(all.len(), 2);
    assert_eq!(all[0].token_id, 42);
    assert_eq!(all[1].token_id, 43);
    let page = f.loan_nft_by_owner(20, Some(1), Some(5), now).unwrap();
    assert_eq!(page.len(), 1);
    assert_eq!(page[0].token_id, 43);
    let first = f.loan_nft_by_owner(20, None, Some(1), now).unwrap();
    assert_eq!(first.len(), 1);
    assert_eq!(first[0].token_id, 42);
}

#[test]
fn reports_by_owner_validate_the_page() {
    let now: u64 = 5_000;
    let mut f = pool_with_loan(now);
    assert_eq!(f.loan_nft_by_owner(20, None, Some(0), now), Err(LoanError::Validation));
    assert_eq!(f.loan_nft_by_owner(20, Some(7), None, now), Err(LoanError::Validation));
    // an owner holding nothing gets an empty page, whatever the bounds
    assert_eq!(f.loan_nft_by_owner(77, Some(7), Some(0), now), Ok(vec![]));
}

#[test]
fn reports_by_owner_need_a_recorded_principal() {
    let now: u64 = 5_000;
    let mut f = funded_pool();
    // opened but never resolved: custody recorded, principal not yet
    f.loan_nft(42, 7, 20).unwrap();
    assert_eq!(f.loan_nft_by_owner(20, None, None, now), Err(LoanError::NotFound));
}
