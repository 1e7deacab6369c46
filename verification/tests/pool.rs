use loan::errors::LoanError;
use loan::factory::LoanFactory;

const WEEK: u64 = 604_800_000;
const YEAR_MS: u64 = 31_536_000_000;

#[test]
fn bootstrap_deposit_mints_exactly_100_shares() {
    let mut f = LoanFactory::new(1, 9);
    let balance = f.loan_deposit(10, 1000, 1_000);
    assert_eq!(balance, 1000);
    assert_eq!(f.loan_shares_of(10), 100);
    assert_eq!(f.loan_total_shares(), 100);
    assert_eq!(f.loan_total_balance(), 1000);
}

#[test]
fn second_deposit_mints_proportional_shares() {
    let mut f = LoanFactory::new(1, 9);
    f.loan_deposit(10, 1000, 1_000);
    let balance = f.loan_deposit(11, 500, 1_001);
    assert_eq!(balance, 500);
    // floor(500 * 100 / 1000) = 50
    assert_eq!(f.loan_shares_of(11), 50);
    assert_eq!(f.loan_total_shares(), 150);
    assert_eq!(f.loan_total_balance(), 1500);
}

#[test]
fn conservation_across_deposits_and_withdrawals() {
    let mut f = LoanFactory::new(1, 9);
    f.loan_deposit(10, 1000, 1_000);
    f.loan_deposit(11, 777, 1_001);
    f.loan_deposit(12, 3, 1_002);
    f.loan_withdraw(11, 300, 1_003).unwrap();
    f.loan_deposit(10, 41, 1_004);
    f.loan_withdraw(10, 1000, 1_005).unwrap();
    let balances = f.loan_balance_of(10) + f.loan_balance_of(11) + f.loan_balance_of(12);
    let shares = f.loan_shares_of(10) + f.loan_shares_of(11) + f.loan_shares_of(12);
    assert_eq!(balances, f.loan_total_balance());
    assert_eq!(shares, f.loan_total_shares());
}

#[test]
fn withdraw_more_than_balance_is_refused() {
    let mut f = LoanFactory::new(1, 9);
    f.loan_deposit(10, 1000, 1_000);
    f.loan_deposit(11, 500, 1_001);
    let r = f.loan_withdraw(11, 600, 1_002);
    assert_eq!(r, Err(LoanError::InsufficientFunds));
    // the refusal left everything in place
    assert_eq!(f.loan_balance_of(11), 500);
    assert_eq!(f.loan_total_balance(), 1500);
}

#[test]
fn withdraw_burns_proportional_shares() {
    let mut f = LoanFactory::new(1, 9);
    f.loan_deposit(10, 1000, 1_000);
    let r = f.loan_withdraw(10, 400, 1_001);
    // floor(100 * 400 / 1000) = 40 shares burned
    assert_eq!(r, Ok(400));
    assert_eq!(f.loan_shares_of(10), 60);
    assert_eq!(f.loan_total_shares(), 60);
    assert_eq!(f.loan_balance_of(10), 600);
}

#[test]
fn withdraw_all_empties_the_account() {
    let mut f = LoanFactory::new(1, 9);
    f.loan_deposit(10, 1000, 1_000);
    let r = f.loan_withdraw_all(10, 1_001);
    assert_eq!(r, Ok(1000));
    assert_eq!(f.loan_balance_of(10), 0);
    assert_eq!(f.loan_shares_of(10), 0);
    assert_eq!(f.loan_total_balance(), 0);
    assert_eq!(f.loan_total_shares(), 0);
}

#[test]
fn failed_deposit_transfer_is_reversed_exactly() {
    let mut f = LoanFactory::new(1, 9);
    f.loan_deposit(10, 1000, 1_000);
    f.on_transfer_loan_deposit(10, 1000, 100, false);
    assert_eq!(f.loan_balance_of(10), 0);
    assert_eq!(f.loan_shares_of(10), 0);
    assert_eq!(f.loan_total_balance(), 0);
    assert_eq!(f.loan_total_shares(), 0);
}

#[test]
fn successful_deposit_transfer_changes_nothing() {
    let mut f = LoanFactory::new(1, 9);
    f.loan_deposit(10, 1000, 1_000);
    f.on_transfer_loan_deposit(10, 1000, 100, true);
    assert_eq!(f.loan_balance_of(10), 1000);
    assert_eq!(f.loan_shares_of(10), 100);
}

#[test]
fn failed_withdraw_transfer_is_reversed_exactly() {
    let mut f = LoanFactory::new(1, 9);
    f.loan_deposit(10, 1000, 1_000);
    f.loan_withdraw(10, 400, 1_001).unwrap();
    f.on_transfer_loan_withdraw(10, 400, 40, false);
    assert_eq!(f.loan_balance_of(10), 1000);
    assert_eq!(f.loan_shares_of(10), 100);
    assert_eq!(f.loan_total_balance(), 1000);
    assert_eq!(f.loan_total_shares(), 100);
}

#[test]
fn reward_is_capped_by_the_yearly_rate() {
    let mut f = LoanFactory::new(1, 9);
    let t0: u64 = 1_000;
    f.loan_deposit(10, 1_000_000_000_000, t0);
    // feed the reward pool through a failed payout's compensation
    f.on_transfer_claim_rewards(99, 1_000_000_000, false);
    assert_eq!(f.loan_total_rewards_pool(), 1_000_000_000);
    // pool share would be 1_000_000_000 * 100 / 100; the cap wins:
    // floor(floor(10^12 * 28 / 100) / 31_536_000_000) = 8 per millisecond
    let elapsed: u64 = 1_000;
    let unclaimed = f.loan_reward_unclaimed_of(10, t0 + elapsed);
    assert_eq!(unclaimed, 8 * elapsed as u128);
    assert_eq!(f.loan_reward_of(10, t0 + elapsed), 8 * elapsed as u128);
}

#[test]
fn reward_is_zero_without_shares_or_time() {
    let mut f = LoanFactory::new(1, 9);
    f.on_transfer_claim_rewards(99, 1_000, false);
    // never deposited: no fold time, no shares
    assert_eq!(f.loan_reward_unclaimed_of(42, 5_000), 0);
    let t0: u64 = 1_000;
    f.loan_deposit(10, 500, t0);
    // no time elapsed since the deposit's fold
    assert_eq!(f.loan_reward_unclaimed_of(10, t0), 0);
}

#[test]
fn reward_is_zero_when_the_clock_reads_before_the_last_fold() {
    let mut f = LoanFactory::new(1, 9);
    f.on_transfer_claim_rewards(99, 1_000, false);
    f.loan_deposit(10, 500, 1_000);
    assert_eq!(f.loan_reward_unclaimed_of(10, 500), 0);
}

#[test]
fn claim_rewards_pays_and_zeroes_the_account() {
    let mut f = LoanFactory::new(1, 9);
    f.on_transfer_claim_rewards(30, 50, false);
    assert_eq!(f.loan_reward_claimed_of(30), 50);
    assert_eq!(f.loan_total_rewards_pool(), 50);
    let r = f.loan_claim_rewards(30, 2_000);
    assert_eq!(r, Ok(50));
    assert_eq!(f.loan_reward_claimed_of(30), 0);
    assert_eq!(f.loan_total_rewards_pool(), 0);
}

#[test]
fn claim_rewards_beyond_the_pool_is_refused() {
    let mut f = LoanFactory::new(1, 9);
    let t0: u64 = 1_000;
    f.loan_deposit(10, 1_000_000_000_000, t0);
    f.on_transfer_claim_rewards(99, 1_000, false);
    // fold twice a year apart: each fold accrues the full pool share of
    // 1_000 without draining the pool, so the claim then owes 2_000
    // against a pool of 1_000
    let t1 = t0 + YEAR_MS;
    f.loan_deposit(10, 1, t1);
    assert_eq!(f.loan_reward_claimed_of(10), 1_000);
    let t2 = t1 + YEAR_MS;
    let r = f.loan_claim_rewards(10, t2);
    assert_eq!(r, Err(LoanError::InsufficientFunds));
    assert_eq!(f.loan_reward_claimed_of(10), 1_000);
    assert_eq!(f.loan_total_rewards_pool(), 1_000);
}

#[test]
fn failed_reward_transfer_restores_pool_and_account() {
    let mut f = LoanFactory::new(1, 9);
    f.on_transfer_claim_rewards(30, 50, false);
    f.loan_claim_rewards(30, 2_000).unwrap();
    f.on_transfer_claim_rewards(30, 50, false);
    assert_eq!(f.loan_reward_claimed_of(30), 50);
    assert_eq!(f.loan_total_rewards_pool(), 50);
}

#[test]
fn available_balance_subtracts_outstanding_loans() {
    let mut f = LoanFactory::new(1, 9);
    f.loan_deposit(10, 2_000, 1_000);
    assert_eq!(f.loan_available_balance(), 2_000);
    f.loan_update_nft_price(7, 1_000, 10, 1).unwrap();
    f.loan_nft_whitelist_add(7, 1).unwrap();
    f.loan_nft(42, 7, 20).unwrap();
    f.loan_resolve_nft(20, 7, 42, 1_000, 10, true, 1_000);
    assert_eq!(f.loan_available_balance(), 2_000 - 900);
}

#[test]
fn error_messages_name_each_refusal() {
    assert!(!LoanError::Validation.message().is_empty());
    assert!(!LoanError::Permission.message().is_empty());
    assert!(!LoanError::InsufficientFunds.message().is_empty());
    assert!(!LoanError::NotFound.message().is_empty());
    assert!(!LoanError::Expiry.message().is_empty());
}

#[test]
fn yton_rounds_half_up_to_whole_units() {
    assert_eq!(loan::yton(1_500_000_000_000_000_000_000_000), 2);
    assert_eq!(loan::yton(1_499_999_999_999_999_999_999_999), 1);
    assert_eq!(loan::yton(499_999_999_999_999_999_999_999), 0);
    assert_eq!(loan::yton(500_000_000_000_000_000_000_000), 1);
}

#[test]
fn week_constant_matches_the_repayment_window() {
    assert_eq!(loan::rewards::TIME_IN_WEEK, WEEK);
}

/// The snapshot-based share burn can drift an account's share ratio away
/// from its balance ratio, but the sums themselves stay exact: over a long
/// mixed sequence, balances and shares always total the pool's counters.
#[test]
fn conservation_holds_over_a_long_mixed_sequence() {
    let accounts: [u64; 4] = [10, 11, 12, 13];
    let mut f = LoanFactory::new(1, 9);
    let mut seed: u64 = 0x2545_f491_4f6c_dd1d;
    let mut now: u64 = 1_000;
    for _ in 0..500 {
        seed = seed.wrapping_mul(6_364_136_223_846_793_005).wrapping_add(1_442_695_040_888_963_407);
        let who = accounts[(seed >> 33) as usize % accounts.len()];
        let amount = u128::from((seed >> 17) % 10_000) + 1;
        now += (seed >> 7) % 1_000;
        if seed % 3 == 0 {
            let _ = f.loan_withdraw(who, amount, now);
        } else {
            f.loan_deposit(who, amount, now);
        }
        let balances: u128 = accounts.iter().map(|a| f.loan_balance_of(*a)).sum();
        let shares: u128 = accounts.iter().map(|a| f.loan_shares_of(*a)).sum();
        assert_eq!(balances, f.loan_total_balance());
        assert_eq!(shares, f.loan_total_shares());
        assert!(f.loan_total_loan() <= f.loan_total_balance());
    }
}
