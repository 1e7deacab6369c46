//! The lending pool itself: the ledger singleton and every operation on it.
//!
//! Operations that in a deployed system would end in an external transfer
//! are split in two.  The operation proper validates, mutates the ledger
//! optimistically and returns the amounts to transfer; the caller performs
//! the transfer and then reports its outcome to the matching resolution
//! handler (`loan_resolve_nft`, `loan_resolve_nft_claim`, or one of the
//! `on_transfer_*` handlers), which either confirms the mutation or applies
//! its exact inverse.

use vstd::prelude::*;
use crate::{AccountKey, ContractId, TokenId};
use crate::account::{
    AccountEntry, acct_of, balance_of, balance_total, claim_time_of, find_account, has_acct,
    lemma_entry_le_totals, lemma_totals_nonneg, loan_of, reward_of, shares_of, shares_total,
};
use crate::collateral::{
    CollateralEntry, coll_of, custodian_of, expiry_floor, expiry_of, find_collateral,
    percent_rec_of, price_rec_of, principal_of, principal_rec_of,
};
use crate::errors::LoanError;
use crate::rewards::{
    BOOTSTRAP_SHARES, TIME_IN_WEEK, compute_unclaimed, reward_math_fits, spec_burned_shares,
    spec_minted_shares, spec_unclaimed,
};
use crate::table::{
    distinct_keys, key_index, lemma_key_index, lemma_seq_sum_push, seq_sum,
};
use crate::whitelist::{
    WhitelistEntry, find_listing, is_eligible, listed, wl_of, wl_percent, wl_price,
};

verus! {

/// The pooled-liquidity lending ledger.
///
/// All amounts are in the smallest currency unit; all times are milliseconds
/// since the epoch.  The ledger holds no I/O: callers supply the acting
/// principal, attached payment and current time.
pub struct LoanFactory {
    /// The pool operator, the only principal allowed to manage the whitelist.
    pub owner_id: AccountKey,
    /// Fee rate applied to loan principal at repayment, in percent.
    pub commission: u128,
    /// Sum of all deposited balances.
    pub total_balance: u128,
    /// Funds set aside for rewards, fed by repayment fees.
    pub total_rewards_pool: u128,
    /// Sum of all pool shares.
    pub total_shares: u128,
    /// Sum of all outstanding loan principal.
    pub total_loan: u128,
    /// Per-principal rows.
    pub accounts: Vec<AccountEntry>,
    /// Per-collateral rows.
    pub collaterals: Vec<CollateralEntry>,
    /// Per-contract whitelist rows.
    pub whitelist: Vec<WhitelistEntry>,
}

impl LoanFactory {
    /// Well-formedness of the ledger: keys are unique, the pool totals equal
    /// the sums of the account rows, lent principal never exceeds deposits,
    /// and every recorded expiry lies a full repayment window after the
    /// epoch.
    pub open spec fn wf(self) -> bool {
        &&& distinct_keys(self.accounts@)
        &&& distinct_keys(self.collaterals@)
        &&& distinct_keys(self.whitelist@)
        &&& balance_total(self.accounts@) == self.total_balance as int
        &&& shares_total(self.accounts@) == self.total_shares as int
        &&& self.total_loan <= self.total_balance
        &&& forall|i: int| 0 <= i < self.collaterals@.len() ==> expiry_floor(
            #[trigger] self.collaterals@[i],
        )
    }

    /// Deposited balance of a principal.
    pub open spec fn acct_balance(self, id: AccountKey) -> u128 {
        balance_of(self.accounts@, id)
    }

    /// Pool shares of a principal.
    pub open spec fn acct_shares(self, id: AccountKey) -> u128 {
        shares_of(self.accounts@, id)
    }

    /// Outstanding loan principal of a principal.
    pub open spec fn acct_loan(self, id: AccountKey) -> u128 {
        loan_of(self.accounts@, id)
    }

    /// Folded reward of a principal.
    pub open spec fn acct_reward(self, id: AccountKey) -> u128 {
        reward_of(self.accounts@, id)
    }

    /// Last reward-fold time of a principal.
    pub open spec fn acct_claim_time(self, id: AccountKey) -> Option<u64> {
        claim_time_of(self.accounts@, id)
    }

    /// The recorded custodian of a collateral token.
    pub open spec fn coll_custodian(self, c: ContractId, t: TokenId) -> Option<AccountKey> {
        custodian_of(self.collaterals@, c, t)
    }

    /// The principal record of a collateral token.
    pub open spec fn coll_principal_rec(self, c: ContractId, t: TokenId) -> Option<u128> {
        principal_rec_of(self.collaterals@, c, t)
    }

    /// Outstanding principal of a collateral token, zero when unrecorded.
    pub open spec fn coll_principal(self, c: ContractId, t: TokenId) -> u128 {
        principal_of(self.collaterals@, c, t)
    }

    /// The price captured for the running loan on a collateral token.
    pub open spec fn coll_price(self, c: ContractId, t: TokenId) -> Option<u128> {
        price_rec_of(self.collaterals@, c, t)
    }

    /// The fee percent captured for the running loan on a collateral token.
    pub open spec fn coll_percent(self, c: ContractId, t: TokenId) -> Option<u64> {
        percent_rec_of(self.collaterals@, c, t)
    }

    /// The expiry of the running loan on a collateral token.
    pub open spec fn coll_expiry(self, c: ContractId, t: TokenId) -> Option<u64> {
        expiry_of(self.collaterals@, c, t)
    }

    /// Whether a contract is eligible for loans: listed with both terms set.
    pub open spec fn eligible(self, c: ContractId) -> bool {
        is_eligible(self.whitelist@, c)
    }

    /// Liquidity not currently lent out.
    pub open spec fn available(self) -> int {
        self.total_balance as int - self.total_loan as int
    }

    /// The machine-width bounds under which a principal's reward can be
    /// folded: the reward formula fits, and the folded reward cannot
    /// overflow even if the whole reward pool accrued.
    pub open spec fn fold_fits(self, id: AccountKey, now: u64) -> bool {
        &&& reward_math_fits(
            self.acct_balance(id),
            self.acct_shares(id),
            self.total_rewards_pool,
            self.total_shares,
            self.acct_claim_time(id),
            now,
        )
        &&& self.acct_reward(id) as int + self.total_rewards_pool as int <= u128::MAX as int
    }

    /// The reward a principal has accrued since its last fold.
    pub open spec fn unclaimed(self, id: AccountKey, now: u64) -> int {
        spec_unclaimed(
            self.acct_balance(id),
            self.acct_shares(id),
            self.total_rewards_pool,
            self.total_shares,
            self.acct_claim_time(id),
            now,
        )
    }

    /// A fresh, empty pool.
    pub fn new(owner_id: AccountKey, commission: u128) -> (r: LoanFactory)
        ensures
            r.wf(),
            r.owner_id == owner_id,
            r.commission == commission,
            r.total_balance == 0,
            r.total_rewards_pool == 0,
            r.total_shares == 0,
            r.total_loan == 0,
            r.accounts@.len() == 0,
            r.collaterals@.len() == 0,
            r.whitelist@.len() == 0,
    {
        LoanFactory {
            owner_id,
            commission,
            total_balance: 0,
            total_rewards_pool: 0,
            total_shares: 0,
            total_loan: 0,
            accounts: Vec::new(),
            collaterals: Vec::new(),
            whitelist: Vec::new(),
        }
    }

    /// Deposited balance of `account_id`.
    pub fn loan_balance_of(&self, account_id: AccountKey) -> (r: u128)
        ensures
            r == self.acct_balance(account_id),
    {
        match find_account(&self.accounts, account_id) {
            Some(i) => self.accounts[i].balance,
            None => 0,
        }
    }

    /// Pool shares of `account_id`.
    pub fn loan_shares_of(&self, account_id: AccountKey) -> (r: u128)
        ensures
            r == self.acct_shares(account_id),
    {
        match find_account(&self.accounts, account_id) {
            Some(i) => self.accounts[i].shares,
            None => 0,
        }
    }

    /// Outstanding loan principal of `account_id`.
    pub fn loan_balance_borrowed_of(&self, account_id: AccountKey) -> (r: u128)
        ensures
            r == self.acct_loan(account_id),
    {
        match find_account(&self.accounts, account_id) {
            Some(i) => self.accounts[i].loan,
            None => 0,
        }
    }

    /// Reward already folded for `account_id` and not yet paid out.
    pub fn loan_reward_claimed_of(&self, account_id: AccountKey) -> (r: u128)
        ensures
            r == self.acct_reward(account_id),
    {
        match find_account(&self.accounts, account_id) {
            Some(i) => self.accounts[i].reward,
            None => 0,
        }
    }

    /// Reward accrued by `account_id` since its last fold.
    pub fn loan_reward_unclaimed_of(&self, account_id: AccountKey, now: u64) -> (r: u128)
        requires
            self.wf(),
            reward_math_fits(
                self.acct_balance(account_id),
                self.acct_shares(account_id),
                self.total_rewards_pool,
                self.total_shares,
                self.acct_claim_time(account_id),
                now,
            ),
        ensures
            r as int == self.unclaimed(account_id, now),
            r <= self.total_rewards_pool,
    {
        match find_account(&self.accounts, account_id) {
            Some(i) => {
                proof {
                    lemma_entry_le_totals(self.accounts@, i as int);
                }
                compute_unclaimed(
                    &self.accounts[i],
                    self.total_rewards_pool,
                    self.total_shares,
                    now,
                )
            },
            None => 0,
        }
    }

    /// Total reward owed to `account_id`: the folded part plus what has
    /// accrued since the last fold.
    pub fn loan_reward_of(&self, account_id: AccountKey, now: u64) -> (r: u128)
        requires
            self.wf(),
            self.fold_fits(account_id, now),
        ensures
            r as int == self.acct_reward(account_id) as int + self.unclaimed(account_id, now),
    {
        let unclaimed = self.loan_reward_unclaimed_of(account_id, now);
        let claimed = self.loan_reward_claimed_of(account_id);
        claimed + unclaimed
    }

    /// Sum of all deposited balances.
    pub fn loan_total_balance(&self) -> (r: u128)
        ensures
            r == self.total_balance,
    {
        self.total_balance
    }

    /// Sum of all outstanding loan principal.
    pub fn loan_total_loan(&self) -> (r: u128)
        ensures
            r == self.total_loan,
    {
        self.total_loan
    }

    /// Sum of all pool shares.
    pub fn loan_total_shares(&self) -> (r: u128)
        ensures
            r == self.total_shares,
    {
        self.total_shares
    }

    /// Funds set aside for rewards.
    pub fn loan_total_rewards_pool(&self) -> (r: u128)
        ensures
            r == self.total_rewards_pool,
    {
        self.total_rewards_pool
    }

    /// The repayment fee rate, in percent.
    pub fn loan_commission(&self) -> (r: u128)
        ensures
            r == self.commission,
    {
        self.commission
    }

    /// Liquidity not currently lent out.
    pub fn loan_available_balance(&self) -> (r: u128)
        requires
            self.wf(),
        ensures
            r as int == self.available(),
    {
        self.total_balance - self.total_loan
    }
}

/// Two ledger states with exactly the same contents.
pub open spec fn same_state(a: LoanFactory, b: LoanFactory) -> bool {
    &&& a.owner_id == b.owner_id
    &&& a.commission == b.commission
    &&& a.total_balance == b.total_balance
    &&& a.total_rewards_pool == b.total_rewards_pool
    &&& a.total_shares == b.total_shares
    &&& a.total_loan == b.total_loan
    &&& a.accounts@ == b.accounts@
    &&& a.collaterals@ == b.collaterals@
    &&& a.whitelist@ == b.whitelist@
}

/// How a deposit of `amount` by `id` at time `now` transforms the ledger:
/// the pending reward is folded first, then the balance is credited and the
/// minted shares granted, on the account and on the pool totals alike.
pub open spec fn deposit_applied(
    pre: LoanFactory,
    post: LoanFactory,
    id: AccountKey,
    amount: u128,
    now: u64,
) -> bool {
    let minted = spec_minted_shares(pre.total_balance, pre.total_shares, amount);
    &&& post.total_balance as int == pre.total_balance as int + amount as int
    &&& post.total_shares as int == pre.total_shares as int + minted
    &&& post.total_rewards_pool == pre.total_rewards_pool
    &&& post.total_loan == pre.total_loan
    &&& post.commission == pre.commission
    &&& post.owner_id == pre.owner_id
    &&& post.acct_balance(id) as int == pre.acct_balance(id) as int + amount as int
    &&& post.acct_shares(id) as int == pre.acct_shares(id) as int + minted
    &&& post.acct_loan(id) == pre.acct_loan(id)
    &&& post.acct_reward(id) as int == pre.acct_reward(id) as int + pre.unclaimed(id, now)
    &&& post.acct_claim_time(id) == Some(now)
    &&& has_acct(post.accounts@, id)
    &&& forall|a: AccountKey| a != id ==> #[trigger] acct_of(post.accounts@, a) == acct_of(
        pre.accounts@,
        a,
    )
    &&& post.collaterals@ == pre.collaterals@
    &&& post.whitelist@ == pre.whitelist@
}

/// Whether a withdrawal of `amount` by `id` is refused: the pool lacks free
/// liquidity, the account lacks balance, or the burned-share slice exceeds
/// the account's shares.
pub open spec fn withdraw_rejected(pre: LoanFactory, id: AccountKey, amount: u128) -> bool {
    ||| amount as int > pre.available()
    ||| amount > pre.acct_balance(id)
    ||| spec_burned_shares(pre.total_balance, pre.total_shares, amount) > pre.acct_shares(
        id,
    ) as int
}

/// How an accepted withdrawal of `amount` by `id` at time `now` transforms
/// the ledger: the pending reward is folded first, then the balance is
/// debited and the burned shares surrendered, on the account and on the pool
/// totals alike.
pub open spec fn withdraw_applied(
    pre: LoanFactory,
    post: LoanFactory,
    id: AccountKey,
    amount: u128,
    now: u64,
) -> bool {
    let burned = spec_burned_shares(pre.total_balance, pre.total_shares, amount);
    &&& post.total_balance as int == pre.total_balance as int - amount as int
    &&& post.total_shares as int == pre.total_shares as int - burned
    &&& post.total_rewards_pool == pre.total_rewards_pool
    &&& post.total_loan == pre.total_loan
    &&& post.commission == pre.commission
    &&& post.owner_id == pre.owner_id
    &&& post.acct_balance(id) as int == pre.acct_balance(id) as int - amount as int
    &&& post.acct_shares(id) as int == pre.acct_shares(id) as int - burned
    &&& post.acct_loan(id) == pre.acct_loan(id)
    &&& post.acct_reward(id) as int == pre.acct_reward(id) as int + pre.unclaimed(id, now)
    &&& post.acct_claim_time(id) == Some(now)
    &&& forall|a: AccountKey| a != id ==> #[trigger] acct_of(post.accounts@, a) == acct_of(
        pre.accounts@,
        a,
    )
    &&& post.collaterals@ == pre.collaterals@
    &&& post.whitelist@ == pre.whitelist@
}

/// How a reward payout for `id` at time `now` transforms the ledger: the
/// pending reward is folded, the whole folded amount leaves the reward pool
/// and the account's reward is zeroed.  Balances and shares do not move.
pub open spec fn claim_rewards_applied(
    pre: LoanFactory,
    post: LoanFactory,
    id: AccountKey,
    now: u64,
) -> bool {
    let amount = pre.acct_reward(id) as int + pre.unclaimed(id, now);
    &&& post.total_rewards_pool as int == pre.total_rewards_pool as int - amount
    &&& post.total_balance == pre.total_balance
    &&& post.total_shares == pre.total_shares
    &&& post.total_loan == pre.total_loan
    &&& post.commission == pre.commission
    &&& post.owner_id == pre.owner_id
    &&& post.acct_balance(id) == pre.acct_balance(id)
    &&& post.acct_shares(id) == pre.acct_shares(id)
    &&& post.acct_loan(id) == pre.acct_loan(id)
    &&& post.acct_reward(id) == 0
    &&& post.acct_claim_time(id) == Some(now)
    &&& forall|a: AccountKey| a != id ==> #[trigger] acct_of(post.accounts@, a) == acct_of(
        pre.accounts@,
        a,
    )
    &&& post.collaterals@ == pre.collaterals@
    &&& post.whitelist@ == pre.whitelist@
}

impl LoanFactory {
    /// Pays out the whole reward owed to `account_id` at time `now`: the
    /// pending reward is folded, and the folded total leaves the reward
    /// pool.  Refused with `InsufficientFunds` when the reward pool cannot
    /// cover it; a refusal leaves the ledger untouched.  On success the
    /// caller transfers the returned amount to the account and reports the
    /// outcome to `on_transfer_claim_rewards`.
    pub fn loan_claim_rewards(&mut self, account_id: AccountKey, now: u64) -> (r: Result<
        u128,
        LoanError,
    >)
        requires
            old(self).wf(),
            old(self).fold_fits(account_id, now),
        ensures
            final(self).wf(),
            r is Err <==> (old(self).total_rewards_pool as int) < old(self).acct_reward(account_id)
                + old(self).unclaimed(account_id, now),
            r is Err ==> r == Err::<u128, LoanError>(LoanError::InsufficientFunds) && same_state(
                *old(self),
                *final(self),
            ),
            r is Ok ==> r == Ok::<u128, LoanError>(
                (old(self).acct_reward(account_id) + old(self).unclaimed(account_id, now)) as u128,
            ) && claim_rewards_applied(*old(self), *final(self), account_id, now),
    {
        let trp = self.total_rewards_pool;
        let ts = self.total_shares;
        let (idx, prev) = self.read_account(account_id);
        let unclaimed = compute_unclaimed(&prev, trp, ts, now);
        let amount = prev.reward + unclaimed;
        if trp < amount {
            return Err(LoanError::InsufficientFunds);
        }
        let e = AccountEntry {
            id: account_id,
            balance: prev.balance,
            shares: prev.shares,
            loan: prev.loan,
            reward: 0,
            claim_time: Some(now),
        };
        crate::account::put_account(&mut self.accounts, idx, e);
        self.total_rewards_pool = trp - amount;
        Ok(amount)
    }

    /// Confirms or compensates a reward payout: when the transfer failed,
    /// the paid amount is restored to the account's folded reward and
    /// re-credited to the reward pool.
    pub fn on_transfer_claim_rewards(
        &mut self,
        account_id: AccountKey,
        amount_sent: u128,
        transfer_succeeded: bool,
    )
        requires
            old(self).wf(),
            !transfer_succeeded ==> old(self).total_rewards_pool as int + amount_sent as int
                <= u128::MAX as int,
        ensures
            final(self).wf(),
            transfer_succeeded ==> same_state(*old(self), *final(self)),
            !transfer_succeeded ==> {
                &&& final(self).total_rewards_pool as int == old(self).total_rewards_pool as int
                    + amount_sent as int
                &&& final(self).total_balance == old(self).total_balance
                &&& final(self).total_shares == old(self).total_shares
                &&& final(self).total_loan == old(self).total_loan
                &&& final(self).commission == old(self).commission
                &&& final(self).owner_id == old(self).owner_id
                &&& final(self).acct_balance(account_id) == old(self).acct_balance(account_id)
                &&& final(self).acct_shares(account_id) == old(self).acct_shares(account_id)
                &&& final(self).acct_loan(account_id) == old(self).acct_loan(account_id)
                &&& final(self).acct_reward(account_id) == amount_sent
                &&& final(self).acct_claim_time(account_id) == old(self).acct_claim_time(
                    account_id,
                )
                &&& forall|a: AccountKey|
                    a != account_id ==> #[trigger] acct_of(final(self).accounts@, a) == acct_of(
                        old(self).accounts@,
                        a,
                    )
                &&& final(self).collaterals@ == old(self).collaterals@
                &&& final(self).whitelist@ == old(self).whitelist@
            },
    {
        if transfer_succeeded {
            return ;
        }
        let (idx, prev) = self.read_account(account_id);
        let e = AccountEntry {
            id: account_id,
            balance: prev.balance,
            shares: prev.shares,
            loan: prev.loan,
            reward: amount_sent,
            claim_time: prev.claim_time,
        };
        crate::account::put_account(&mut self.accounts, idx, e);
        self.total_rewards_pool = self.total_rewards_pool + amount_sent;
    }

    /// The machine-width bounds under which a deposit can be accounted
    /// exactly in 128 bits.
    pub open spec fn deposit_fits(self, id: AccountKey, amount: u128, now: u64) -> bool {
        &&& self.fold_fits(id, now)
        &&& self.total_balance as int + amount as int <= u128::MAX as int
        &&& self.total_shares as int * amount as int <= u128::MAX as int
        &&& self.total_shares as int + spec_minted_shares(self.total_balance, self.total_shares, amount)
            <= u128::MAX as int
    }

    /// The machine-width bounds under which a withdrawal can be accounted
    /// exactly in 128 bits.
    pub open spec fn withdraw_fits(self, id: AccountKey, amount: u128, now: u64) -> bool {
        &&& self.fold_fits(id, now)
        &&& self.total_shares as int * amount as int <= u128::MAX as int
    }

    /// Reads the row of `account_id`, or a zeroed row for a principal not
    /// seen before, together with its table index.
    fn read_account(&self, account_id: AccountKey) -> (r: (Option<usize>, AccountEntry))
        ensures
            match r.0 {
                Some(i) => i < self.accounts.len() && key_index(self.accounts@, account_id)
                    == i as int,
                None => key_index(self.accounts@, account_id) == -1,
            },
            r.1.id == account_id,
            r.1.balance == self.acct_balance(account_id),
            r.1.shares == self.acct_shares(account_id),
            r.1.loan == self.acct_loan(account_id),
            r.1.reward == self.acct_reward(account_id),
            r.1.claim_time == self.acct_claim_time(account_id),
            r.1.shares as int <= shares_total(self.accounts@),
            r.1.balance as int <= balance_total(self.accounts@),
    {
        let idx = find_account(&self.accounts, account_id);
        match idx {
            Some(i) => {
                proof {
                    lemma_entry_le_totals(self.accounts@, i as int);
                    lemma_key_index(self.accounts@, account_id);
                }
                let e = self.accounts[i];
                (idx, e)
            },
            None => {
                proof {
                    lemma_totals_nonneg(self.accounts@);
                }
                (
                    None,
                    AccountEntry {
                        id: account_id,
                        balance: 0,
                        shares: 0,
                        loan: 0,
                        reward: 0,
                        claim_time: None,
                    },
                )
            },
        }
    }

    /// Deposits `amount` for `account_id` at time `now`, minting shares from
    /// the pre-deposit totals, and returns the account's new balance.  The
    /// caller then transfers the attached payment into the pool's custody
    /// and reports the outcome to `on_transfer_loan_deposit`.
    pub fn loan_deposit(&mut self, account_id: AccountKey, amount: u128, now: u64) -> (r: u128)
        requires
            old(self).wf(),
            amount > 0,
            old(self).deposit_fits(account_id, amount, now),
        ensures
            final(self).wf(),
            deposit_applied(*old(self), *final(self), account_id, amount, now),
            r == final(self).acct_balance(account_id),
    {
        let tb = self.total_balance;
        let ts = self.total_shares;
        let trp = self.total_rewards_pool;
        let (idx, prev) = self.read_account(account_id);
        let unclaimed = compute_unclaimed(&prev, trp, ts, now);
        let minted: u128 = if ts == 0 || tb == 0 {
            BOOTSTRAP_SHARES
        } else {
            (ts * amount) / tb
        };
        let e = AccountEntry {
            id: account_id,
            balance: prev.balance + amount,
            shares: prev.shares + minted,
            loan: prev.loan,
            reward: prev.reward + unclaimed,
            claim_time: Some(now),
        };
        crate::account::put_account(&mut self.accounts, idx, e);
        self.total_balance = tb + amount;
        self.total_shares = ts + minted;
        e.balance
    }

    /// Confirms or compensates a deposit: when the transfer failed, the
    /// credited balance and the minted shares are taken back exactly.
    pub fn on_transfer_loan_deposit(
        &mut self,
        account_id: AccountKey,
        amount_sent: u128,
        shares_minted: u128,
        transfer_succeeded: bool,
    )
        requires
            old(self).wf(),
            !transfer_succeeded ==> {
                &&& amount_sent <= old(self).acct_balance(account_id)
                &&& shares_minted <= old(self).acct_shares(account_id)
                &&& old(self).total_loan as int <= old(self).total_balance as int
                    - amount_sent as int
            },
        ensures
            final(self).wf(),
            transfer_succeeded ==> same_state(*old(self), *final(self)),
            !transfer_succeeded ==> {
                &&& final(self).total_balance as int == old(self).total_balance as int
                    - amount_sent as int
                &&& final(self).total_shares as int == old(self).total_shares as int
                    - shares_minted as int
                &&& final(self).total_rewards_pool == old(self).total_rewards_pool
                &&& final(self).total_loan == old(self).total_loan
                &&& final(self).commission == old(self).commission
                &&& final(self).owner_id == old(self).owner_id
                &&& final(self).acct_balance(account_id) as int == old(self).acct_balance(
                    account_id,
                ) as int - amount_sent as int
                &&& final(self).acct_shares(account_id) as int == old(self).acct_shares(
                    account_id,
                ) as int - shares_minted as int
                &&& final(self).acct_loan(account_id) == old(self).acct_loan(account_id)
                &&& final(self).acct_reward(account_id) == old(self).acct_reward(account_id)
                &&& final(self).acct_claim_time(account_id) == old(self).acct_claim_time(
                    account_id,
                )
                &&& forall|a: AccountKey|
                    a != account_id ==> #[trigger] acct_of(final(self).accounts@, a) == acct_of(
                        old(self).accounts@,
                        a,
                    )
                &&& final(self).collaterals@ == old(self).collaterals@
                &&& final(self).whitelist@ == old(self).whitelist@
            },
    {
        if transfer_succeeded {
            return ;
        }
        let (idx, prev) = self.read_account(account_id);
        let e = AccountEntry {
            id: account_id,
            balance: prev.balance - amount_sent,
            shares: prev.shares - shares_minted,
            loan: prev.loan,
            reward: prev.reward,
            claim_time: prev.claim_time,
        };
        crate::account::put_account(&mut self.accounts, idx, e);
        self.total_balance = self.total_balance - amount_sent;
        self.total_shares = self.total_shares - shares_minted;
    }

    /// Withdraws `amount` for `account_id` at time `now`, burning the
    /// proportional share slice computed from the pre-withdrawal totals.
    /// Refused with `InsufficientFunds` when the pool's free liquidity, the
    /// account's balance or the account's shares cannot cover it; a refusal
    /// leaves the ledger untouched.  On success the caller transfers
    /// `amount` to the account and reports the outcome to
    /// `on_transfer_loan_withdraw`.
    pub fn loan_withdraw(&mut self, account_id: AccountKey, amount: u128, now: u64) -> (r: Result<
        u128,
        LoanError,
    >)
        requires
            old(self).wf(),
            old(self).withdraw_fits(account_id, amount, now),
        ensures
            final(self).wf(),
            r is Err <==> withdraw_rejected(*old(self), account_id, amount),
            r is Err ==> r == Err::<u128, LoanError>(LoanError::InsufficientFunds) && same_state(
                *old(self),
                *final(self),
            ),
            r is Ok ==> r == Ok::<u128, LoanError>(amount) && withdraw_applied(
                *old(self),
                *final(self),
                account_id,
                amount,
                now,
            ),
    {
        let tb = self.total_balance;
        let ts = self.total_shares;
        let trp = self.total_rewards_pool;
        let available = self.loan_available_balance();
        let (idx, prev) = self.read_account(account_id);
        let burned: u128 = if tb == 0 {
            0
        } else {
            (ts * amount) / tb
        };
        if amount > available || amount > prev.balance || burned > prev.shares {
            return Err(LoanError::InsufficientFunds);
        }
        proof {
            crate::rewards::lemma_burned_bound(tb, ts, amount);
        }
        let unclaimed = compute_unclaimed(&prev, trp, ts, now);
        let e = AccountEntry {
            id: account_id,
            balance: prev.balance - amount,
            shares: prev.shares - burned,
            loan: prev.loan,
            reward: prev.reward + unclaimed,
            claim_time: Some(now),
        };
        crate::account::put_account(&mut self.accounts, idx, e);
        self.total_balance = tb - amount;
        self.total_shares = ts - burned;
        Ok(amount)
    }

    /// Withdraws the whole deposited balance of `account_id`, as
    /// `loan_withdraw` of that balance.
    pub fn loan_withdraw_all(&mut self, account_id: AccountKey, now: u64) -> (r: Result<
        u128,
        LoanError,
    >)
        requires
            old(self).wf(),
            old(self).withdraw_fits(account_id, old(self).acct_balance(account_id), now),
        ensures
            final(self).wf(),
            r is Err <==> withdraw_rejected(
                *old(self),
                account_id,
                old(self).acct_balance(account_id),
            ),
            r is Err ==> r == Err::<u128, LoanError>(LoanError::InsufficientFunds) && same_state(
                *old(self),
                *final(self),
            ),
            r is Ok ==> r == Ok::<u128, LoanError>(old(self).acct_balance(account_id))
                && withdraw_applied(
                *old(self),
                *final(self),
                account_id,
                old(self).acct_balance(account_id),
                now,
            ),
    {
        let balance = self.loan_balance_of(account_id);
        self.loan_withdraw(account_id, balance, now)
    }

    /// Confirms or compensates a withdrawal: when the transfer failed, the
    /// debited balance and the burned shares are restored exactly.
    pub fn on_transfer_loan_withdraw(
        &mut self,
        account_id: AccountKey,
        amount_sent: u128,
        shares_burned: u128,
        transfer_succeeded: bool,
    )
        requires
            old(self).wf(),
            !transfer_succeeded ==> {
                &&& old(self).total_balance as int + amount_sent as int <= u128::MAX as int
                &&& old(self).total_shares as int + shares_burned as int <= u128::MAX as int
            },
        ensures
            final(self).wf(),
            transfer_succeeded ==> same_state(*old(self), *final(self)),
            !transfer_succeeded ==> {
                &&& final(self).total_balance as int == old(self).total_balance as int
                    + amount_sent as int
                &&& final(self).total_shares as int == old(self).total_shares as int
                    + shares_burned as int
                &&& final(self).total_rewards_pool == old(self).total_rewards_pool
                &&& final(self).total_loan == old(self).total_loan
                &&& final(self).commission == old(self).commission
                &&& final(self).owner_id == old(self).owner_id
                &&& final(self).acct_balance(account_id) as int == old(self).acct_balance(
                    account_id,
                ) as int + amount_sent as int
                &&& final(self).acct_shares(account_id) as int == old(self).acct_shares(
                    account_id,
                ) as int + shares_burned as int
                &&& final(self).acct_loan(account_id) == old(self).acct_loan(account_id)
                &&& final(self).acct_reward(account_id) == old(self).acct_reward(account_id)
                &&& final(self).acct_claim_time(account_id) == old(self).acct_claim_time(
                    account_id,
                )
                &&& forall|a: AccountKey|
                    a != account_id ==> #[trigger] acct_of(final(self).accounts@, a) == acct_of(
                        old(self).accounts@,
                        a,
                    )
                &&& final(self).collaterals@ == old(self).collaterals@
                &&& final(self).whitelist@ == old(self).whitelist@
            },
    {
        if transfer_succeeded {
            return ;
        }
        let (idx, prev) = self.read_account(account_id);
        let e = AccountEntry {
            id: account_id,
            balance: prev.balance + amount_sent,
            shares: prev.shares + shares_burned,
            loan: prev.loan,
            reward: prev.reward,
            claim_time: prev.claim_time,
        };
        crate::account::put_account(&mut self.accounts, idx, e);
        self.total_balance = self.total_balance + amount_sent;
        self.total_shares = self.total_shares + shares_burned;
    }
}

/// How setting the loan terms of contract `c` transforms the ledger: both
/// terms are recorded, the listing flag and every other row stay.
pub open spec fn set_terms_applied(
    pre: LoanFactory,
    post: LoanFactory,
    c: ContractId,
    price: u128,
    percent: u64,
) -> bool {
    &&& wl_price(post.whitelist@, c) == Some(price)
    &&& wl_percent(post.whitelist@, c) == Some(percent)
    &&& listed(post.whitelist@, c) == listed(pre.whitelist@, c)
    &&& forall|c2: ContractId| c2 != c ==> #[trigger] wl_of(post.whitelist@, c2) == wl_of(
        pre.whitelist@,
        c2,
    )
    &&& post.accounts@ == pre.accounts@
    &&& post.collaterals@ == pre.collaterals@
    &&& post.total_balance == pre.total_balance
    &&& post.total_rewards_pool == pre.total_rewards_pool
    &&& post.total_shares == pre.total_shares
    &&& post.total_loan == pre.total_loan
    &&& post.commission == pre.commission
    &&& post.owner_id == pre.owner_id
}

impl LoanFactory {
    /// Reads the whitelist row of `contract_id`, or an empty row for a
    /// contract not seen before, together with its table index.
    fn read_listing(&self, contract_id: ContractId) -> (r: (Option<usize>, WhitelistEntry))
        ensures
            match r.0 {
                Some(i) => i < self.whitelist.len() && key_index(self.whitelist@, contract_id)
                    == i as int,
                None => key_index(self.whitelist@, contract_id) == -1,
            },
            r.1.contract == contract_id,
            r.1.listed == listed(self.whitelist@, contract_id),
            r.1.price == wl_price(self.whitelist@, contract_id),
            r.1.percent == wl_percent(self.whitelist@, contract_id),
    {
        match find_listing(&self.whitelist, contract_id) {
            Some(i) => {
                proof {
                    lemma_key_index(self.whitelist@, contract_id);
                }
                (Some(i), self.whitelist[i])
            },
            None => (
                None,
                WhitelistEntry { contract: contract_id, listed: false, price: None, percent: None },
            ),
        }
    }

    /// Sets the loan terms of a contract: the price of one loan against its
    /// tokens and the fee percent.  Owner-only (`Permission` otherwise);
    /// refused with `Validation` when the percent leaves `1..=50` or the
    /// price is zero.  Setting terms does not by itself list the contract.
    pub fn loan_update_nft_price(
        &mut self,
        contract_id: ContractId,
        price: u128,
        percent: u64,
        caller: AccountKey,
    ) -> (r: Result<(), LoanError>)
        requires
            old(self).wf(),
        ensures
            final(self).wf(),
            r is Ok <==> (caller == old(self).owner_id && 1 <= percent <= 50 && price >= 1),
            caller != old(self).owner_id ==> r == Err::<(), LoanError>(LoanError::Permission),
            caller == old(self).owner_id && !(1 <= percent <= 50 && price >= 1) ==> r == Err::<
                (),
                LoanError,
            >(LoanError::Validation),
            r is Err ==> same_state(*old(self), *final(self)),
            r is Ok ==> set_terms_applied(*old(self), *final(self), contract_id, price, percent),
    {
        if caller != self.owner_id {
            return Err(LoanError::Permission);
        }
        if percent > 50 || percent < 1 || price < 1 {
            return Err(LoanError::Validation);
        }
        let (idx, prev) = self.read_listing(contract_id);
        let e = WhitelistEntry {
            contract: contract_id,
            listed: prev.listed,
            price: Some(price),
            percent: Some(percent),
        };
        crate::whitelist::put_listing(&mut self.whitelist, idx, e);
        Ok(())
    }

    /// Lists a contract on the whitelist.  Owner-only (`Permission`
    /// otherwise).  Terms already set for the contract are kept.
    pub fn loan_nft_whitelist_add(&mut self, contract_id: ContractId, caller: AccountKey) -> (r:
        Result<(), LoanError>)
        requires
            old(self).wf(),
        ensures
            final(self).wf(),
            r is Ok <==> caller == old(self).owner_id,
            r is Err ==> r == Err::<(), LoanError>(LoanError::Permission) && same_state(
                *old(self),
                *final(self),
            ),
            r is Ok ==> {
                &&& listed(final(self).whitelist@, contract_id)
                &&& wl_price(final(self).whitelist@, contract_id) == wl_price(
                    old(self).whitelist@,
                    contract_id,
                )
                &&& wl_percent(final(self).whitelist@, contract_id) == wl_percent(
                    old(self).whitelist@,
                    contract_id,
                )
                &&& forall|c2: ContractId|
                    c2 != contract_id ==> #[trigger] wl_of(final(self).whitelist@, c2) == wl_of(
                        old(self).whitelist@,
                        c2,
                    )
                &&& final(self).accounts@ == old(self).accounts@
                &&& final(self).collaterals@ == old(self).collaterals@
                &&& final(self).total_balance == old(self).total_balance
                &&& final(self).total_rewards_pool == old(self).total_rewards_pool
                &&& final(self).total_shares == old(self).total_shares
                &&& final(self).total_loan == old(self).total_loan
                &&& final(self).commission == old(self).commission
                &&& final(self).owner_id == old(self).owner_id
            },
    {
        if caller != self.owner_id {
            return Err(LoanError::Permission);
        }
        let (idx, prev) = self.read_listing(contract_id);
        let e = WhitelistEntry {
            contract: contract_id,
            listed: true,
            price: prev.price,
            percent: prev.percent,
        };
        crate::whitelist::put_listing(&mut self.whitelist, idx, e);
        Ok(())
    }

    /// Takes a contract off the whitelist and clears its terms atomically.
    /// Owner-only (`Permission` otherwise).
    pub fn loan_nft_whitelist_remove(&mut self, contract_id: ContractId, caller: AccountKey) -> (r:
        Result<(), LoanError>)
        requires
            old(self).wf(),
        ensures
            final(self).wf(),
            r is Ok <==> caller == old(self).owner_id,
            r is Err ==> r == Err::<(), LoanError>(LoanError::Permission) && same_state(
                *old(self),
                *final(self),
            ),
            r is Ok ==> {
                &&& !listed(final(self).whitelist@, contract_id)
                &&& wl_price(final(self).whitelist@, contract_id) is None
                &&& wl_percent(final(self).whitelist@, contract_id) is None
                &&& !final(self).eligible(contract_id)
                &&& forall|c2: ContractId|
                    c2 != contract_id ==> #[trigger] wl_of(final(self).whitelist@, c2) == wl_of(
                        old(self).whitelist@,
                        c2,
                    )
                &&& final(self).accounts@ == old(self).accounts@
                &&& final(self).collaterals@ == old(self).collaterals@
                &&& final(self).total_balance == old(self).total_balance
                &&& final(self).total_rewards_pool == old(self).total_rewards_pool
                &&& final(self).total_shares == old(self).total_shares
                &&& final(self).total_loan == old(self).total_loan
                &&& final(self).commission == old(self).commission
                &&& final(self).owner_id == old(self).owner_id
            },
    {
        if caller != self.owner_id {
            return Err(LoanError::Permission);
        }
        let (idx, _prev) = self.read_listing(contract_id);
        let e = WhitelistEntry { contract: contract_id, listed: false, price: None, percent: None };
        crate::whitelist::put_listing(&mut self.whitelist, idx, e);
        Ok(())
    }

    /// Whether a contract is eligible for loans: listed with both terms set.
    pub fn loan_nft_is_whitelist(&self, contract_id: ContractId) -> (r: bool)
        ensures
            r == self.eligible(contract_id),
    {
        let (_, e) = self.read_listing(contract_id);
        e.listed && e.price.is_some() && e.percent.is_some()
    }

    /// The eligible contracts, in table order: those listed with both terms
    /// still set.
    pub fn loan_nft_whitelist(&self) -> (r: Vec<ContractId>)
        requires
            self.wf(),
        ensures
            r@ == crate::whitelist::eligible_list(self.whitelist@),
            forall|c: ContractId| #[trigger] r@.contains(c) <==> self.eligible(c),
    {
        let mut out: Vec<ContractId> = Vec::new();
        let n = self.whitelist.len();
        let mut i: usize = 0;
        while i < n
            invariant
                i <= n,
                n == self.whitelist.len(),
                out@ == crate::whitelist::eligible_list(self.whitelist@.take(i as int)),
            decreases n - i,
        {
            let e = self.whitelist[i];
            proof {
                assert(self.whitelist@.take(i + 1).drop_last() =~= self.whitelist@.take(i as int));
                assert(self.whitelist@.take(i + 1).last() == self.whitelist@[i as int]);
            }
            if e.listed && e.price.is_some() && e.percent.is_some() {
                out.push(e.contract);
            }
            i = i + 1;
        }
        proof {
            assert(self.whitelist@.take(n as int) =~= self.whitelist@);
            assert forall|c: ContractId| #[trigger] out@.contains(c) <==> self.eligible(c) by {
                crate::whitelist::lemma_eligible_list_contains(self.whitelist@, c);
            }
        }
        out
    }
}

/// The amount paid out for a loan: the captured price less the fee percent,
/// rounded down.
pub open spec fn spec_loan_amount(price: u128, percent: u64) -> int {
    price as int * (100 - percent as int) / 100
}

/// The repayment fee on `principal` at rate `commission` percent, rounded
/// down.
pub open spec fn spec_fee(principal: u128, commission: u128) -> int {
    principal as int * commission as int / 100
}

/// How an accepted loan opening on `(c, t)` for `borrower` transforms the
/// ledger: the borrower is recorded as custodian before any value moves;
/// nothing else changes.
pub open spec fn open_loan_applied(
    pre: LoanFactory,
    post: LoanFactory,
    c: ContractId,
    t: TokenId,
    borrower: AccountKey,
) -> bool {
    &&& post.coll_custodian(c, t) == Some(borrower)
    &&& post.coll_principal_rec(c, t) == pre.coll_principal_rec(c, t)
    &&& post.coll_price(c, t) == pre.coll_price(c, t)
    &&& post.coll_percent(c, t) == pre.coll_percent(c, t)
    &&& post.coll_expiry(c, t) == pre.coll_expiry(c, t)
    &&& forall|c2: ContractId, t2: TokenId|
        (c2, t2) != (c, t) ==> #[trigger] coll_of(post.collaterals@, c2, t2) == coll_of(
            pre.collaterals@,
            c2,
            t2,
        )
    &&& post.accounts@ == pre.accounts@
    &&& post.whitelist@ == pre.whitelist@
    &&& post.total_balance == pre.total_balance
    &&& post.total_rewards_pool == pre.total_rewards_pool
    &&& post.total_shares == pre.total_shares
    &&& post.total_loan == pre.total_loan
    &&& post.commission == pre.commission
    &&& post.owner_id == pre.owner_id
}

/// How a confirmed custody transfer for the loan on `(c, t)` transforms the
/// ledger: the loan amount is charged to the borrower's debt, the collateral
/// row and the pool's loan total, the terms are captured and the expiry set
/// one repayment window from `now`.
pub open spec fn resolve_nft_applied(
    pre: LoanFactory,
    post: LoanFactory,
    receiver: AccountKey,
    c: ContractId,
    t: TokenId,
    price: u128,
    percent: u64,
    now: u64,
) -> bool {
    let la = spec_loan_amount(price, percent);
    &&& post.total_loan as int == pre.total_loan as int + la
    &&& post.coll_principal_rec(c, t) == Some((pre.coll_principal(c, t) as int + la) as u128)
    &&& post.coll_custodian(c, t) == pre.coll_custodian(c, t)
    &&& post.coll_price(c, t) == Some(price)
    &&& post.coll_percent(c, t) == Some(percent)
    &&& post.coll_expiry(c, t) == Some((now + TIME_IN_WEEK) as u64)
    &&& forall|c2: ContractId, t2: TokenId|
        (c2, t2) != (c, t) ==> #[trigger] coll_of(post.collaterals@, c2, t2) == coll_of(
            pre.collaterals@,
            c2,
            t2,
        )
    &&& post.acct_loan(receiver) as int == pre.acct_loan(receiver) as int + la
    &&& post.acct_balance(receiver) == pre.acct_balance(receiver)
    &&& post.acct_shares(receiver) == pre.acct_shares(receiver)
    &&& post.acct_reward(receiver) == pre.acct_reward(receiver)
    &&& post.acct_claim_time(receiver) == pre.acct_claim_time(receiver)
    &&& forall|a: AccountKey|
        a != receiver ==> #[trigger] acct_of(post.accounts@, a) == acct_of(pre.accounts@, a)
    &&& post.whitelist@ == pre.whitelist@
    &&& post.total_balance == pre.total_balance
    &&& post.total_rewards_pool == pre.total_rewards_pool
    &&& post.total_shares == pre.total_shares
    &&& post.commission == pre.commission
    &&& post.owner_id == pre.owner_id
}

/// How a failed custody transfer for the loan on `(c, t)` is compensated:
/// only the optimistic custodian record is withdrawn.
pub open spec fn resolve_nft_reverted(
    pre: LoanFactory,
    post: LoanFactory,
    c: ContractId,
    t: TokenId,
) -> bool {
    &&& post.coll_custodian(c, t) is None
    &&& post.coll_principal_rec(c, t) == pre.coll_principal_rec(c, t)
    &&& post.coll_price(c, t) == pre.coll_price(c, t)
    &&& post.coll_percent(c, t) == pre.coll_percent(c, t)
    &&& post.coll_expiry(c, t) == pre.coll_expiry(c, t)
    &&& forall|c2: ContractId, t2: TokenId|
        (c2, t2) != (c, t) ==> #[trigger] coll_of(post.collaterals@, c2, t2) == coll_of(
            pre.collaterals@,
            c2,
            t2,
        )
    &&& post.accounts@ == pre.accounts@
    &&& post.whitelist@ == pre.whitelist@
    &&& post.total_balance == pre.total_balance
    &&& post.total_rewards_pool == pre.total_rewards_pool
    &&& post.total_shares == pre.total_shares
    &&& post.total_loan == pre.total_loan
    &&& post.commission == pre.commission
    &&& post.owner_id == pre.owner_id
}

/// How a failed loan payout on `(c, t)` is compensated: the debt charged at
/// resolution is unwound from the borrower, the collateral row and the pool
/// total, and the captured terms and expiry are cleared.  The custodian
/// record deliberately stays: custody of the token was already transferred.
pub open spec fn open_payout_reverted(
    pre: LoanFactory,
    post: LoanFactory,
    recipient: AccountKey,
    c: ContractId,
    t: TokenId,
    amount: u128,
) -> bool {
    &&& post.total_loan as int == pre.total_loan as int - amount as int
    &&& post.coll_principal_rec(c, t) == Some((pre.coll_principal(c, t) - amount) as u128)
    &&& post.coll_custodian(c, t) == pre.coll_custodian(c, t)
    &&& post.coll_price(c, t) is None
    &&& post.coll_percent(c, t) is None
    &&& post.coll_expiry(c, t) is None
    &&& forall|c2: ContractId, t2: TokenId|
        (c2, t2) != (c, t) ==> #[trigger] coll_of(post.collaterals@, c2, t2) == coll_of(
            pre.collaterals@,
            c2,
            t2,
        )
    &&& post.acct_loan(recipient) as int == pre.acct_loan(recipient) as int - amount as int
    &&& post.acct_balance(recipient) == pre.acct_balance(recipient)
    &&& post.acct_shares(recipient) == pre.acct_shares(recipient)
    &&& post.acct_reward(recipient) == pre.acct_reward(recipient)
    &&& post.acct_claim_time(recipient) == pre.acct_claim_time(recipient)
    &&& forall|a: AccountKey|
        a != recipient ==> #[trigger] acct_of(post.accounts@, a) == acct_of(pre.accounts@, a)
    &&& post.whitelist@ == pre.whitelist@
    &&& post.total_balance == pre.total_balance
    &&& post.total_rewards_pool == pre.total_rewards_pool
    &&& post.total_shares == pre.total_shares
    &&& post.commission == pre.commission
    &&& post.owner_id == pre.owner_id
}

impl LoanFactory {
    /// Reads the row of collateral `(contract_id, token_id)`, or an empty
    /// row for a pair not seen before, together with its table index.
    fn read_collateral(&self, contract_id: ContractId, token_id: TokenId) -> (r: (
        Option<usize>,
        CollateralEntry,
    ))
        ensures
            match r.0 {
                Some(i) => i < self.collaterals.len() && key_index(
                    self.collaterals@,
                    (contract_id, token_id),
                ) == i as int,
                None => key_index(self.collaterals@, (contract_id, token_id)) == -1,
            },
            r.1.contract == contract_id,
            r.1.token == token_id,
            r.1.custodian == self.coll_custodian(contract_id, token_id),
            r.1.principal == self.coll_principal_rec(contract_id, token_id),
            r.1.price == self.coll_price(contract_id, token_id),
            r.1.percent == self.coll_percent(contract_id, token_id),
            r.1.expiry == self.coll_expiry(contract_id, token_id),
    {
        match find_collateral(&self.collaterals, contract_id, token_id) {
            Some(i) => {
                proof {
                    lemma_key_index(self.collaterals@, (contract_id, token_id));
                }
                (Some(i), self.collaterals[i])
            },
            None => (
                None,
                CollateralEntry {
                    contract: contract_id,
                    token: token_id,
                    custodian: None,
                    principal: None,
                    price: None,
                    percent: None,
                    expiry: None,
                },
            ),
        }
    }

    /// Opens a loan against collateral `(contract_id, token_id)` for
    /// `borrower`.  Requires an eligible contract (`Permission` otherwise),
    /// no active loan on the token (`Validation`), and free liquidity
    /// covering the contract's price (`InsufficientFunds`); a refusal leaves
    /// the ledger untouched.  On success only the custodian is recorded,
    /// optimistically; the caller then transfers the token into the pool's
    /// custody and reports the outcome to `loan_resolve_nft`.
    pub fn loan_nft(&mut self, token_id: TokenId, contract_id: ContractId, borrower: AccountKey)
        -> (r: Result<(), LoanError>)
        requires
            old(self).wf(),
        ensures
            final(self).wf(),
            r is Ok <==> (old(self).eligible(contract_id) && old(self).coll_principal(
                contract_id,
                token_id,
            ) == 0 && wl_price(old(self).whitelist@, contract_id).unwrap() as int <= old(
                self,
            ).available()),
            !old(self).eligible(contract_id) ==> r == Err::<(), LoanError>(LoanError::Permission),
            old(self).eligible(contract_id) && old(self).coll_principal(contract_id, token_id) > 0
                ==> r == Err::<(), LoanError>(LoanError::Validation),
            old(self).eligible(contract_id) && old(self).coll_principal(contract_id, token_id)
                == 0 && wl_price(old(self).whitelist@, contract_id).unwrap() as int > old(
                self,
            ).available() ==> r == Err::<(), LoanError>(LoanError::InsufficientFunds),
            r is Err ==> same_state(*old(self), *final(self)),
            r is Ok ==> open_loan_applied(*old(self), *final(self), contract_id, token_id, borrower),
    {
        if !self.loan_nft_is_whitelist(contract_id) {
            return Err(LoanError::Permission);
        }
        let (cidx, coll) = self.read_collateral(contract_id, token_id);
        let principal_now: u128 = match coll.principal {
            Some(p) => p,
            None => 0,
        };
        if principal_now > 0 {
            return Err(LoanError::Validation);
        }
        let (_, wle) = self.read_listing(contract_id);
        let price = match wle.price {
            Some(p) => p,
            None => 0,
        };
        let available = self.loan_available_balance();
        if price > available {
            return Err(LoanError::InsufficientFunds);
        }
        let e = CollateralEntry {
            contract: contract_id,
            token: token_id,
            custodian: Some(borrower),
            principal: coll.principal,
            price: coll.price,
            percent: coll.percent,
            expiry: coll.expiry,
        };
        let ghost pre_coll = self.collaterals@;
        crate::collateral::put_collateral(&mut self.collaterals, cidx, e);
        proof {
            crate::collateral::lemma_expiry_floor_preserved(pre_coll, self.collaterals@, e);
        }
        Ok(())
    }

    /// Applies the outcome of the custody transfer of an opening loan.  On
    /// success the loan amount — the captured price less the fee percent —
    /// is charged to the borrower, the collateral row and the pool's loan
    /// total, terms are captured and the expiry set one repayment window
    /// after `now`; the returned pair is the amount to pay the borrower and
    /// the expiry, and the caller reports the payout's outcome to
    /// `on_transfer_resolve_nft`.  On failure only the optimistic custodian
    /// record is withdrawn and nothing is returned.
    pub fn loan_resolve_nft(
        &mut self,
        receiver_id: AccountKey,
        contract_id: ContractId,
        token_id: TokenId,
        price: u128,
        percent: u64,
        transfer_succeeded: bool,
        now: u64,
    ) -> (r: Option<(u128, u64)>)
        requires
            old(self).wf(),
            transfer_succeeded ==> {
                &&& percent <= 100
                &&& price as int * 100 <= u128::MAX as int
                &&& old(self).total_loan as int + spec_loan_amount(price, percent) <= old(
                    self,
                ).total_balance as int
                &&& old(self).coll_principal(contract_id, token_id) as int + spec_loan_amount(
                    price,
                    percent,
                ) <= u128::MAX as int
                &&& old(self).acct_loan(receiver_id) as int + spec_loan_amount(price, percent)
                    <= u128::MAX as int
                &&& now as int + TIME_IN_WEEK as int <= u64::MAX as int
            },
            !transfer_succeeded ==> old(self).coll_custodian(contract_id, token_id) == Some(
                receiver_id,
            ),
        ensures
            final(self).wf(),
            transfer_succeeded ==> r == Some(
                (
                    spec_loan_amount(price, percent) as u128,
                    (now + TIME_IN_WEEK) as u64,
                ),
            ) && resolve_nft_applied(
                *old(self),
                *final(self),
                receiver_id,
                contract_id,
                token_id,
                price,
                percent,
                now,
            ),
            !transfer_succeeded ==> r is None && resolve_nft_reverted(
                *old(self),
                *final(self),
                contract_id,
                token_id,
            ),
    {
        let (cidx, coll) = self.read_collateral(contract_id, token_id);
        if !transfer_succeeded {
            let e = CollateralEntry {
                contract: contract_id,
                token: token_id,
                custodian: None,
                principal: coll.principal,
                price: coll.price,
                percent: coll.percent,
                expiry: coll.expiry,
            };
            let ghost pre_coll = self.collaterals@;
            crate::collateral::put_collateral(&mut self.collaterals, cidx, e);
            proof {
                crate::collateral::lemma_expiry_floor_preserved(pre_coll, self.collaterals@, e);
            }
            return None;
        }
        proof {
            vstd::arithmetic::mul::lemma_mul_inequality(
                (100 - percent) as int,
                100,
                price as int,
            );
            vstd::arithmetic::div_mod::lemma_div_pos_is_pos(
                price as int * (100 - percent) as int,
                100,
            );
        }
        let loan_amount: u128 = price * ((100 - percent) as u128) / 100;
        let expire_date: u64 = now + TIME_IN_WEEK;
        let principal_now: u128 = match coll.principal {
            Some(p) => p,
            None => 0,
        };
        let e = CollateralEntry {
            contract: contract_id,
            token: token_id,
            custodian: coll.custodian,
            principal: Some(principal_now + loan_amount),
            price: Some(price),
            percent: Some(percent),
            expiry: Some(expire_date),
        };
        let ghost pre_coll = self.collaterals@;
        crate::collateral::put_collateral(&mut self.collaterals, cidx, e);
        proof {
            crate::collateral::lemma_expiry_floor_preserved(pre_coll, self.collaterals@, e);
        }
        let (aidx, aprev) = self.read_account(receiver_id);
        let ae = AccountEntry {
            id: receiver_id,
            balance: aprev.balance,
            shares: aprev.shares,
            loan: aprev.loan + loan_amount,
            reward: aprev.reward,
            claim_time: aprev.claim_time,
        };
        crate::account::put_account(&mut self.accounts, aidx, ae);
        self.total_loan = self.total_loan + loan_amount;
        Some((loan_amount, expire_date))
    }

    /// Applies the outcome of the loan payout to the borrower.  On success
    /// nothing changes.  On failure the charged debt is unwound exactly —
    /// borrower, collateral row and pool total — and the captured terms and
    /// expiry are cleared; the custodian record stays, since custody of the
    /// token was already transferred.
    pub fn on_transfer_resolve_nft(
        &mut self,
        recipient: AccountKey,
        amount_sent: u128,
        contract_id: ContractId,
        token_id: TokenId,
        transfer_succeeded: bool,
    )
        requires
            old(self).wf(),
            !transfer_succeeded ==> {
                &&& amount_sent <= old(self).total_loan
                &&& amount_sent <= old(self).coll_principal(contract_id, token_id)
                &&& amount_sent <= old(self).acct_loan(recipient)
            },
        ensures
            final(self).wf(),
            transfer_succeeded ==> same_state(*old(self), *final(self)),
            !transfer_succeeded ==> open_payout_reverted(
                *old(self),
                *final(self),
                recipient,
                contract_id,
                token_id,
                amount_sent,
            ),
    {
        if transfer_succeeded {
            return ;
        }
        let (cidx, coll) = self.read_collateral(contract_id, token_id);
        let principal_now: u128 = match coll.principal {
            Some(p) => p,
            None => 0,
        };
        let e = CollateralEntry {
            contract: contract_id,
            token: token_id,
            custodian: coll.custodian,
            principal: Some(principal_now - amount_sent),
            price: None,
            percent: None,
            expiry: None,
        };
        let ghost pre_coll = self.collaterals@;
        crate::collateral::put_collateral(&mut self.collaterals, cidx, e);
        proof {
            crate::collateral::lemma_expiry_floor_preserved(pre_coll, self.collaterals@, e);
        }
        let (aidx, aprev) = self.read_account(recipient);
        let ae = AccountEntry {
            id: recipient,
            balance: aprev.balance,
            shares: aprev.shares,
            loan: aprev.loan - amount_sent,
            reward: aprev.reward,
            claim_time: aprev.claim_time,
        };
        crate::account::put_account(&mut self.accounts, aidx, ae);
        self.total_loan = self.total_loan - amount_sent;
    }
}

/// How an accepted repayment on `(c, t)` by `payer` at time `now`
/// transforms the ledger: the outstanding principal is cleared from the
/// payer, the collateral row and the pool total, and the fee feeds the
/// reward pool.  The captured terms, expiry and custodian are left for the
/// chained claim to clear.
pub open spec fn repay_applied(
    pre: LoanFactory,
    post: LoanFactory,
    payer: AccountKey,
    c: ContractId,
    t: TokenId,
) -> bool {
    let principal = pre.coll_principal(c, t);
    let fee = spec_fee(principal, pre.commission);
    &&& post.total_loan as int == pre.total_loan as int - principal as int
    &&& post.total_rewards_pool as int == pre.total_rewards_pool as int + fee
    &&& post.coll_principal_rec(c, t) == Some(0u128)
    &&& post.coll_custodian(c, t) == pre.coll_custodian(c, t)
    &&& post.coll_price(c, t) == pre.coll_price(c, t)
    &&& post.coll_percent(c, t) == pre.coll_percent(c, t)
    &&& post.coll_expiry(c, t) == pre.coll_expiry(c, t)
    &&& forall|c2: ContractId, t2: TokenId|
        (c2, t2) != (c, t) ==> #[trigger] coll_of(post.collaterals@, c2, t2) == coll_of(
            pre.collaterals@,
            c2,
            t2,
        )
    &&& post.acct_loan(payer) as int == pre.acct_loan(payer) as int - principal as int
    &&& post.acct_balance(payer) == pre.acct_balance(payer)
    &&& post.acct_shares(payer) == pre.acct_shares(payer)
    &&& post.acct_reward(payer) == pre.acct_reward(payer)
    &&& post.acct_claim_time(payer) == pre.acct_claim_time(payer)
    &&& forall|a: AccountKey|
        a != payer ==> #[trigger] acct_of(post.accounts@, a) == acct_of(pre.accounts@, a)
    &&& post.whitelist@ == pre.whitelist@
    &&& post.total_balance == pre.total_balance
    &&& post.total_shares == pre.total_shares
    &&& post.commission == pre.commission
    &&& post.owner_id == pre.owner_id
}

/// How a failed repayment refund on `(c, t)` is compensated: the cleared
/// principal is restored to the payer, the collateral row and the pool
/// total, and the fee is taken back from the reward pool.
pub open spec fn repay_reverted(
    pre: LoanFactory,
    post: LoanFactory,
    payer: AccountKey,
    c: ContractId,
    t: TokenId,
    principal: u128,
    fee: u128,
) -> bool {
    &&& post.total_loan as int == pre.total_loan as int + principal as int
    &&& post.total_rewards_pool as int == pre.total_rewards_pool as int - fee as int
    &&& post.coll_principal_rec(c, t) == Some((pre.coll_principal(c, t) + principal) as u128)
    &&& post.coll_custodian(c, t) == pre.coll_custodian(c, t)
    &&& post.coll_price(c, t) == pre.coll_price(c, t)
    &&& post.coll_percent(c, t) == pre.coll_percent(c, t)
    &&& post.coll_expiry(c, t) == pre.coll_expiry(c, t)
    &&& forall|c2: ContractId, t2: TokenId|
        (c2, t2) != (c, t) ==> #[trigger] coll_of(post.collaterals@, c2, t2) == coll_of(
            pre.collaterals@,
            c2,
            t2,
        )
    &&& post.acct_loan(payer) as int == pre.acct_loan(payer) as int + principal as int
    &&& post.acct_balance(payer) == pre.acct_balance(payer)
    &&& post.acct_shares(payer) == pre.acct_shares(payer)
    &&& post.acct_reward(payer) == pre.acct_reward(payer)
    &&& post.acct_claim_time(payer) == pre.acct_claim_time(payer)
    &&& forall|a: AccountKey|
        a != payer ==> #[trigger] acct_of(post.accounts@, a) == acct_of(pre.accounts@, a)
    &&& post.whitelist@ == pre.whitelist@
    &&& post.total_balance == pre.total_balance
    &&& post.total_shares == pre.total_shares
    &&& post.commission == pre.commission
    &&& post.owner_id == pre.owner_id
}

/// How a confirmed collateral return on `(c, t)` transforms the ledger: the
/// custodian record and the captured terms and expiry are cleared, closing
/// the loan's row; the principal record stays at its repaid zero.
pub open spec fn claim_resolved(pre: LoanFactory, post: LoanFactory, c: ContractId, t: TokenId) -> bool {
    &&& post.coll_custodian(c, t) is None
    &&& post.coll_expiry(c, t) is None
    &&& post.coll_price(c, t) is None
    &&& post.coll_percent(c, t) is None
    &&& post.coll_principal_rec(c, t) == pre.coll_principal_rec(c, t)
    &&& forall|c2: ContractId, t2: TokenId|
        (c2, t2) != (c, t) ==> #[trigger] coll_of(post.collaterals@, c2, t2) == coll_of(
            pre.collaterals@,
            c2,
            t2,
        )
    &&& post.accounts@ == pre.accounts@
    &&& post.whitelist@ == pre.whitelist@
    &&& post.total_balance == pre.total_balance
    &&& post.total_rewards_pool == pre.total_rewards_pool
    &&& post.total_shares == pre.total_shares
    &&& post.total_loan == pre.total_loan
    &&& post.commission == pre.commission
    &&& post.owner_id == pre.owner_id
}

/// How a seizure of expired collateral `(c, t)` transforms the ledger:
/// custody passes to the pool operator and the expiry is cleared.  The
/// outstanding principal and the borrower's debt deliberately stay on the
/// books.
pub open spec fn seize_applied(
    pre: LoanFactory,
    post: LoanFactory,
    c: ContractId,
    t: TokenId,
    operator: AccountKey,
) -> bool {
    &&& post.coll_custodian(c, t) == Some(operator)
    &&& post.coll_expiry(c, t) is None
    &&& post.coll_price(c, t) == pre.coll_price(c, t)
    &&& post.coll_percent(c, t) == pre.coll_percent(c, t)
    &&& post.coll_principal_rec(c, t) == pre.coll_principal_rec(c, t)
    &&& forall|c2: ContractId, t2: TokenId|
        (c2, t2) != (c, t) ==> #[trigger] coll_of(post.collaterals@, c2, t2) == coll_of(
            pre.collaterals@,
            c2,
            t2,
        )
    &&& post.accounts@ == pre.accounts@
    &&& post.whitelist@ == pre.whitelist@
    &&& post.total_balance == pre.total_balance
    &&& post.total_rewards_pool == pre.total_rewards_pool
    &&& post.total_shares == pre.total_shares
    &&& post.total_loan == pre.total_loan
    &&& post.commission == pre.commission
    &&& post.owner_id == pre.owner_id
}

impl LoanFactory {
    /// Whether a repayment on `(c, t)` by `payer` attaching `deposit` at
    /// time `now` is accepted: an active, unexpired loan with a recorded
    /// custodian, the exact required payment attached, and debt records
    /// that cover the principal.
    pub open spec fn repay_accepted(
        self,
        c: ContractId,
        t: TokenId,
        payer: AccountKey,
        deposit: u128,
        now: u64,
    ) -> bool {
        let principal = self.coll_principal(c, t);
        let fee = spec_fee(principal, self.commission);
        &&& self.coll_expiry(c, t) matches Some(x) && now < x
        &&& principal > 0
        &&& self.coll_custodian(c, t) is Some
        &&& deposit as int == principal as int + fee
        &&& principal <= self.acct_loan(payer)
        &&& principal <= self.total_loan
    }

    /// Repays the loan on `(contract_id, token_id)`: requires an active,
    /// unexpired loan (`NotFound` without one, `Expiry` once `now` reaches
    /// the expiry, `Validation` on an already repaid loan) and exactly
    /// `principal + principal * commission / 100` attached (`Validation`
    /// otherwise); a refusal leaves the ledger untouched.  On success the
    /// debt is cleared, the fee feeds the reward pool, and the returned
    /// pair — the attached amount to refund and the fee — is reported to
    /// `on_transfer_nft_pay` after the refund transfer; the caller then
    /// chains `loan_nft_claim` to return the token.
    pub fn loan_nft_pay(
        &mut self,
        token_id: TokenId,
        contract_id: ContractId,
        payer: AccountKey,
        deposit: u128,
        now: u64,
    ) -> (r: Result<(u128, u128), LoanError>)
        requires
            old(self).wf(),
            old(self).coll_principal(contract_id, token_id) as int * old(self).commission as int
                <= u128::MAX as int,
            old(self).coll_principal(contract_id, token_id) as int + spec_fee(
                old(self).coll_principal(contract_id, token_id),
                old(self).commission,
            ) <= u128::MAX as int,
            old(self).total_rewards_pool as int + spec_fee(
                old(self).coll_principal(contract_id, token_id),
                old(self).commission,
            ) <= u128::MAX as int,
        ensures
            final(self).wf(),
            r is Ok <==> old(self).repay_accepted(contract_id, token_id, payer, deposit, now),
            r is Err ==> same_state(*old(self), *final(self)),
            old(self).coll_expiry(contract_id, token_id) is None ==> r == Err::<
                (u128, u128),
                LoanError,
            >(LoanError::NotFound),
            (old(self).coll_expiry(contract_id, token_id) matches Some(x) && now >= x) ==> r
                == Err::<(u128, u128), LoanError>(LoanError::Expiry),
            (old(self).coll_expiry(contract_id, token_id) matches Some(x) && now < x && old(
                self,
            ).coll_principal(contract_id, token_id) == 0) ==> r == Err::<(u128, u128), LoanError>(
                LoanError::Validation,
            ),
            (old(self).coll_expiry(contract_id, token_id) matches Some(x) && now < x && old(
                self,
            ).coll_principal(contract_id, token_id) > 0 && old(self).coll_custodian(
                contract_id,
                token_id,
            ) is None) ==> r == Err::<(u128, u128), LoanError>(LoanError::NotFound),
            (old(self).coll_expiry(contract_id, token_id) matches Some(x) && now < x && old(
                self,
            ).coll_principal(contract_id, token_id) > 0 && old(self).coll_custodian(
                contract_id,
                token_id,
            ) is Some && deposit as int != old(self).coll_principal(contract_id, token_id) as int
                + spec_fee(old(self).coll_principal(contract_id, token_id), old(self).commission))
                ==> r == Err::<(u128, u128), LoanError>(LoanError::Validation),
            r is Ok ==> {
                let principal = old(self).coll_principal(contract_id, token_id);
                let fee = spec_fee(principal, old(self).commission);
                &&& r == Ok::<(u128, u128), LoanError>((deposit, fee as u128))
                &&& repay_applied(*old(self), *final(self), payer, contract_id, token_id)
            },
    {
        let (cidx, coll) = self.read_collateral(contract_id, token_id);
        let expiry = match coll.expiry {
            Some(x) => x,
            None => {
                return Err(LoanError::NotFound);
            },
        };
        if now >= expiry {
            return Err(LoanError::Expiry);
        }
        let loan_amount: u128 = match coll.principal {
            Some(p) => p,
            None => 0,
        };
        if loan_amount == 0 {
            return Err(LoanError::Validation);
        }
        if coll.custodian.is_none() {
            return Err(LoanError::NotFound);
        }
        let fee: u128 = loan_amount * self.commission / 100;
        let return_amount: u128 = loan_amount + fee;
        if deposit != return_amount {
            return Err(LoanError::Validation);
        }
        let (aidx, aprev) = self.read_account(payer);
        if loan_amount > aprev.loan || loan_amount > self.total_loan {
            return Err(LoanError::InsufficientFunds);
        }
        let e = CollateralEntry {
            contract: contract_id,
            token: token_id,
            custodian: coll.custodian,
            principal: Some(0),
            price: coll.price,
            percent: coll.percent,
            expiry: coll.expiry,
        };
        let ghost pre_coll = self.collaterals@;
        crate::collateral::put_collateral(&mut self.collaterals, cidx, e);
        proof {
            crate::collateral::lemma_expiry_floor_preserved(pre_coll, self.collaterals@, e);
        }
        let ae = AccountEntry {
            id: payer,
            balance: aprev.balance,
            shares: aprev.shares,
            loan: aprev.loan - loan_amount,
            reward: aprev.reward,
            claim_time: aprev.claim_time,
        };
        crate::account::put_account(&mut self.accounts, aidx, ae);
        self.total_loan = self.total_loan - loan_amount;
        self.total_rewards_pool = self.total_rewards_pool + fee;
        Ok((return_amount, fee))
    }

    /// Applies the outcome of the repayment refund.  On success nothing
    /// changes.  On failure the repayment's ledger deltas are reversed
    /// exactly: the principal — the refunded amount less the fee — is
    /// restored to the payer, the collateral row and the pool total, and
    /// the fee is taken back from the reward pool.
    pub fn on_transfer_nft_pay(
        &mut self,
        account_id: AccountKey,
        amount_sent: u128,
        fee: u128,
        contract_id: ContractId,
        token_id: TokenId,
        transfer_succeeded: bool,
    )
        requires
            old(self).wf(),
            !transfer_succeeded ==> {
                &&& fee <= amount_sent
                &&& fee <= old(self).total_rewards_pool
                &&& old(self).total_loan as int + (amount_sent - fee) <= old(
                    self,
                ).total_balance as int
                &&& old(self).coll_principal(contract_id, token_id) as int + (amount_sent - fee)
                    <= u128::MAX as int
                &&& old(self).acct_loan(account_id) as int + (amount_sent - fee)
                    <= u128::MAX as int
            },
        ensures
            final(self).wf(),
            transfer_succeeded ==> same_state(*old(self), *final(self)),
            !transfer_succeeded ==> repay_reverted(
                *old(self),
                *final(self),
                account_id,
                contract_id,
                token_id,
                (amount_sent - fee) as u128,
                fee,
            ),
    {
        if transfer_succeeded {
            return ;
        }
        let principal: u128 = amount_sent - fee;
        let (cidx, coll) = self.read_collateral(contract_id, token_id);
        let principal_now: u128 = match coll.principal {
            Some(p) => p,
            None => 0,
        };
        let e = CollateralEntry {
            contract: contract_id,
            token: token_id,
            custodian: coll.custodian,
            principal: Some(principal_now + principal),
            price: coll.price,
            percent: coll.percent,
            expiry: coll.expiry,
        };
        let ghost pre_coll = self.collaterals@;
        crate::collateral::put_collateral(&mut self.collaterals, cidx, e);
        proof {
            crate::collateral::lemma_expiry_floor_preserved(pre_coll, self.collaterals@, e);
        }
        let (aidx, aprev) = self.read_account(account_id);
        let ae = AccountEntry {
            id: account_id,
            balance: aprev.balance,
            shares: aprev.shares,
            loan: aprev.loan + principal,
            reward: aprev.reward,
            claim_time: aprev.claim_time,
        };
        crate::account::put_account(&mut self.accounts, aidx, ae);
        self.total_loan = self.total_loan + principal;
        self.total_rewards_pool = self.total_rewards_pool - fee;
    }

    /// Prepares the return of collateral `(contract_id, token_id)` to its
    /// recorded custodian: refused with `NotFound` without a custodian and
    /// with `Validation` while principal is outstanding.  On success the
    /// ledger is untouched; the caller transfers the token to the returned
    /// custodian and reports the outcome to `loan_resolve_nft_claim`.
    pub fn loan_nft_claim(&self, token_id: TokenId, contract_id: ContractId) -> (r: Result<
        AccountKey,
        LoanError,
    >)
        ensures
            self.coll_custodian(contract_id, token_id) is None ==> r == Err::<
                AccountKey,
                LoanError,
            >(LoanError::NotFound),
            self.coll_custodian(contract_id, token_id) is Some && self.coll_principal(
                contract_id,
                token_id,
            ) > 0 ==> r == Err::<AccountKey, LoanError>(LoanError::Validation),
            r is Ok <==> (self.coll_custodian(contract_id, token_id) is Some
                && self.coll_principal(contract_id, token_id) == 0),
            r is Ok ==> r == Ok::<AccountKey, LoanError>(
                self.coll_custodian(contract_id, token_id).unwrap(),
            ),
    {
        let (_, coll) = self.read_collateral(contract_id, token_id);
        let receiver = match coll.custodian {
            Some(o) => o,
            None => {
                return Err(LoanError::NotFound);
            },
        };
        let loan_amount: u128 = match coll.principal {
            Some(p) => p,
            None => 0,
        };
        if loan_amount > 0 {
            return Err(LoanError::Validation);
        }
        Ok(receiver)
    }

    /// Applies the outcome of a collateral return to `receiver_id`.  On
    /// success the custodian record and the captured terms and expiry are
    /// cleared, returning the row to rest.  On failure nothing changes.
    pub fn loan_resolve_nft_claim(
        &mut self,
        receiver_id: AccountKey,
        contract_id: ContractId,
        token_id: TokenId,
        transfer_succeeded: bool,
    )
        requires
            old(self).wf(),
            transfer_succeeded ==> old(self).coll_custodian(contract_id, token_id) == Some(
                receiver_id,
            ),
        ensures
            final(self).wf(),
            !transfer_succeeded ==> same_state(*old(self), *final(self)),
            transfer_succeeded ==> claim_resolved(*old(self), *final(self), contract_id, token_id),
    {
        if !transfer_succeeded {
            return ;
        }
        let (cidx, coll) = self.read_collateral(contract_id, token_id);
        let e = CollateralEntry {
            contract: contract_id,
            token: token_id,
            custodian: None,
            principal: coll.principal,
            price: None,
            percent: None,
            expiry: None,
        };
        let ghost pre_coll = self.collaterals@;
        crate::collateral::put_collateral(&mut self.collaterals, cidx, e);
        proof {
            crate::collateral::lemma_expiry_floor_preserved(pre_coll, self.collaterals@, e);
        }
    }

    /// Seizes collateral `(contract_id, token_id)` whose loan has expired:
    /// refused with `NotFound` without a recorded custodian or expiry, and
    /// with `Expiry` until `now` has passed the expiry.  Any caller may
    /// trigger it; custody passes to the pool operator `current_id`, the
    /// expiry is cleared, and the previous custodian is returned.  The
    /// outstanding debt stays on the books.
    pub fn loan_nft_claim_expired(
        &mut self,
        token_id: TokenId,
        contract_id: ContractId,
        now: u64,
        current_id: AccountKey,
    ) -> (r: Result<AccountKey, LoanError>)
        requires
            old(self).wf(),
        ensures
            final(self).wf(),
            r is Err ==> same_state(*old(self), *final(self)),
            old(self).coll_custodian(contract_id, token_id) is None ==> r == Err::<
                AccountKey,
                LoanError,
            >(LoanError::NotFound),
            old(self).coll_custodian(contract_id, token_id) is Some && old(self).coll_expiry(
                contract_id,
                token_id,
            ) is None ==> r == Err::<AccountKey, LoanError>(LoanError::NotFound),
            (old(self).coll_expiry(contract_id, token_id) matches Some(x) && x >= now && old(
                self,
            ).coll_custodian(contract_id, token_id) is Some) ==> r == Err::<AccountKey, LoanError>(
                LoanError::Expiry,
            ),
            r is Ok <==> (old(self).coll_expiry(contract_id, token_id) matches Some(x) && x < now
                && old(self).coll_custodian(contract_id, token_id) is Some),
            r is Ok ==> {
                &&& r == Ok::<AccountKey, LoanError>(
                    old(self).coll_custodian(contract_id, token_id).unwrap(),
                )
                &&& seize_applied(*old(self), *final(self), contract_id, token_id, current_id)
            },
    {
        let (cidx, coll) = self.read_collateral(contract_id, token_id);
        let owner = match coll.custodian {
            Some(o) => o,
            None => {
                return Err(LoanError::NotFound);
            },
        };
        let expiry = match coll.expiry {
            Some(x) => x,
            None => {
                return Err(LoanError::NotFound);
            },
        };
        if expiry >= now {
            return Err(LoanError::Expiry);
        }
        let e = CollateralEntry {
            contract: contract_id,
            token: token_id,
            custodian: Some(current_id),
            principal: coll.principal,
            price: coll.price,
            percent: coll.percent,
            expiry: None,
        };
        let ghost pre_coll = self.collaterals@;
        crate::collateral::put_collateral(&mut self.collaterals, cidx, e);
        proof {
            crate::collateral::lemma_expiry_floor_preserved(pre_coll, self.collaterals@, e);
        }
        Ok(owner)
    }
}

impl LoanFactory {
    /// The recorded principal of collateral `(contract_id, token_id)`:
    /// `NotFound` before any completed loan, the outstanding amount — zero
    /// once repaid — afterwards.
    pub fn loan_rest_by_id(&self, token_id: TokenId, contract_id: ContractId) -> (r: Result<
        u128,
        LoanError,
    >)
        ensures
            r is Ok <==> self.coll_principal_rec(contract_id, token_id) is Some,
            r is Ok ==> r == Ok::<u128, LoanError>(self.coll_principal(contract_id, token_id)),
            r is Err ==> r == Err::<u128, LoanError>(LoanError::NotFound),
    {
        let (_, coll) = self.read_collateral(contract_id, token_id);
        match coll.principal {
            Some(p) => Ok(p),
            None => Err(LoanError::NotFound),
        }
    }

    /// The recorded custodian of collateral `(contract_id, token_id)`, or
    /// `NotFound` when no loan is in flight on it.
    pub fn loan_owner_by_id(&self, token_id: TokenId, contract_id: ContractId) -> (r: Result<
        AccountKey,
        LoanError,
    >)
        ensures
            r is Ok <==> self.coll_custodian(contract_id, token_id) is Some,
            r is Ok ==> r == Ok::<AccountKey, LoanError>(
                self.coll_custodian(contract_id, token_id).unwrap(),
            ),
            r is Err ==> r == Err::<AccountKey, LoanError>(LoanError::NotFound),
    {
        let (_, coll) = self.read_collateral(contract_id, token_id);
        match coll.custodian {
            Some(o) => Ok(o),
            None => Err(LoanError::NotFound),
        }
    }

    /// The loan terms of a contract as a two-element list — price, then fee
    /// percent — or `NotFound` while either term is unset.
    pub fn loan_nft_price(&self, contract_id: ContractId) -> (r: Result<Vec<u128>, LoanError>)
        ensures
            r is Ok <==> (wl_price(self.whitelist@, contract_id) is Some && wl_percent(
                self.whitelist@,
                contract_id,
            ) is Some),
            r is Ok ==> (r matches Ok(v) && v@ == seq![
                wl_price(self.whitelist@, contract_id).unwrap(),
                wl_percent(self.whitelist@, contract_id).unwrap() as u128,
            ]),
            r is Err ==> r == Err::<Vec<u128>, LoanError>(LoanError::NotFound),
    {
        let (_, e) = self.read_listing(contract_id);
        let price = match e.price {
            Some(p) => p,
            None => {
                return Err(LoanError::NotFound);
            },
        };
        let percent = match e.percent {
            Some(p) => p,
            None => {
                return Err(LoanError::NotFound);
            },
        };
        let mut out: Vec<u128> = Vec::new();
        out.push(price);
        out.push(percent as u128);
        proof {
            assert(out@ =~= seq![
                wl_price(self.whitelist@, contract_id).unwrap(),
                wl_percent(self.whitelist@, contract_id).unwrap() as u128,
            ]);
        }
        Ok(out)
    }

    /// The number of loans currently running: collateral rows with a
    /// recorded expiry.
    pub fn loan_total_nft(&self) -> (r: u128)
        ensures
            r as int == seq_sum(self.collaterals@, crate::collateral::active_weight()),
    {
        let n = self.collaterals.len();
        let mut count: u128 = 0;
        let mut i: usize = 0;
        while i < n
            invariant
                i <= n,
                n == self.collaterals.len(),
                count as int <= i as int,
                count as int == seq_sum(
                    self.collaterals@.take(i as int),
                    crate::collateral::active_weight(),
                ),
            decreases n - i,
        {
            proof {
                assert(self.collaterals@.take(i + 1).drop_last() =~= self.collaterals@.take(
                    i as int,
                ));
                lemma_seq_sum_push(
                    self.collaterals@.take(i as int),
                    self.collaterals@[i as int],
                    crate::collateral::active_weight(),
                );
                assert(self.collaterals@.take(i + 1) =~= self.collaterals@.take(i as int).push(
                    self.collaterals@[i as int],
                ));
            }
            if self.collaterals[i].expiry.is_some() {
                count = count + 1;
            }
            i = i + 1;
        }
        proof {
            assert(self.collaterals@.take(n as int) =~= self.collaterals@);
        }
        count
    }

    /// The loan report for collateral `(contract_id, token_id)` at time
    /// `now`, or `NotFound` while it has no recorded custodian or
    /// principal.
    pub fn loan_nft_by_id(&self, token_id: TokenId, contract_id: ContractId, now: u64) -> (r:
        Result<crate::meta::JsonLoan, LoanError>)
        requires
            self.wf(),
        ensures
            r is Ok <==> (self.coll_custodian(contract_id, token_id) is Some
                && self.coll_principal_rec(contract_id, token_id) is Some),
            r is Ok ==> r == Ok::<crate::meta::JsonLoan, LoanError>(
                crate::meta::spec_json_loan(
                    coll_of(self.collaterals@, contract_id, token_id).unwrap(),
                    now,
                ),
            ),
            r is Err ==> r == Err::<crate::meta::JsonLoan, LoanError>(LoanError::NotFound),
    {
        let (_, coll) = self.read_collateral(contract_id, token_id);
        proof {
            lemma_key_index(self.collaterals@, (contract_id, token_id));
            if self.coll_expiry(contract_id, token_id) is Some {
                assert(expiry_floor(
                    self.collaterals@[key_index(self.collaterals@, (contract_id, token_id))],
                ));
            }
        }
        let owner = match coll.custodian {
            Some(o) => o,
            None => {
                return Err(LoanError::NotFound);
            },
        };
        let principal = match coll.principal {
            Some(p) => p,
            None => {
                return Err(LoanError::NotFound);
            },
        };
        let expire_date: u64 = match coll.expiry {
            Some(x) => x,
            None => 0,
        };
        let started_at: u64 = if expire_date == 0 {
            0
        } else {
            expire_date - TIME_IN_WEEK
        };
        Ok(
            crate::meta::JsonLoan {
                token_id,
                contract_id,
                owner_id: owner,
                started_at,
                expired_at: expire_date,
                price: principal,
                expired: expire_date < now,
            },
        )
    }

    /// Collects the collateral rows whose recorded custodian is
    /// `account_id`, in table order.
    fn collect_owned(&self, account_id: AccountKey) -> (r: Vec<CollateralEntry>)
        requires
            self.wf(),
        ensures
            r@ == crate::collateral::owned_entries(self.collaterals@, account_id),
            forall|i: int|
                0 <= i < r@.len() ==> (#[trigger] r@[i]).custodian == Some(account_id)
                    && expiry_floor(r@[i]),
    {
        let n = self.collaterals.len();
        let mut out: Vec<CollateralEntry> = Vec::new();
        let mut i: usize = 0;
        while i < n
            invariant
                i <= n,
                n == self.collaterals.len(),
                self.wf(),
                out@ == crate::collateral::owned_entries(
                    self.collaterals@.take(i as int),
                    account_id,
                ),
                forall|k: int|
                    0 <= k < out@.len() ==> (#[trigger] out@[k]).custodian == Some(account_id)
                        && expiry_floor(out@[k]),
            decreases n - i,
        {
            proof {
                assert(self.collaterals@.take(i + 1).drop_last() =~= self.collaterals@.take(
                    i as int,
                ));
                assert(self.collaterals@.take(i + 1).last() == self.collaterals@[i as int]);
                assert(expiry_floor(self.collaterals@[i as int]));
            }
            let e = self.collaterals[i];
            if let Some(o) = e.custodian {
                if o == account_id {
                    out.push(e);
                }
            }
            i = i + 1;
        }
        proof {
            assert(self.collaterals@.take(n as int) =~= self.collaterals@);
        }
        out
    }

    /// The loan reports for every collateral held by `account_id`, paged by
    /// `from_index` and `limit`.  An owner holding nothing gets an empty
    /// page; otherwise a zero `limit` or a `from_index` beyond the holdings
    /// is refused with `Validation`, and a held row without a recorded
    /// principal with `NotFound`.
    pub fn loan_nft_by_owner(
        &self,
        account_id: AccountKey,
        from_index: Option<u128>,
        limit: Option<u64>,
        now: u64,
    ) -> (r: Result<Vec<crate::meta::JsonLoan>, LoanError>)
        requires
            self.wf(),
        ensures
            ({
                let owned = crate::collateral::owned_entries(self.collaterals@, account_id);
                let start = match from_index {
                    Some(f) => f as int,
                    None => 0,
                };
                let cnt = match limit {
                    Some(l) => if l as int <= owned.len() - start {
                        l as int
                    } else {
                        owned.len() - start
                    },
                    None => owned.len() - start,
                };
                &&& owned.len() == 0 ==> (r matches Ok(v) && v@.len() == 0)
                &&& owned.len() > 0 && limit == Some(0u64) ==> r == Err::<
                    Vec<crate::meta::JsonLoan>,
                    LoanError,
                >(LoanError::Validation)
                &&& owned.len() > 0 && limit != Some(0u64) && start >= owned.len() ==> r == Err::<
                    Vec<crate::meta::JsonLoan>,
                    LoanError,
                >(LoanError::Validation)
                &&& owned.len() > 0 && limit != Some(0u64) && start < owned.len() ==> {
                    if forall|k: int|
                        start <= k < start + cnt ==> (#[trigger] owned[k]).principal is Some {
                        r matches Ok(v) && v@.len() == cnt && forall|k: int|
                            0 <= k < cnt ==> #[trigger] v@[k] == crate::meta::spec_json_loan(
                                owned[start + k],
                                now,
                            )
                    } else {
                        r == Err::<Vec<crate::meta::JsonLoan>, LoanError>(LoanError::NotFound)
                    }
                }
            }),
    {
        let owned = self.collect_owned(account_id);
        if owned.len() == 0 {
            return Ok(Vec::new());
        }
        let limit_given: bool = limit.is_some();
        let lim: u64 = match limit {
            Some(l) => l,
            None => 0,
        };
        if limit_given && lim == 0 {
            return Err(LoanError::Validation);
        }
        let start128: u128 = match from_index {
            Some(f) => f,
            None => 0,
        };
        if start128 >= owned.len() as u128 {
            return Err(LoanError::Validation);
        }
        let start: usize = start128 as usize;
        let mut out: Vec<crate::meta::JsonLoan> = Vec::new();
        let mut i: usize = start;
        let ghost cnt = if limit_given && (lim as int) <= owned@.len() - start {
            lim as int
        } else {
            owned@.len() - start
        };
        while i < owned.len() && (!limit_given || ((i - start) as u64) < lim)
            invariant
                start <= i <= owned.len(),
                self.wf(),
                owned@ == crate::collateral::owned_entries(self.collaterals@, account_id),
                forall|k: int|
                    0 <= k < owned@.len() ==> (#[trigger] owned@[k]).custodian == Some(account_id)
                        && expiry_floor(owned@[k]),
                cnt == if limit_given && (lim as int) <= owned@.len() - start {
                    lim as int
                } else {
                    owned@.len() - start
                },
                limit_given == (limit is Some),
                limit_given ==> lim == limit.unwrap() && lim > 0,
                start as int == match from_index {
                    Some(f) => f as int,
                    None => 0,
                },
                (start as int) < owned@.len(),
                limit_given ==> i as int - start <= lim as int,
                out@.len() == i - start,
                forall|k: int|
                    0 <= k < out@.len() ==> #[trigger] out@[k] == crate::meta::spec_json_loan(
                        owned@[start + k],
                        now,
                    ),
                forall|k: int|
                    start <= k < i ==> (#[trigger] owned@[k]).principal is Some,
            decreases owned.len() - i,
        {
            let e = owned[i];
            let principal = match e.principal {
                Some(p) => p,
                None => {
                    proof {
                        // this row falls inside the requested page and
                        // refutes the all-principals-recorded condition
                        assert((i as int) < (start as int) + cnt);
                        assert((crate::collateral::owned_entries(self.collaterals@, account_id)[
                            i as int
                        ]).principal is None);
                    }
                    return Err(LoanError::NotFound);
                },
            };
            let owner = match e.custodian {
                Some(o) => o,
                None => {
                    return Err(LoanError::NotFound);
                },
            };
            let expire_date: u64 = match e.expiry {
                Some(x) => x,
                None => 0,
            };
            let started_at: u64 = if expire_date == 0 {
                0
            } else {
                expire_date - TIME_IN_WEEK
            };
            out.push(
                crate::meta::JsonLoan {
                    token_id: e.token,
                    contract_id: e.contract,
                    owner_id: owner,
                    started_at,
                    expired_at: expire_date,
                    price: principal,
                    expired: expire_date < now,
                },
            );
            i = i + 1;
        }
        proof {
            assert(i as int - start == cnt);
        }
        Ok(out)
    }
}

} // verus!
