//! The ledger of balances of one account.

use crate::account::balance::Balance;
use crate::client_account::ClientAccount;
use crate::simulation::signal_repository::{default_headers, SignalRepository};
use std::collections::HashMap;
use vstd::prelude::*;

verus! {

pub struct AccountManager<Account: ClientAccount> {
    pub trade_counter: u64,
    pub balance_update_counts: HashMap<String, u64>,
    /// Milliseconds after which a balance is read again.
    pub balance_expiration_time: u64,
    pub frequent_balance_update_interval: u64,
    pub last_balance_sync: u64,
    pub balances: Vec<Balance>,
    pub account: Account,
    pub account_hash: u64,
    /// Share of a short sale to hold back as margin, in parts per million.
    pub margin_reserve_factor: u64,
    /// The same share in parts per million of one percent.
    pub margin_reserve_factor_pct: u128,
    pub latest_prices: HashMap<String, Vec<u64>>,
    pub signal_repository: SignalRepository,
}

impl<Account: ClientAccount> AccountManager<Account> {
    /// A ledger for `account` that has counted no trade and holds no
    /// balance, price or signal.
    pub fn new(
        account: Account,
        balance_expiration_time: u64,
        frequent_balance_update_interval: u64,
        margin_reserve_factor: u64,
    ) -> (manager: AccountManager<Account>)
        ensures
            manager.trade_counter == 0,
            manager.balance_update_counts@ == Map::<String, u64>::empty(),
            manager.balance_expiration_time == balance_expiration_time,
            manager.frequent_balance_update_interval == frequent_balance_update_interval,
            manager.last_balance_sync == 0,
            manager.balances@ == Seq::<Balance>::empty(),
            manager.account == account,
            manager.account_hash == 0,
            manager.margin_reserve_factor == margin_reserve_factor,
            manager.margin_reserve_factor_pct == margin_reserve_factor * 100,
            manager.latest_prices@ == Map::<String, Vec<u64>>::empty(),
            manager.signal_repository.wf(),
            manager.signal_repository@.headers == default_headers(),
            manager.signal_repository@.signals == Map::<
                (Seq<char>, crate::candles::candle::Candle),
                crate::indicators::signal::Signal,
            >::empty(),
    {
        AccountManager {
            trade_counter: 0,
            balance_update_counts: HashMap::new(),
            balance_expiration_time,
            frequent_balance_update_interval,
            last_balance_sync: 0,
            balances: Vec::new(),
            account,
            account_hash: 0,
            margin_reserve_factor,
            margin_reserve_factor_pct: margin_reserve_factor as u128 * 100,
            latest_prices: HashMap::new(),
            signal_repository: SignalRepository::new(),
        }
    }
}

} // verus!
