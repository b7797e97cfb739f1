//! Balances of one symbol as the account reports them.

use crate::keyed::{
    as_map,
    distinct_keys,
    has_key,
    lemma_as_map,
    lemma_push,
    lemma_remove,
    lemma_update,
};
use vstd::prelude::*;

verus! {

/// The amount of a balance that is held back for one asset.
#[derive(Debug, PartialEq, Eq)]
pub struct Reserve {
    pub asset_symbol: String,
    pub amount: u64,
}

/// The reserves as entries of a map from asset symbol to amount.
pub open spec fn reserve_entries(reserves: Seq<Reserve>) -> Seq<(Seq<char>, u64)> {
    reserves.map_values(|reserve: Reserve| (reserve.asset_symbol@, reserve.amount))
}

/// The symbols as entries of a map that holds each of them.
pub open spec fn symbol_entries(symbols: Seq<String>) -> Seq<(Seq<char>, ())> {
    symbols.map_values(|symbol: String| (symbol@, ()))
}

/// Mathematical value of a balance.
pub struct BalanceView {
    pub symbol: Seq<char>,
    pub free: u64,
    pub locked: u64,
    pub shorted: u64,
    pub trading_locked: bool,
    /// Amount held back for each asset that has a margin reserve.
    pub margin_reserves: Map<Seq<char>, u64>,
    /// The assets that are sold short against the balance.
    pub shorted_asset_symbols: Set<Seq<char>>,
    pub balance_update_counts: u64,
}

impl BalanceView {
    /// The balance with the margin reserve of `asset_symbol` set to
    /// `amount`: no reserve is kept for amount zero.
    pub open spec fn with_margin_reserve(
        self,
        asset_symbol: Seq<char>,
        amount: u64,
    ) -> BalanceView {
        BalanceView {
            margin_reserves: if amount == 0 {
                self.margin_reserves.remove(asset_symbol)
            } else {
                self.margin_reserves.insert(asset_symbol, amount)
            },
            ..self
        }
    }
}

#[derive(Debug)]
pub struct Balance {
    symbol: String,
    pub free: u64,
    pub locked: u64,
    pub shorted: u64,
    pub trading_locked: bool,
    margin_reserves: Vec<Reserve>,
    shorted_asset_symbols: Vec<String>,
    balance_update_counts: u64,
}

impl View for Balance {
    type V = BalanceView;

    closed spec fn view(&self) -> BalanceView {
        BalanceView {
            symbol: self.symbol@,
            free: self.free,
            locked: self.locked,
            shorted: self.shorted,
            trading_locked: self.trading_locked,
            margin_reserves: as_map(reserve_entries(self.margin_reserves@)),
            shorted_asset_symbols: as_map(symbol_entries(self.shorted_asset_symbols@)).dom(),
            balance_update_counts: self.balance_update_counts,
        }
    }
}

/// Index of the reserve for `asset_symbol`, if there is one.
fn find_reserve(reserves: &Vec<Reserve>, asset_symbol: &String) -> (found: Option<usize>)
    ensures
        match found {
            Some(i) => i < reserves.len() && reserves@[i as int].asset_symbol@ == asset_symbol@,
            None => !has_key(reserve_entries(reserves@), asset_symbol@),
        },
{
    let mut i: usize = 0;
    while i < reserves.len()
        invariant
            i <= reserves.len(),
            forall|j: int| 0 <= j < i ==> (#[trigger] reserves@[j]).asset_symbol@ != asset_symbol@,
        decreases reserves.len() - i,
    {
        if reserves[i].asset_symbol == *asset_symbol {
            return Some(i);
        }
        i += 1;
    }
    proof {
        let entries = reserve_entries(reserves@);
        if has_key(entries, asset_symbol@) {
            let j = choose|j: int| 0 <= j < entries.len() && (#[trigger] entries[j]).0
                == asset_symbol@;
            assert(reserves@[j].asset_symbol@ == asset_symbol@);
        }
    }
    None
}

/// Index of `symbol` among `symbols`, if it is there.
fn find_symbol(symbols: &Vec<String>, symbol: &String) -> (found: Option<usize>)
    ensures
        match found {
            Some(i) => i < symbols.len() && symbols@[i as int]@ == symbol@,
            None => !has_key(symbol_entries(symbols@), symbol@),
        },
{
    let mut i: usize = 0;
    while i < symbols.len()
        invariant
            i <= symbols.len(),
            forall|j: int| 0 <= j < i ==> (#[trigger] symbols@[j])@ != symbol@,
        decreases symbols.len() - i,
    {
        if symbols[i] == *symbol {
            return Some(i);
        }
        i += 1;
    }
    proof {
        let entries = symbol_entries(symbols@);
        if has_key(entries, symbol@) {
            let j = choose|j: int| 0 <= j < entries.len() && (#[trigger] entries[j]).0 == symbol@;
            assert(symbols@[j]@ == symbol@);
        }
    }
    None
}

impl Balance {
    /// No asset has two reserves, no reserve is empty, and no shorted
    /// asset is held twice.
    pub closed spec fn wf(&self) -> bool {
        &&& distinct_keys(reserve_entries(self.margin_reserves@))
        &&& forall|i: int|
            0 <= i < self.margin_reserves@.len() ==> (#[trigger] self.margin_reserves@[i]).amount
                > 0
        &&& distinct_keys(symbol_entries(self.shorted_asset_symbols@))
    }

    /// An empty balance of `symbol`, open for trading.
    pub fn new(symbol: String) -> (balance: Balance)
        ensures
            balance.wf(),
            balance@ == (BalanceView {
                symbol: symbol@,
                free: 0,
                locked: 0,
                shorted: 0,
                trading_locked: false,
                margin_reserves: Map::empty(),
                shorted_asset_symbols: Set::empty(),
                balance_update_counts: 0,
            }),
    {
        let balance: Balance = Balance {
            symbol,
            free: 0,
            locked: 0,
            shorted: 0,
            trading_locked: false,
            margin_reserves: Vec::new(),
            shorted_asset_symbols: Vec::new(),
            balance_update_counts: 0,
        };
        assert(reserve_entries(balance.margin_reserves@) =~= Seq::empty());
        assert(symbol_entries(balance.shorted_asset_symbols@) =~= Seq::empty());
        assert(balance@.shorted_asset_symbols =~= Set::empty());
        balance
    }

    pub fn symbol(&self) -> (symbol: &String)
        ensures
            symbol@ == self@.symbol,
    {
        &self.symbol
    }

    pub fn balance_update_counts(&self) -> (count: u64)
        ensures
            count == self@.balance_update_counts,
    {
        self.balance_update_counts
    }

    /// Sets the free amount.
    pub fn free(&mut self, free: u64)
        ensures
            final(self)@ == (BalanceView { free, ..old(self)@ }),
            old(self).wf() ==> final(self).wf(),
    {
        self.free = free;
    }

    /// Sets the locked amount.
    pub fn locked(&mut self, locked: u64)
        ensures
            final(self)@ == (BalanceView { locked, ..old(self)@ }),
            old(self).wf() ==> final(self).wf(),
    {
        self.locked = locked;
    }

    /// Sets the shorted amount.
    pub fn shorted(&mut self, shorted: u64)
        ensures
            final(self)@ == (BalanceView { shorted, ..old(self)@ }),
            old(self).wf() ==> final(self).wf(),
    {
        self.shorted = shorted;
    }

    /// The free and the locked amount together.
    pub fn total(&self) -> (total: u128)
        ensures
            total == self@.free + self@.locked,
    {
        self.free as u128 + self.locked as u128
    }

    /// The margin reserve of `asset_symbol`, if it has one.
    pub fn get_margin_reserve(&self, asset_symbol: &String) -> (amount: Option<u64>)
        requires
            self.wf(),
        ensures
            match amount {
                Some(amount) => self@.margin_reserves.contains_key(asset_symbol@)
                    && self@.margin_reserves[asset_symbol@] == amount,
                None => !self@.margin_reserves.contains_key(asset_symbol@),
            },
    {
        proof {
            lemma_as_map(reserve_entries(self.margin_reserves@));
        }
        match find_reserve(&self.margin_reserves, asset_symbol) {
            Some(i) => {
                proof {
                    let entries = reserve_entries(self.margin_reserves@);
                    assert(entries[i as int].0 == asset_symbol@);
                    assert(has_key(entries, asset_symbol@));
                    assert(as_map(entries)[entries[i as int].0] == entries[i as int].1);
                }
                Some(self.margin_reserves[i].amount)
            },
            None => None,
        }
    }

    /// Sets the margin reserve of `asset_symbol`. With amount zero the
    /// asset has no reserve any more.
    pub fn margin_reserve(&mut self, asset_symbol: String, margin_reserve: u64)
        requires
            old(self).wf(),
        ensures
            final(self).wf(),
            final(self)@ == old(self)@.with_margin_reserve(asset_symbol@, margin_reserve),
    {
        let ghost before = reserve_entries(self.margin_reserves@);
        proof {
            lemma_as_map(before);
        }
        match find_reserve(&self.margin_reserves, &asset_symbol) {
            Some(i) => {
                assert(before[i as int].0 == asset_symbol@);
                if margin_reserve == 0 {
                    self.margin_reserves.remove(i);
                    proof {
                        lemma_remove(before, i as int);
                        assert(reserve_entries(self.margin_reserves@) =~= before.remove(i as int));
                    }
                } else {
                    self.margin_reserves[i].amount = margin_reserve;
                    proof {
                        lemma_update(before, i as int, margin_reserve);
                        assert(reserve_entries(self.margin_reserves@) =~= before.update(
                            i as int,
                            (asset_symbol@, margin_reserve),
                        ));
                    }
                }
            },
            None => {
                if margin_reserve == 0 {
                    assert(!as_map(before).contains_key(asset_symbol@));
                    assert(as_map(before).remove(asset_symbol@) =~= as_map(before));
                } else {
                    self.margin_reserves.push(
                        Reserve { asset_symbol, amount: margin_reserve },
                    );
                    proof {
                        lemma_push(before, asset_symbol@, margin_reserve);
                        assert(reserve_entries(self.margin_reserves@) =~= before.push(
                            (asset_symbol@, margin_reserve),
                        ));
                    }
                }
            },
        }
    }

    /// Closes the balance for trading.
    pub fn lock_trading(&mut self)
        ensures
            final(self)@ == (BalanceView { trading_locked: true, ..old(self)@ }),
            old(self).wf() ==> final(self).wf(),
    {
        self.trading_locked = true;
    }

    /// Opens the balance for trading.
    pub fn unlock_trading(&mut self)
        ensures
            final(self)@ == (BalanceView { trading_locked: false, ..old(self)@ }),
            old(self).wf() ==> final(self).wf(),
    {
        self.trading_locked = false;
    }

    /// The assets that are sold short against the balance, each once.
    pub fn shorted_asset_symbols(&self) -> (symbols: &Vec<String>)
        ensures
            as_map(symbol_entries(symbols@)).dom() == self@.shorted_asset_symbols,
            self.wf() ==> distinct_keys(symbol_entries(symbols@)),
    {
        &self.shorted_asset_symbols
    }

    /// Whether `asset_symbol` is sold short against the balance.
    pub fn is_shorted(&self, asset_symbol: &String) -> (shorted: bool)
        ensures
            shorted == self@.shorted_asset_symbols.contains(asset_symbol@),
    {
        proof {
            lemma_as_map(symbol_entries(self.shorted_asset_symbols@));
        }
        match find_symbol(&self.shorted_asset_symbols, asset_symbol) {
            Some(i) => {
                proof {
                    let entries = symbol_entries(self.shorted_asset_symbols@);
                    assert(entries[i as int].0 == asset_symbol@);
                    assert(has_key(entries, asset_symbol@));
                }
                true
            },
            None => false,
        }
    }

    /// Marks `asset_symbol` as sold short against the balance. The result
    /// says whether it was not marked before.
    pub fn add_shorted_asset_symbol(&mut self, asset_symbol: String) -> (added: bool)
        requires
            old(self).wf(),
        ensures
            final(self).wf(),
            added == !old(self)@.shorted_asset_symbols.contains(asset_symbol@),
            final(self)@ == (BalanceView {
                shorted_asset_symbols: old(self)@.shorted_asset_symbols.insert(asset_symbol@),
                ..old(self)@
            }),
    {
        let ghost before = symbol_entries(self.shorted_asset_symbols@);
        proof {
            lemma_as_map(before);
        }
        match find_symbol(&self.shorted_asset_symbols, &asset_symbol) {
            Some(i) => {
                proof {
                    assert(before[i as int].0 == asset_symbol@);
                    assert(has_key(before, asset_symbol@));
                    assert(as_map(before).dom().insert(asset_symbol@) =~= as_map(before).dom());
                }
                false
            },
            None => {
                self.shorted_asset_symbols.push(asset_symbol);
                proof {
                    lemma_push(before, asset_symbol@, ());
                    assert(symbol_entries(self.shorted_asset_symbols@) =~= before.push(
                        (asset_symbol@, ()),
                    ));
                    assert(as_map(before).insert(asset_symbol@, ()).dom() =~= as_map(
                        before,
                    ).dom().insert(asset_symbol@));
                }
                true
            },
        }
    }

    /// Marks `asset_symbol` as no longer sold short against the balance.
    /// The result says whether it was marked before.
    pub fn remove_shorted_asset_symbol(&mut self, asset_symbol: &String) -> (removed: bool)
        requires
            old(self).wf(),
        ensures
            final(self).wf(),
            removed == old(self)@.shorted_asset_symbols.contains(asset_symbol@),
            final(self)@ == (BalanceView {
                shorted_asset_symbols: old(self)@.shorted_asset_symbols.remove(asset_symbol@),
                ..old(self)@
            }),
    {
        let ghost before = symbol_entries(self.shorted_asset_symbols@);
        proof {
            lemma_as_map(before);
        }
        match find_symbol(&self.shorted_asset_symbols, asset_symbol) {
            Some(i) => {
                self.shorted_asset_symbols.remove(i);
                proof {
                    assert(before[i as int].0 == asset_symbol@);
                    assert(has_key(before, asset_symbol@));
                    lemma_remove(before, i as int);
                    assert(symbol_entries(self.shorted_asset_symbols@) =~= before.remove(i as int));
                    assert(as_map(before).remove(asset_symbol@).dom() =~= as_map(
                        before,
                    ).dom().remove(asset_symbol@));
                }
                true
            },
            None => {
                proof {
                    assert(as_map(before).dom().remove(asset_symbol@) =~= as_map(before).dom());
                }
                false
            },
        }
    }
}

} // verus!
