//! Signals kept by symbol and candle.

use crate::candles::candle::Candle;
use crate::indicators::signal::Signal;
use crate::keyed::{as_map, distinct_keys, has_key, lemma_as_map, lemma_push, lemma_update};
use vstd::prelude::*;

verus! {

/// Column names of a stored signal, in the order of the columns.
pub const DEFAULT_REPO_HEADERS: [&'static str; 8] = [
    "OPEN_TIME",
    "CLOSE_TIME",
    "OPEN",
    "HIGH",
    "LOW",
    "CLOSE",
    "VOLUME",
    "SIGNAL",
];

/// The signal read from one candle of one symbol.
#[derive(Debug, PartialEq, Eq)]
pub struct SignalRecord {
    pub symbol: String,
    pub candle: Candle,
    pub signal: Signal,
}

/// The records as entries of a map from symbol and candle to signal.
pub open spec fn record_entries(records: Seq<SignalRecord>) -> Seq<((Seq<char>, Candle), Signal)> {
    records.map_values(|record: SignalRecord| ((record.symbol@, record.candle), record.signal))
}

/// The default column names.
pub open spec fn default_headers() -> Seq<Seq<char>> {
    seq![
        "OPEN_TIME"@,
        "CLOSE_TIME"@,
        "OPEN"@,
        "HIGH"@,
        "LOW"@,
        "CLOSE"@,
        "VOLUME"@,
        "SIGNAL"@,
    ]
}

/// The views of texts.
pub open spec fn texts(strings: Seq<String>) -> Seq<Seq<char>> {
    strings.map_values(|text: String| text@)
}

/// Mathematical value of a repository.
pub struct SignalRepositoryView {
    pub headers: Seq<Seq<char>>,
    /// The signal kept for each symbol and candle.
    pub signals: Map<(Seq<char>, Candle), Signal>,
    pub repository_dir: Seq<char>,
}

#[derive(Debug)]
pub struct SignalRepository {
    headers: Vec<String>,
    signals: Vec<SignalRecord>,
    repository_dir: String,
}

impl View for SignalRepository {
    type V = SignalRepositoryView;

    closed spec fn view(&self) -> SignalRepositoryView {
        SignalRepositoryView {
            headers: texts(self.headers@),
            signals: as_map(record_entries(self.signals@)),
            repository_dir: self.repository_dir@,
        }
    }
}

/// Index of the record for `symbol` and `candle`, if there is one.
fn find_record(records: &Vec<SignalRecord>, symbol: &String, candle: &Candle) -> (found: Option<
    usize,
>)
    ensures
        match found {
            Some(i) => i < records.len() && records@[i as int].symbol@ == symbol@
                && records@[i as int].candle == *candle,
            None => !has_key(record_entries(records@), (symbol@, *candle)),
        },
{
    let mut i: usize = 0;
    while i < records.len()
        invariant
            i <= records.len(),
            forall|j: int|
                0 <= j < i ==> !((#[trigger] records@[j]).symbol@ == symbol@ && records@[j].candle
                    == *candle),
        decreases records.len() - i,
    {
        if records[i].symbol == *symbol && records[i].candle == *candle {
            return Some(i);
        }
        i += 1;
    }
    proof {
        let entries = record_entries(records@);
        if has_key(entries, (symbol@, *candle)) {
            let j = choose|j: int| 0 <= j < entries.len() && (#[trigger] entries[j]).0 == (
                symbol@,
                *candle,
            );
            assert(records@[j].symbol@ == symbol@ && records@[j].candle == *candle);
        }
    }
    None
}

impl SignalRepository {
    /// No symbol and candle have two records.
    pub closed spec fn wf(&self) -> bool {
        distinct_keys(record_entries(self.signals@))
    }

    /// An empty repository with the default column names and no
    /// directory.
    pub fn new() -> (repository: SignalRepository)
        ensures
            repository.wf(),
            repository@ == (SignalRepositoryView {
                headers: default_headers(),
                signals: Map::empty(),
                repository_dir: Seq::empty(),
            }),
    {
        let mut headers: Vec<String> = Vec::new();
        headers.push(String::from_str("OPEN_TIME"));
        headers.push(String::from_str("CLOSE_TIME"));
        headers.push(String::from_str("OPEN"));
        headers.push(String::from_str("HIGH"));
        headers.push(String::from_str("LOW"));
        headers.push(String::from_str("CLOSE"));
        headers.push(String::from_str("VOLUME"));
        headers.push(String::from_str("SIGNAL"));
        let repository: SignalRepository = SignalRepository {
            headers,
            signals: Vec::new(),
            repository_dir: String::new(),
        };
        assert(texts(repository.headers@) =~= default_headers());
        assert(record_entries(repository.signals@) =~= Seq::empty());
        repository
    }

    pub fn headers(&self) -> (headers: &Vec<String>)
        ensures
            texts(headers@) == self@.headers,
    {
        &self.headers
    }

    pub fn repository_dir(&self) -> (directory: &String)
        ensures
            directory@ == self@.repository_dir,
    {
        &self.repository_dir
    }

    /// Keeps `signal` for `candle` of `symbol`, in place of the signal
    /// kept for them before if there was one.
    pub fn add(&mut self, symbol: &str, signal: Signal, candle: Candle)
        requires
            old(self).wf(),
        ensures
            final(self).wf(),
            final(self)@ == (SignalRepositoryView {
                signals: old(self)@.signals.insert((symbol@, candle), signal),
                ..old(self)@
            }),
    {
        let ghost before = record_entries(self.signals@);
        let key: String = String::from_str(symbol);
        match find_record(&self.signals, &key, &candle) {
            Some(i) => {
                assert(before[i as int].0 == (symbol@, candle));
                self.signals[i].signal = signal;
                proof {
                    lemma_update(before, i as int, signal);
                    assert(record_entries(self.signals@) =~= before.update(
                        i as int,
                        ((symbol@, candle), signal),
                    ));
                }
            },
            None => {
                self.signals.push(SignalRecord { symbol: key, candle, signal });
                proof {
                    lemma_push(before, (symbol@, candle), signal);
                    assert(record_entries(self.signals@) =~= before.push(
                        ((symbol@, candle), signal),
                    ));
                }
            },
        }
    }

    /// The signal kept for `candle` of `symbol`.
    pub fn get(&self, symbol: &str, candle: &Candle) -> (signal: Option<Signal>)
        requires
            self.wf(),
        ensures
            match signal {
                Some(signal) => self@.signals.contains_key((symbol@, *candle))
                    && self@.signals[(symbol@, *candle)] == signal,
                None => !self@.signals.contains_key((symbol@, *candle)),
            },
    {
        let key: String = String::from_str(symbol);
        proof {
            lemma_as_map(record_entries(self.signals@));
        }
        match find_record(&self.signals, &key, candle) {
            Some(i) => {
                proof {
                    let entries = record_entries(self.signals@);
                    assert(entries[i as int].0 == (symbol@, *candle));
                    assert(has_key(entries, (symbol@, *candle)));
                    assert(as_map(entries)[entries[i as int].0] == entries[i as int].1);
                }
                Some(self.signals[i].signal)
            },
            None => None,
        }
    }
}

} // verus!
