use vstd::prelude::*;

use crossbeam_channel::{Receiver, Sender};

use crate::bands::{history_of, recent, trimmed, BandWindows};
use crate::channel::unbounded_channel;
use crate::registry::{key_index, keys_unique, Registry};

verus! {

/// A Bollinger Bands strategy for a fixed list of symbols; `R` is the real-number type of prices
/// and of the standard-deviation factor.
pub struct BollingerBandsStrategy<R> {
    pub id: String,
    pub symbols: Vec<String>,
    pub windows: BandWindows<R>,
    pub std_dev_factor: R,
}

impl<R: Copy> BollingerBandsStrategy<R> {
    /// A strategy with no price recorded yet.
    pub fn new(id: String, symbols: Vec<String>, period: usize, std_dev_factor: R) -> (r: Self)
        ensures
            r.id == id,
            r.symbols == symbols,
            r.windows.period == period,
            r.windows.histories@ == Map::<Seq<char>, Vec<R>>::empty(),
            r.std_dev_factor == std_dev_factor,
    {
        BollingerBandsStrategy { id, symbols, windows: BandWindows::new(period), std_dev_factor }
    }

    /// The strategy's identifier.
    pub fn get_id(&self) -> (id: &str)
        ensures
            id@ == self.id@,
    {
        self.id.as_str()
    }

    /// The symbols the strategy trades.
    pub fn get_required_symbols(&self) -> (symbols: &[String])
        ensures
            symbols@ == self.symbols@,
    {
        self.symbols.as_slice()
    }

    /// Forgets every recorded price.
    pub fn reset(&mut self)
        ensures
            final(self).id == old(self).id,
            final(self).symbols == old(self).symbols,
            final(self).std_dev_factor == old(self).std_dev_factor,
            final(self).windows.period == old(self).windows.period,
            final(self).windows.histories@ == Map::<Seq<char>, Vec<R>>::empty(),
    {
        self.windows.reset();
    }

    /// Records a mid price of `symbol`; the most recent `period` prices once there are that many.
    pub fn record_price(&mut self, symbol: &String, price: R) -> (window: Option<Vec<R>>)
        ensures
            final(self).id == old(self).id,
            final(self).symbols == old(self).symbols,
            final(self).std_dev_factor == old(self).std_dev_factor,
            final(self).windows.period == old(self).windows.period,
            forall|k: Seq<char>|
                k != symbol@ ==> history_of(final(self).windows.histories@, k) == history_of(
                    old(self).windows.histories@,
                    k,
                ),
            history_of(final(self).windows.histories@, symbol@) == trimmed(
                old(self).windows.period as nat,
                history_of(old(self).windows.histories@, symbol@).push(price),
            ),
            match window {
                Some(w) => history_of(final(self).windows.histories@, symbol@).len()
                    >= old(self).windows.period && w@ == recent(
                    old(self).windows.period as nat,
                    history_of(final(self).windows.histories@, symbol@),
                ),
                None => history_of(final(self).windows.histories@, symbol@).len()
                    < old(self).windows.period,
            },
    {
        self.windows.record(symbol, price)
    }
}

/// Some entry of the table requires `symbol`.
pub open spec fn required_by<S>(m: Map<Seq<char>, (Vec<String>, S)>, symbol: Seq<char>) -> bool {
    exists|id: Seq<char>, i: int|
        m.dom().contains(id) && 0 <= i < m[id].0@.len() && #[trigger] m[id].0@[i]@ == symbol
}

/// The strategy stored under `id` requires `symbol`.
pub open spec fn requires_symbol<S>(m: Map<Seq<char>, (Vec<String>, S)>, id: Seq<char>, symbol: Seq<
    char,
>) -> bool {
    m.dom().contains(id) && exists|i: int| 0 <= i < m[id].0@.len() && #[trigger] m[id].0@[i]@ == symbol
}

/// No two elements of `s` have the same view.
pub open spec fn distinct_strings(s: Seq<String>) -> bool {
    forall|i: int, j: int| 0 <= i < j < s.len() ==> #[trigger] s[i]@ != #[trigger] s[j]@
}

/// Some element of `s` has the view `x`.
pub open spec fn contains_string(s: Seq<String>, x: Seq<char>) -> bool {
    exists|i: int| 0 <= i < s.len() && #[trigger] s[i]@ == x
}

/// Whether some element of `v` equals `x`.
pub fn vec_contains_string(v: &Vec<String>, x: &String) -> (b: bool)
    ensures
        b == contains_string(v@, x@),
{
    let mut i: usize = 0;
    while i < v.len()
        invariant
            i <= v@.len(),
            forall|j: int| 0 <= j < i ==> #[trigger] v@[j]@ != x@,
        decreases v@.len() - i,
    {
        if v[i] == *x {
            return true;
        }
        i = i + 1;
    }
    false
}

/// Runs several strategies, each stored under its identifier with the symbols it trades; `S` is
/// the strategy and `G` the signal type.
#[verifier::reject_recursive_types(G)]
pub struct StrategyEngine<S, G> {
    pub strategies: Registry<(Vec<String>, S)>,
    pub signal_sender: Sender<G>,
    pub signal_receiver: Receiver<G>,
}

impl<S, G> StrategyEngine<S, G> {
    /// An engine without strategies and with a fresh signal channel.
    pub fn new() -> (r: Self)
        ensures
            r.strategies@ == Map::<Seq<char>, (Vec<String>, S)>::empty(),
    {
        let (signal_sender, signal_receiver) = unbounded_channel();
        StrategyEngine { strategies: Registry::new(), signal_sender, signal_receiver }
    }

    /// Adds (or replaces) the strategy stored under `id`.
    pub fn add_strategy(&mut self, id: String, symbols: Vec<String>, strategy: S)
        ensures
            final(self).strategies@ == old(self).strategies@.insert(id@, (symbols, strategy)),
    {
        let _ = self.strategies.insert(id, (symbols, strategy));
    }

    /// Removes the strategy stored under `id`, handing it back with its symbols.
    pub fn remove_strategy(&mut self, id: &String) -> (removed: Option<(Vec<String>, S)>)
        ensures
            final(self).strategies@ == old(self).strategies@.remove(id@),
            match removed {
                Some(e) => old(self).strategies@.dom().contains(id@) && e == old(self).strategies@[id@],
                None => !old(self).strategies@.dom().contains(id@),
            },
    {
        self.strategies.remove(id)
    }

    /// The identifiers of the stored strategies, each once.
    pub fn get_active_strategies(&self) -> (ids: Vec<String>)
        ensures
            distinct_strings(ids@),
            forall|k: Seq<char>| self.strategies@.dom().contains(k) <==> contains_string(ids@, k),
    {
        let ids = self.strategies.keys();
        proof {
            let es = self.strategies.entry_seq();
            assert forall|i: int, j: int| 0 <= i < j < ids@.len() implies #[trigger] ids@[i]@
                != #[trigger] ids@[j]@ by {
                assert(ids@[i]@ == es[i].0@ && ids@[j]@ == es[j].0@);
            }
            assert forall|k: Seq<char>| self.strategies@.dom().contains(k) <==> contains_string(
                ids@,
                k,
            ) by {
                if contains_string(ids@, k) {
                    let a = choose|a: int| 0 <= a < ids@.len() && #[trigger] ids@[a]@ == k;
                    assert(ids@[a]@ == k);
                }
            }
        }
        ids
    }

    /// The identifiers of the strategies that trade `symbol`, each once.
    pub fn strategies_for_symbol(&self, symbol: &String) -> (ids: Vec<String>)
        ensures
            distinct_strings(ids@),
            forall|k: Seq<char>|
                requires_symbol(self.strategies@, k, symbol@) <==> contains_string(ids@, k),
    {
        let n = self.strategies.len();
        let ghost es = self.strategies.entry_seq();
        let mut ids: Vec<String> = Vec::new();
        let mut i: usize = 0;
        while i < n
            invariant
                n == es.len(),
                es == self.strategies.entry_seq(),
                keys_unique(es),
                i <= n,
                distinct_strings(ids@),
                forall|k: Seq<char>|
                    contains_string(ids@, k) <==> exists|a: int|
                        0 <= a < i && #[trigger] es[a].0@ == k && contains_string(es[a].1.0@, symbol@),
            decreases n - i,
        {
            let entry = self.strategies.entry_at(i);
            let ghost before = ids@;
            let wanted = vec_contains_string(&entry.1.0, symbol);
            if wanted {
                ids.push(entry.0.clone());
            }
            proof {
                assert(*entry == es[i as int]);
                if wanted {
                    assert(ids@ == before.push(ids@.last()));
                    assert forall|a: int, b: int| 0 <= a < b < ids@.len() implies #[trigger] ids@[a]@
                        != #[trigger] ids@[b]@ by {
                        if b == ids@.len() - 1 {
                            assert(contains_string(before, ids@[a]@)) by {
                                assert(before[a] == ids@[a]);
                            }
                            let c = choose|c: int|
                                0 <= c < i && #[trigger] es[c].0@ == ids@[a]@ && contains_string(
                                    es[c].1.0@,
                                    symbol@,
                                );
                            assert(es[c].0@ != es[i as int].0@);
                        } else {
                            assert(before[a] == ids@[a] && before[b] == ids@[b]);
                        }
                    }
                }
                assert forall|k: Seq<char>|
                    contains_string(ids@, k) <==> exists|a: int|
                        0 <= a < i + 1 && #[trigger] es[a].0@ == k && contains_string(
                            es[a].1.0@,
                            symbol@,
                        ) by {
                    if contains_string(ids@, k) {
                        let j = choose|j: int| 0 <= j < ids@.len() && #[trigger] ids@[j]@ == k;
                        if wanted && j == ids@.len() - 1 {
                            assert(es[i as int].0@ == k);
                        } else {
                            assert(before[j] == ids@[j]);
                            assert(contains_string(before, k));
                        }
                    }
                    if exists|a: int|
                        0 <= a < i + 1 && #[trigger] es[a].0@ == k && contains_string(
                            es[a].1.0@,
                            symbol@,
                        ) {
                        let a = choose|a: int|
                            0 <= a < i + 1 && #[trigger] es[a].0@ == k && contains_string(
                                es[a].1.0@,
                                symbol@,
                            );
                        if a < i {
                            assert(contains_string(before, k));
                            let j = choose|j: int| 0 <= j < before.len() && #[trigger] before[j]@ == k;
                            assert(ids@[j] == before[j]);
                        } else {
                            assert(ids@[ids@.len() - 1]@ == k);
                        }
                    }
                }
            }
            i = i + 1;
        }
        proof {
            assert forall|k: Seq<char>|
                requires_symbol(self.strategies@, k, symbol@) <==> contains_string(ids@, k) by {
                if requires_symbol(self.strategies@, k, symbol@) {
                    let a = key_index(es, k);
                    crate::registry::lemma_key_index(es, a);
                    let x = choose|x: int|
                        0 <= x < self.strategies@[k].0@.len() && #[trigger] self.strategies@[k].0@[x]@
                            == symbol@;
                    assert(es[a].1.0@[x]@ == symbol@);
                }
                if contains_string(ids@, k) {
                    let a = choose|a: int|
                        0 <= a < n && #[trigger] es[a].0@ == k && contains_string(es[a].1.0@, symbol@);
                    crate::registry::lemma_key_index(es, a);
                    let x = choose|x: int| 0 <= x < es[a].1.0@.len() && #[trigger] es[a].1.0@[x]@ == symbol@;
                    assert(self.strategies@[k].0@[x]@ == symbol@);
                }
            }
        }
        ids
    }

    /// Every symbol some stored strategy trades, each once.
    pub fn get_required_symbols(&self) -> (symbols: Vec<String>)
        ensures
            distinct_strings(symbols@),
            forall|x: Seq<char>| required_by(self.strategies@, x) <==> contains_string(symbols@, x),
    {
        let n = self.strategies.len();
        let ghost es = self.strategies.entry_seq();
        let mut symbols: Vec<String> = Vec::new();
        let mut i: usize = 0;
        while i < n
            invariant
                n == es.len(),
                es == self.strategies.entry_seq(),
                keys_unique(es),
                i <= n,
                distinct_strings(symbols@),
                forall|x: Seq<char>|
                    contains_string(symbols@, x) <==> exists|a: int, b: int|
                        0 <= a < i && 0 <= b < es[a].1.0@.len() && #[trigger] es[a].1.0@[b]@ == x,
            decreases n - i,
        {
            let entry = self.strategies.entry_at(i);
            let list = &entry.1.0;
            let mut j: usize = 0;
            while j < list.len()
                invariant
                    n == es.len(),
                    i < n,
                    *entry == es[i as int],
                    *list == entry.1.0,
                    j <= list@.len(),
                    distinct_strings(symbols@),
                    forall|x: Seq<char>|
                        contains_string(symbols@, x) <==> (exists|a: int, b: int|
                            0 <= a < i && 0 <= b < es[a].1.0@.len() && #[trigger] es[a].1.0@[b]@ == x)
                            || (exists|b: int| 0 <= b < j && #[trigger] list@[b]@ == x),
                decreases list@.len() - j,
            {
                let ghost before = symbols@;
                if !vec_contains_string(&symbols, &list[j]) {
                    symbols.push(list[j].clone());
                    proof {
                        assert forall|a: int, b: int| 0 <= a < b < symbols@.len() implies #[trigger] symbols@[a]@
                            != #[trigger] symbols@[b]@ by {
                            if b == symbols@.len() - 1 {
                                assert(symbols@[a] == before[a]);
                            } else {
                                assert(symbols@[a] == before[a] && symbols@[b] == before[b]);
                            }
                        }
                    }
                }
                proof {
                    assert forall|x: Seq<char>|
                        contains_string(symbols@, x) <==> (exists|a: int, b: int|
                            0 <= a < i && 0 <= b < es[a].1.0@.len() && #[trigger] es[a].1.0@[b]@ == x)
                            || (exists|b: int| 0 <= b < j + 1 && #[trigger] list@[b]@ == x) by {
                        if contains_string(symbols@, x) {
                            let c = choose|c: int| 0 <= c < symbols@.len() && #[trigger] symbols@[c]@ == x;
                            if c < before.len() {
                                assert(symbols@[c] == before[c]);
                                assert(contains_string(before, x));
                            } else {
                                assert(list@[j as int]@ == x);
                            }
                        }
                        if exists|b: int| 0 <= b < j + 1 && #[trigger] list@[b]@ == x {
                            let b = choose|b: int| 0 <= b < j + 1 && #[trigger] list@[b]@ == x;
                            if b == j {
                                if contains_string(before, x) {
                                    let c = choose|c: int| 0 <= c < before.len() && #[trigger] before[c]@ == x;
                                    assert(symbols@[c] == before[c]);
                                } else {
                                    assert(symbols@[symbols@.len() - 1]@ == x);
                                }
                            } else {
                                assert(contains_string(before, x));
                                let c = choose|c: int| 0 <= c < before.len() && #[trigger] before[c]@ == x;
                                assert(symbols@[c] == before[c]);
                            }
                        }
                        if exists|a: int, b: int|
                            0 <= a < i && 0 <= b < es[a].1.0@.len() && #[trigger] es[a].1.0@[b]@ == x {
                            assert(contains_string(before, x));
                            let c = choose|c: int| 0 <= c < before.len() && #[trigger] before[c]@ == x;
                            assert(symbols@[c] == before[c]);
                        }
                    }
                }
                j = j + 1;
            }
            proof {
                assert forall|x: Seq<char>|
                    contains_string(symbols@, x) <==> exists|a: int, b: int|
                        0 <= a < i + 1 && 0 <= b < es[a].1.0@.len() && #[trigger] es[a].1.0@[b]@ == x by {
                    if exists|b: int| 0 <= b < j && #[trigger] list@[b]@ == x {
                        let b = choose|b: int| 0 <= b < j && #[trigger] list@[b]@ == x;
                        assert(es[i as int].1.0@[b]@ == x);
                    }
                    if exists|a: int, b: int|
                        0 <= a < i + 1 && 0 <= b < es[a].1.0@.len() && #[trigger] es[a].1.0@[b]@ == x {
                        let (a, b) = choose|a: int, b: int|
                            0 <= a < i + 1 && 0 <= b < es[a].1.0@.len() && #[trigger] es[a].1.0@[b]@ == x;
                        if a == i {
                            assert(list@[b]@ == x);
                        }
                    }
                }
            }
            i = i + 1;
        }
        proof {
            assert forall|x: Seq<char>| required_by(self.strategies@, x) <==> contains_string(symbols@, x) by {
                if required_by(self.strategies@, x) {
                    let (id, b) = choose|id: Seq<char>, b: int|
                        self.strategies@.dom().contains(id) && 0 <= b < self.strategies@[id].0@.len()
                            && #[trigger] self.strategies@[id].0@[b]@ == x;
                    let a = key_index(es, id);
                    crate::registry::lemma_key_index(es, a);
                    assert(es[a].1.0@[b]@ == x);
                }
                if contains_string(symbols@, x) {
                    let (a, b) = choose|a: int, b: int|
                        0 <= a < n && 0 <= b < es[a].1.0@.len() && #[trigger] es[a].1.0@[b]@ == x;
                    crate::registry::lemma_key_index(es, a);
                    assert(self.strategies@[es[a].0@].0@[b]@ == x);
                }
            }
        }
        symbols
    }

    /// A new handle on the receiving end of the signal channel.
    pub fn get_signal_receiver(&self) -> (r: Receiver<G>)
        ensures
            cloned(self.signal_receiver, r),
    {
        self.signal_receiver.clone()
    }

    /// A new handle on the sending end of the signal channel.
    pub fn get_signal_sender(&self) -> (r: Sender<G>)
        ensures
            cloned(self.signal_sender, r),
    {
        self.signal_sender.clone()
    }
}

/// Quotes go only to active strategies: every strategy listed for a symbol is stored in the
/// engine, and a symbol is among the required symbols exactly when some strategy is listed for
/// it.
pub proof fn law_symbol_routing<S>(m: Map<Seq<char>, (Vec<String>, S)>, symbol: Seq<char>)
    ensures
        forall|id: Seq<char>| #[trigger] requires_symbol(m, id, symbol) ==> m.dom().contains(id),
        required_by(m, symbol) <==> exists|id: Seq<char>| #[trigger] requires_symbol(m, id, symbol),
{
    if required_by(m, symbol) {
        let (id, i) = choose|id: Seq<char>, i: int|
            m.dom().contains(id) && 0 <= i < m[id].0@.len() && #[trigger] m[id].0@[i]@ == symbol;
        assert(requires_symbol(m, id, symbol));
    }
    if exists|id: Seq<char>| #[trigger] requires_symbol(m, id, symbol) {
        let id = choose|id: Seq<char>| #[trigger] requires_symbol(m, id, symbol);
        let i = choose|i: int| 0 <= i < m[id].0@.len() && #[trigger] m[id].0@[i]@ == symbol;
        assert(m[id].0@[i]@ == symbol);
    }
}

} // verus!
