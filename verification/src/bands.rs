use vstd::prelude::*;

use crate::domain::Signal;
use crate::registry::Registry;

verus! {

/// A history that grew past twice the period drops its oldest `period` prices.
pub open spec fn trimmed<P>(period: nat, history: Seq<P>) -> Seq<P> {
    if history.len() > 2 * period {
        history.skip(period as int)
    } else {
        history
    }
}

/// The history kept after recording every price of `prices` in turn, starting empty.
pub open spec fn history_after<P>(period: nat, prices: Seq<P>) -> Seq<P>
    decreases prices.len(),
{
    if prices.len() == 0 {
        Seq::empty()
    } else {
        trimmed(period, history_after(period, prices.drop_last()).push(prices.last()))
    }
}

/// The `period` most recent prices of a history (the bands are computed over these).
pub open spec fn recent<P>(period: nat, history: Seq<P>) -> Seq<P> {
    history.subrange(history.len() - period, history.len() as int)
}

/// The kept history is always the most recent stretch of the recorded prices: never shorter
/// than the period (once that many prices have come), and, for a positive period, never longer
/// than twice the period.
pub proof fn law_history_is_recent_suffix<P>(period: nat, prices: Seq<P>)
    ensures
        history_after(period, prices).len() <= prices.len(),
        history_after(period, prices) == prices.skip(
            prices.len() - history_after(period, prices).len(),
        ),
        history_after(period, prices).len() >= period || history_after(period, prices).len()
            == prices.len(),
        period > 0 ==> history_after(period, prices).len() <= 2 * period,
    decreases prices.len(),
{
    if prices.len() > 0 {
        let rest = prices.drop_last();
        law_history_is_recent_suffix(period, rest);
        let h = history_after(period, rest);
        let pushed = h.push(prices.last());
        assert(rest.skip(rest.len() - h.len()).push(prices.last()) =~= prices.skip(
            prices.len() - pushed.len(),
        ));
        if pushed.len() > 2 * period {
            assert(pushed.skip(period as int) =~= prices.skip(
                prices.len() - (pushed.len() - period),
            ));
        }
    } else {
        assert(prices.skip(0) =~= prices);
    }
}

/// Once at least `period` prices have been recorded, the window that the bands are computed over
/// is exactly the `period` most recent prices recorded.
pub proof fn law_window_is_latest_prices<P>(period: nat, prices: Seq<P>)
    requires
        prices.len() >= period,
    ensures
        history_after(period, prices).len() >= period,
        recent(period, history_after(period, prices)) == recent(period, prices),
{
    law_history_is_recent_suffix(period, prices);
    let h = history_after(period, prices);
    assert(recent(period, h) =~= recent(period, prices));
}

/// The window is full, and a buy or sell can first be advised, exactly once at least `period`
/// prices of the symbol have been recorded.
pub proof fn law_window_full_after_period<P>(period: nat, prices: Seq<P>)
    ensures
        history_after(period, prices).len() >= period <==> prices.len() >= period,
{
    law_history_is_recent_suffix(period, prices);
}

/// Records `price` at the end of `history` and drops the oldest `period` prices once the
/// history holds more than twice the period.
pub fn push_trimmed<P>(history: &mut Vec<P>, price: P, period: usize)
    ensures
        final(history)@ == trimmed(period as nat, old(history)@.push(price)),
{
    history.push(price);
    if history.len() > period && history.len() - period > period {
        let tail = history.split_off(period);
        *history = tail;
    }
}

/// A copy of the `period` most recent prices of `history`.
pub fn recent_window<P: Copy>(history: &Vec<P>, period: usize) -> (w: Vec<P>)
    requires
        period <= history@.len(),
    ensures
        w@ == recent(period as nat, history@),
{
    let mut w: Vec<P> = Vec::new();
    let start = history.len() - period;
    let mut i = start;
    while i < history.len()
        invariant
            start == history@.len() - period,
            start <= i <= history@.len(),
            w@ == history@.subrange(start as int, i as int),
        decreases history@.len() - i,
    {
        w.push(history[i]);
        i = i + 1;
        assert(w@ =~= history@.subrange(start as int, i as int));
    }
    w
}

/// Per-symbol price histories for a Bollinger Bands computation with a fixed period.
pub struct BandWindows<P> {
    pub period: usize,
    pub histories: Registry<Vec<P>>,
}

/// The history kept for `symbol` (empty when nothing was recorded for it).
pub open spec fn history_of<P>(m: Map<Seq<char>, Vec<P>>, symbol: Seq<char>) -> Seq<P> {
    if m.dom().contains(symbol) {
        m[symbol]@
    } else {
        Seq::empty()
    }
}

impl<P: Copy> BandWindows<P> {
    /// No price recorded yet.
    pub fn new(period: usize) -> (r: Self)
        ensures
            r.period == period,
            r.histories@ == Map::<Seq<char>, Vec<P>>::empty(),
    {
        BandWindows { period, histories: Registry::new() }
    }

    /// Records `price` for `symbol`; hands back the `period` most recent prices of the symbol
    /// once its history holds at least `period` of them, and `None` before that.
    pub fn record(&mut self, symbol: &String, price: P) -> (window: Option<Vec<P>>)
        ensures
            final(self).period == old(self).period,
            final(self).histories@.dom() == old(self).histories@.dom().insert(symbol@),
            forall|k: Seq<char>|
                k != symbol@ ==> history_of(final(self).histories@, k) == history_of(
                    old(self).histories@,
                    k,
                ),
            history_of(final(self).histories@, symbol@) == trimmed(
                old(self).period as nat,
                history_of(old(self).histories@, symbol@).push(price),
            ),
            match window {
                Some(w) => history_of(final(self).histories@, symbol@).len() >= old(self).period
                    && w@ == recent(
                    old(self).period as nat,
                    history_of(final(self).histories@, symbol@),
                ),
                None => history_of(final(self).histories@, symbol@).len() < old(self).period,
            },
    {
        let mut history = match self.histories.remove(symbol) {
            Some(h) => h,
            None => Vec::new(),
        };
        push_trimmed(&mut history, price, self.period);
        let window = if history.len() < self.period {
            None
        } else {
            Some(recent_window(&history, self.period))
        };
        let _ = self.histories.insert(symbol.clone(), history);
        window
    }

    /// Forgets every recorded price.
    pub fn reset(&mut self)
        ensures
            final(self).period == old(self).period,
            final(self).histories@ == Map::<Seq<char>, Vec<P>>::empty(),
    {
        self.histories.clear();
    }
}

/// The advice of the Bollinger Bands rule for one price.
#[derive(Debug, Clone, Copy, PartialEq, Eq)]
pub enum BandSignal {
    Buy,
    Sell,
    Hold,
}

/// Hold until the window is full; then buy at or below the lower band, else sell at or above the
/// upper band, else hold.
pub open spec fn band_signal(window_full: bool, at_or_below_lower: bool, at_or_above_upper: bool) -> BandSignal {
    if !window_full {
        BandSignal::Hold
    } else if at_or_below_lower {
        BandSignal::Buy
    } else if at_or_above_upper {
        BandSignal::Sell
    } else {
        BandSignal::Hold
    }
}

/// The advice for a price, from whether the window is full and how the price compares with the
/// bands.
pub fn classify_price(window_full: bool, at_or_below_lower: bool, at_or_above_upper: bool) -> (s: BandSignal)
    ensures
        s == band_signal(window_full, at_or_below_lower, at_or_above_upper),
{
    if !window_full {
        BandSignal::Hold
    } else if at_or_below_lower {
        BandSignal::Buy
    } else if at_or_above_upper {
        BandSignal::Sell
    } else {
        BandSignal::Hold
    }
}

/// The signal for `symbol` that carries the advice `kind`, the price and the confidence.
pub fn signal_for<R>(kind: BandSignal, symbol: String, price: R, confidence: R) -> (s: Signal<R>)
    ensures
        s == match kind {
            BandSignal::Buy => Signal::Buy { symbol, price, confidence },
            BandSignal::Sell => Signal::Sell { symbol, price, confidence },
            BandSignal::Hold => Signal::Hold { symbol },
        },
{
    match kind {
        BandSignal::Buy => Signal::Buy { symbol, price, confidence },
        BandSignal::Sell => Signal::Sell { symbol, price, confidence },
        BandSignal::Hold => Signal::Hold { symbol },
    }
}

/// Recording a price extends the recorded sequence: the history kept after one more price is
/// the previous history with the price appended, then trimmed.
pub proof fn law_record_extends_history<P>(period: nat, prices: Seq<P>, price: P)
    ensures
        history_after(period, prices.push(price)) == trimmed(
            period,
            history_after(period, prices).push(price),
        ),
{
    assert(prices.push(price).drop_last() =~= prices);
}

/// Hold until the window is full: a buy is advised exactly when the window is full and the price
/// is at or below the lower band, a sell exactly when the window is full and the price is at or
/// above the upper band but not at or below the lower one, and a hold otherwise.
pub proof fn law_hold_until_window_full(window_full: bool, at_or_below_lower: bool, at_or_above_upper: bool)
    ensures
        !window_full ==> band_signal(window_full, at_or_below_lower, at_or_above_upper)
            == BandSignal::Hold,
        band_signal(window_full, at_or_below_lower, at_or_above_upper) == BandSignal::Buy <==> (
        window_full && at_or_below_lower),
        band_signal(window_full, at_or_below_lower, at_or_above_upper) == BandSignal::Sell <==> (
        window_full && !at_or_below_lower && at_or_above_upper),
        band_signal(window_full, at_or_below_lower, at_or_above_upper) == BandSignal::Hold <==> (
        !window_full || (!at_or_below_lower && !at_or_above_upper)),
{
}

} // verus!
