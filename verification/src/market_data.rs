use vstd::prelude::*;

use crossbeam_channel::{Receiver, Sender};

use crate::channel::unbounded_channel;
use crate::registry::Registry;
use crate::strategies::contains_string;

verus! {

/// A quote of the market-data feed; `R` is the real-number type of prices.
#[derive(Debug, Clone)]
pub struct Quote<R> {
    pub symbol: String,
    pub last_price: R,
    pub bid: R,
    pub ask: R,
    pub bid_size: u32,
    pub ask_size: u32,
    pub volume: u64,
    pub timestamp: u64,
    pub exchange: Option<String>,
}

/// The kinds of market data a subscription asks for.
#[derive(Debug, Clone, Copy, PartialEq, Eq, Hash)]
pub enum DataType {
    RealTimeQuotes,
    HistoricalBars { start: u64, end: u64 },
    Level2,
    Trades,
}

/// How often a subscription wants updates.
#[derive(Debug, Clone, Copy, PartialEq, Eq, Hash)]
pub enum UpdateFrequency {
    RealTime,
    Every(std::time::Duration),
    OnDemand,
}

/// A request for market data on some symbols.
#[derive(Debug, Clone, Hash)]
pub struct Subscription {
    pub symbols: Vec<String>,
    pub data_types: Vec<DataType>,
    pub update_frequency: UpdateFrequency,
}

/// The same symbols, data types and frequency.
pub open spec fn same_subscription(a: Subscription, b: Subscription) -> bool {
    &&& a.symbols@.len() == b.symbols@.len()
    &&& forall|i: int| 0 <= i < a.symbols@.len() ==> #[trigger] a.symbols@[i]@ == b.symbols@[i]@
    &&& a.data_types@ == b.data_types@
    &&& a.update_frequency == b.update_frequency
}

impl Subscription {
    /// A copy with the same symbols, data types and frequency.
    pub fn duplicate(&self) -> (r: Subscription)
        ensures
            same_subscription(r, *self),
    {
        let mut symbols: Vec<String> = Vec::new();
        let mut i: usize = 0;
        while i < self.symbols.len()
            invariant
                i <= self.symbols@.len(),
                symbols@.len() == i,
                forall|j: int| 0 <= j < i ==> #[trigger] symbols@[j]@ == self.symbols@[j]@,
            decreases self.symbols@.len() - i,
        {
            symbols.push(self.symbols[i].clone());
            i = i + 1;
        }
        let mut data_types: Vec<DataType> = Vec::new();
        let mut k: usize = 0;
        while k < self.data_types.len()
            invariant
                k <= self.data_types@.len(),
                data_types@ == self.data_types@.take(k as int),
            decreases self.data_types@.len() - k,
        {
            data_types.push(self.data_types[k]);
            k = k + 1;
            assert(data_types@ =~= self.data_types@.take(k as int));
        }
        assert(self.data_types@.take(k as int) =~= self.data_types@);
        Subscription { symbols, data_types, update_frequency: self.update_frequency }
    }
}

/// The state of a provider's connection.
#[derive(Debug, Clone)]
pub enum ConnectionStatus {
    Disconnected,
    Connecting,
    Connected,
    Reconnecting,
    Error(String),
}

impl ConnectionStatus {
    /// Whether the status is `Connected`.
    pub fn is_connected(&self) -> (b: bool)
        ensures
            b == (*self is Connected),
    {
        match self {
            ConnectionStatus::Connected => true,
            _ => false,
        }
    }
}

/// Where an event comes from.
#[derive(Debug, Clone, Copy, PartialEq, Eq)]
pub enum SourceType {
    DataProvider,
    ServiceLayer,
    Strategy,
}

/// What happened; `Q` is the quote type.
#[derive(Debug, Clone)]
pub enum EventType<Q> {
    Quote { provider: String, quote: Q },
    ProviderConnected { provider: String },
    ProviderDisconnected { provider: String },
    SubscriptionCreated {
        subscription_id: String,
        symbols: Vec<String>,
        success_count: u32,
        total_providers: u32,
    },
    SubscriptionRemoved { subscription_id: String, symbols: Vec<String>, providers_affected: u32 },
    ServiceStarted,
    ServiceStopped,
}

/// An event of the market-data layer, stamped with seconds since the Unix epoch.
#[derive(Debug, Clone)]
pub struct MarketDataEvent<Q> {
    pub source: String,
    pub source_type: SourceType,
    pub event_type: EventType<Q>,
    pub timestamp: u64,
}

impl<Q> MarketDataEvent<Q> {
    /// A data provider announces that it connected.
    pub fn provider_connected(provider: &String, timestamp: u64) -> (e: Self)
        ensures
            e.source@ == provider@,
            e.source_type == SourceType::DataProvider,
            e.event_type matches EventType::ProviderConnected { provider: p } && p@ == provider@,
            e.timestamp == timestamp,
    {
        MarketDataEvent {
            source: provider.clone(),
            source_type: SourceType::DataProvider,
            event_type: EventType::ProviderConnected { provider: provider.clone() },
            timestamp,
        }
    }

    /// A data provider announces that it disconnected.
    pub fn provider_disconnected(provider: &String, timestamp: u64) -> (e: Self)
        ensures
            e.source@ == provider@,
            e.source_type == SourceType::DataProvider,
            e.event_type matches EventType::ProviderDisconnected { provider: p } && p@ == provider@,
            e.timestamp == timestamp,
    {
        MarketDataEvent {
            source: provider.clone(),
            source_type: SourceType::DataProvider,
            event_type: EventType::ProviderDisconnected { provider: provider.clone() },
            timestamp,
        }
    }

    /// A subscription was created with one provider, which accepted it.
    pub fn subscription_created(
        provider: &String,
        subscription_id: String,
        symbols: Vec<String>,
        timestamp: u64,
    ) -> (e: Self)
        ensures
            e.source@ == provider@,
            e.source_type == SourceType::DataProvider,
            e.event_type == (EventType::<Q>::SubscriptionCreated {
                subscription_id,
                symbols,
                success_count: 1,
                total_providers: 1,
            }),
            e.timestamp == timestamp,
    {
        MarketDataEvent {
            source: provider.clone(),
            source_type: SourceType::DataProvider,
            event_type: EventType::SubscriptionCreated {
                subscription_id,
                symbols,
                success_count: 1,
                total_providers: 1,
            },
            timestamp,
        }
    }

    /// A subscription was removed from the one provider that served it.
    pub fn subscription_removed(
        provider: &String,
        subscription_id: String,
        symbols: Vec<String>,
        timestamp: u64,
    ) -> (e: Self)
        ensures
            e.source@ == provider@,
            e.source_type == SourceType::DataProvider,
            e.event_type == (EventType::<Q>::SubscriptionRemoved {
                subscription_id,
                symbols,
                providers_affected: 1,
            }),
            e.timestamp == timestamp,
    {
        MarketDataEvent {
            source: provider.clone(),
            source_type: SourceType::DataProvider,
            event_type: EventType::SubscriptionRemoved {
                subscription_id,
                symbols,
                providers_affected: 1,
            },
            timestamp,
        }
    }
}

/// A data type the simulator cannot serve.
#[derive(Debug, Clone, Copy, PartialEq, Eq)]
pub enum UnsupportedDataType {
    HistoricalBars,
    Level2,
    Trades,
}

impl UnsupportedDataType {
    /// The text of the refusal.
    pub open spec fn spec_message(self) -> Seq<char> {
        match self {
            UnsupportedDataType::HistoricalBars => "Historical data not supported by SimulatorProvider"@,
            UnsupportedDataType::Level2 => "Level2 data not supported by SimulatorProvider"@,
            UnsupportedDataType::Trades => "Trade data not supported by SimulatorProvider"@,
        }
    }

    /// The text of the refusal.
    pub fn message(&self) -> (m: String)
        ensures
            m@ == self.spec_message(),
    {
        match self {
            UnsupportedDataType::HistoricalBars => "Historical data not supported by SimulatorProvider".to_owned(),
            UnsupportedDataType::Level2 => "Level2 data not supported by SimulatorProvider".to_owned(),
            UnsupportedDataType::Trades => "Trade data not supported by SimulatorProvider".to_owned(),
        }
    }
}

/// Whether the simulator serves `d`, and if not, why.
pub open spec fn data_type_refusal(d: DataType) -> Option<UnsupportedDataType> {
    match d {
        DataType::RealTimeQuotes => None,
        DataType::HistoricalBars { .. } => Some(UnsupportedDataType::HistoricalBars),
        DataType::Level2 => Some(UnsupportedDataType::Level2),
        DataType::Trades => Some(UnsupportedDataType::Trades),
    }
}

/// The simulator serves real-time quotes and nothing else: a data type is refused exactly when
/// it is not real-time quotes, historical bars as historical data, level 2 as level 2 data and
/// trades as trade data.
pub proof fn law_simulator_serves_real_time_only(d: DataType)
    ensures
        data_type_refusal(d) is None <==> d is RealTimeQuotes,
        d is HistoricalBars ==> data_type_refusal(d) == Some(UnsupportedDataType::HistoricalBars),
        d is Level2 ==> data_type_refusal(d) == Some(UnsupportedDataType::Level2),
        d is Trades ==> data_type_refusal(d) == Some(UnsupportedDataType::Trades),
{
}

/// The simulator serves only real-time quotes: accepts the data types when all are real-time
/// quotes, and otherwise refuses on the first that is not.
pub fn check_data_types(data_types: &Vec<DataType>) -> (r: Result<(), UnsupportedDataType>)
    ensures
        r is Ok <==> forall|i: int|
            0 <= i < data_types@.len() ==> data_type_refusal(#[trigger] data_types@[i]) is None,
        r is Ok <==> forall|i: int| 0 <= i < data_types@.len() ==> (#[trigger] data_types@[i] is RealTimeQuotes),
        r matches Err(u) ==> exists|i: int|
            0 <= i < data_types@.len() && data_type_refusal(data_types@[i]) == Some(u) && forall|
                k: int,
            |
                0 <= k < i ==> data_type_refusal(#[trigger] data_types@[k]) is None,
{
    let mut i: usize = 0;
    while i < data_types.len()
        invariant
            i <= data_types@.len(),
            forall|k: int| 0 <= k < i ==> data_type_refusal(#[trigger] data_types@[k]) is None,
        decreases data_types@.len() - i,
    {
        match data_types[i] {
            DataType::RealTimeQuotes => {},
            DataType::HistoricalBars { .. } => {
                proof {
                    assert(data_type_refusal(data_types@[i as int]) == Some(
                        UnsupportedDataType::HistoricalBars,
                    ));
                }
                return Err(UnsupportedDataType::HistoricalBars);
            },
            DataType::Level2 => {
                proof {
                    assert(data_type_refusal(data_types@[i as int]) == Some(UnsupportedDataType::Level2));
                }
                return Err(UnsupportedDataType::Level2);
            },
            DataType::Trades => {
                proof {
                    assert(data_type_refusal(data_types@[i as int]) == Some(UnsupportedDataType::Trades));
                }
                return Err(UnsupportedDataType::Trades);
            },
        }
        i = i + 1;
    }
    Ok(())
}

/// Calls `rand::random::<u32>()`, a draw from the thread-local generator: any `u32`.
#[verifier::external_body]
fn random_u32() -> u32 {
    rand::random::<u32>()
}

/// Calls `rand::random::<u64>()`, a draw from the thread-local generator: any `u64`.
#[verifier::external_body]
fn random_u64() -> u64 {
    rand::random::<u64>()
}

/// The bid or ask size a simulated quote gets from a draw: between 100 and 1099.
pub open spec fn size_from(draw: u32) -> u32 {
    (draw % 1000 + 100) as u32
}

/// The volume a simulated quote gets from a draw: between 1000 and 10999.
pub open spec fn volume_from(draw: u64) -> u64 {
    (draw % 10000 + 1000) as u64
}

/// The bid or ask size for a draw.
pub fn size_from_draw(draw: u32) -> (size: u32)
    ensures
        size == size_from(draw),
        100 <= size < 1100,
{
    draw % 1000 + 100
}

/// The volume for a draw.
pub fn volume_from_draw(draw: u64) -> (volume: u64)
    ensures
        volume == volume_from(draw),
        1000 <= volume < 11000,
{
    draw % 10000 + 1000
}

/// Draws the bid size, ask size and volume of a simulated quote.
pub fn simulated_quote_sizes() -> (r: (u32, u32, u64))
    ensures
        exists|a: u32, b: u32, v: u64|
            r == (size_from(a), size_from(b), volume_from(v)),
        100 <= r.0 < 1100,
        100 <= r.1 < 1100,
        1000 <= r.2 < 11000,
{
    let bid_size = size_from_draw(random_u32());
    let ask_size = size_from_draw(random_u32());
    let volume = volume_from_draw(random_u64());
    (bid_size, ask_size, volume)
}

/// The simulator's table of subscriptions by symbol.
pub struct SimulatorSubscriptions {
    pub by_symbol: Registry<Subscription>,
}

impl SimulatorSubscriptions {
    /// No subscription.
    pub fn new() -> (r: Self)
        ensures
            r.by_symbol@ == Map::<Seq<char>, Subscription>::empty(),
    {
        SimulatorSubscriptions { by_symbol: Registry::new() }
    }

    /// Files `subscription` under each of its symbols, replacing what was filed there.
    pub fn store(&mut self, subscription: &Subscription)
        ensures
            forall|k: Seq<char>|
                #[trigger] final(self).by_symbol@.dom().contains(k) <==> (old(self).by_symbol@.dom().contains(k)
                    || contains_string(subscription.symbols@, k)),
            forall|k: Seq<char>|
                contains_string(subscription.symbols@, k) ==> same_subscription(
                    #[trigger] final(self).by_symbol@[k],
                    *subscription,
                ),
            forall|k: Seq<char>|
                !contains_string(subscription.symbols@, k) && old(self).by_symbol@.dom().contains(k)
                    ==> #[trigger] final(self).by_symbol@[k] == old(self).by_symbol@[k],
    {
        let mut i: usize = 0;
        while i < subscription.symbols.len()
            invariant
                i <= subscription.symbols@.len(),
                forall|k: Seq<char>|
                    #[trigger] self.by_symbol@.dom().contains(k) <==> (old(self).by_symbol@.dom().contains(k)
                        || contains_string(subscription.symbols@.take(i as int), k)),
                forall|k: Seq<char>|
                    contains_string(subscription.symbols@.take(i as int), k) ==> same_subscription(
                        #[trigger] self.by_symbol@[k],
                        *subscription,
                    ),
                forall|k: Seq<char>|
                    !contains_string(subscription.symbols@.take(i as int), k) && old(self).by_symbol@.dom().contains(k)
                        ==> #[trigger] self.by_symbol@[k] == old(self).by_symbol@[k],
            decreases subscription.symbols@.len() - i,
        {
            let copy = subscription.duplicate();
            let _ = self.by_symbol.insert(subscription.symbols[i].clone(), copy);
            proof {
                let prefix = subscription.symbols@.take(i as int);
                let next = subscription.symbols@.take(i + 1);
                assert forall|k: Seq<char>| contains_string(next, k) <==> (contains_string(prefix, k)
                    || k == subscription.symbols@[i as int]@) by {
                    if contains_string(next, k) {
                        let j = choose|j: int| 0 <= j < next.len() && #[trigger] next[j]@ == k;
                        if j < i {
                            assert(prefix[j] == next[j]);
                        }
                    }
                    if contains_string(prefix, k) {
                        let j = choose|j: int| 0 <= j < prefix.len() && #[trigger] prefix[j]@ == k;
                        assert(next[j] == prefix[j]);
                    }
                    if k == subscription.symbols@[i as int]@ {
                        assert(next[i as int]@ == k);
                    }
                }
            }
            i = i + 1;
        }
        proof {
            assert(subscription.symbols@.take(i as int) =~= subscription.symbols@);
        }
    }

    /// Drops the subscriptions filed under `symbols`.
    pub fn remove_symbols(&mut self, symbols: &Vec<String>)
        ensures
            forall|k: Seq<char>|
                #[trigger] final(self).by_symbol@.dom().contains(k) <==> (old(self).by_symbol@.dom().contains(k)
                    && !contains_string(symbols@, k)),
            forall|k: Seq<char>|
                #[trigger] final(self).by_symbol@.dom().contains(k) ==> final(self).by_symbol@[k]
                    == old(self).by_symbol@[k],
    {
        let mut i: usize = 0;
        while i < symbols.len()
            invariant
                i <= symbols@.len(),
                forall|k: Seq<char>|
                    #[trigger] self.by_symbol@.dom().contains(k) <==> (old(self).by_symbol@.dom().contains(k)
                        && !contains_string(symbols@.take(i as int), k)),
                forall|k: Seq<char>|
                    #[trigger] self.by_symbol@.dom().contains(k) ==> self.by_symbol@[k] == old(
                        self,
                    ).by_symbol@[k],
            decreases symbols@.len() - i,
        {
            let _ = self.by_symbol.remove(&symbols[i]);
            proof {
                let prefix = symbols@.take(i as int);
                let next = symbols@.take(i + 1);
                assert forall|k: Seq<char>| contains_string(next, k) <==> (contains_string(prefix, k)
                    || k == symbols@[i as int]@) by {
                    if contains_string(next, k) {
                        let j = choose|j: int| 0 <= j < next.len() && #[trigger] next[j]@ == k;
                        if j < i {
                            assert(prefix[j] == next[j]);
                        }
                    }
                    if contains_string(prefix, k) {
                        let j = choose|j: int| 0 <= j < prefix.len() && #[trigger] prefix[j]@ == k;
                        assert(next[j] == prefix[j]);
                    }
                    if k == symbols@[i as int]@ {
                        assert(next[i as int]@ == k);
                    }
                }
            }
            i = i + 1;
        }
        proof {
            assert(symbols@.take(i as int) =~= symbols@);
        }
    }

    /// Drops every subscription.
    pub fn clear(&mut self)
        ensures
            final(self).by_symbol@ == Map::<Seq<char>, Subscription>::empty(),
    {
        self.by_symbol.clear();
    }
}

/// Why an unsubscribe was refused.
#[derive(Debug, Clone)]
pub enum UnsubscribeError {
    NotFound { subscription_id: String },
    ProviderMismatch { stored_provider: String, requested_provider: String },
}

/// What unsubscribing `id` for `provider` yields on a table of subscriptions: the table loses
/// the entry in any case; the subscription comes back when it was filed for that provider.
pub open spec fn unsubscribe_outcome(
    m: Map<Seq<char>, (String, Subscription)>,
    id: Seq<char>,
    provider: Seq<char>,
) -> Option<Result<Subscription, ()>> {
    if !m.dom().contains(id) {
        None
    } else if m[id].0@ != provider {
        Some(Err(()))
    } else {
        Some(Ok(m[id].1))
    }
}

/// The service that files subscriptions by identifier and carries the quote and event channels;
/// `Q` is the quote and `E` the event type.
#[verifier::reject_recursive_types(Q)]
#[verifier::reject_recursive_types(E)]
pub struct MarketDataService<Q, E> {
    pub subscriptions: Registry<(String, Subscription)>,
    pub quote_sender: Sender<Q>,
    pub quote_receiver: Receiver<Q>,
    pub event_sender: Sender<E>,
    pub event_receiver: Receiver<E>,
}

impl<Q, E> MarketDataService<Q, E> {
    /// No subscription, and fresh quote and event channels.
    pub fn new() -> (r: Self)
        ensures
            r.subscriptions@ == Map::<Seq<char>, (String, Subscription)>::empty(),
    {
        let (quote_sender, quote_receiver) = unbounded_channel();
        let (event_sender, event_receiver) = unbounded_channel();
        MarketDataService {
            subscriptions: Registry::new(),
            quote_sender,
            quote_receiver,
            event_sender,
            event_receiver,
        }
    }

    /// Files `subscription` under `subscription_id` for `provider`.
    pub fn record_subscription(&mut self, subscription_id: String, provider: String, subscription: Subscription)
        ensures
            final(self).subscriptions@ == old(self).subscriptions@.insert(
                subscription_id@,
                (provider, subscription),
            ),
    {
        let _ = self.subscriptions.insert(subscription_id, (provider, subscription));
    }

    /// Takes the subscription filed under `subscription_id` out of the table; refuses when there
    /// is none, or when it was filed for another provider (it is gone from the table then too).
    pub fn take_subscription(&mut self, subscription_id: &String, provider: &String) -> (r: Result<
        Subscription,
        UnsubscribeError,
    >)
        ensures
            final(self).subscriptions@ == old(self).subscriptions@.remove(subscription_id@),
            match unsubscribe_outcome(old(self).subscriptions@, subscription_id@, provider@) {
                None => r matches Err(UnsubscribeError::NotFound { subscription_id: s }) && s@
                    == subscription_id@,
                Some(Err(())) => r matches Err(
                    UnsubscribeError::ProviderMismatch { stored_provider, requested_provider },
                ) && stored_provider@ == old(self).subscriptions@[subscription_id@].0@
                    && requested_provider@ == provider@,
                Some(Ok(s)) => r == Ok::<Subscription, UnsubscribeError>(s),
            },
    {
        match self.subscriptions.remove(subscription_id) {
            Some((stored_provider, subscription)) => {
                if stored_provider != *provider {
                    Err(
                        UnsubscribeError::ProviderMismatch {
                            stored_provider,
                            requested_provider: provider.clone(),
                        },
                    )
                } else {
                    Ok(subscription)
                }
            },
            None => Err(UnsubscribeError::NotFound { subscription_id: subscription_id.clone() }),
        }
    }

    /// A new handle on the receiving end of the quote channel.
    pub fn get_quote_stream(&self) -> (r: Receiver<Q>)
        ensures
            cloned(self.quote_receiver, r),
    {
        self.quote_receiver.clone()
    }

    /// A new handle on the receiving end of the event channel.
    pub fn get_event_stream(&self) -> (r: Receiver<E>)
        ensures
            cloned(self.event_receiver, r),
    {
        self.event_receiver.clone()
    }

    /// A new handle on the sending end of the quote channel.
    pub fn get_quote_sender(&self) -> (r: Sender<Q>)
        ensures
            cloned(self.quote_sender, r),
    {
        self.quote_sender.clone()
    }

    /// A new handle on the sending end of the event channel.
    pub fn get_event_sender(&self) -> (r: Sender<E>)
        ensures
            cloned(self.event_sender, r),
    {
        self.event_sender.clone()
    }
}

/// Filing a subscription and then unsubscribing it for the same provider hands it back and
/// leaves the table as it was without that identifier; unsubscribing it a second time finds
/// nothing.
pub proof fn law_unsubscribe_returns_what_was_filed(
    m: Map<Seq<char>, (String, Subscription)>,
    id: String,
    provider: String,
    s: Subscription,
)
    ensures
        unsubscribe_outcome(m.insert(id@, (provider, s)), id@, provider@) == Some(
            Ok::<Subscription, ()>(s),
        ),
        m.insert(id@, (provider, s)).remove(id@) == m.remove(id@),
        unsubscribe_outcome(m.insert(id@, (provider, s)).remove(id@), id@, provider@) is None,
{
    assert(m.insert(id@, (provider, s)).remove(id@) =~= m.remove(id@));
}

} // verus!
