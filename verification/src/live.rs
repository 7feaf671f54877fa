use vstd::prelude::*;

use crossbeam_channel::{Receiver, Sender};

use crate::bands::{history_of, recent, trimmed, BandWindows};
use crate::channel::unbounded_channel;
use crate::domain::Signal;

verus! {

/// The Bollinger Bands strategy of the live signal engine: one price history per symbol.
pub struct BollingerBandsStrategy<R> {
    pub windows: BandWindows<R>,
    pub std_dev_factor: R,
}

impl<R: Copy> BollingerBandsStrategy<R> {
    /// Records a mid price of `symbol`; the most recent `period` prices once there are that many.
    pub fn record_price(&mut self, symbol: &String, price: R) -> (window: Option<Vec<R>>)
        ensures
            final(self).std_dev_factor == old(self).std_dev_factor,
            final(self).windows.period == old(self).windows.period,
            forall|k: Seq<char>|
                k != symbol@ ==> history_of(final(self).windows.histories@, k) == history_of(
                    old(self).windows.histories@,
                    k,
                ),
            history_of(final(self).windows.histories@, symbol@) == trimmed(
                old(self).windows.period as nat,
                history_of(old(self).windows.histories@, symbol@).push(price),
            ),
            match window {
                Some(w) => history_of(final(self).windows.histories@, symbol@).len()
                    >= old(self).windows.period && w@ == recent(
                    old(self).windows.period as nat,
                    history_of(final(self).windows.histories@, symbol@),
                ),
                None => history_of(final(self).windows.histories@, symbol@).len()
                    < old(self).windows.period,
            },
    {
        self.windows.record(symbol, price)
    }
}

/// A Bollinger Bands strategy with the given period and factor and no price recorded yet.
pub fn new_bollinger_bands_strategy<R: Copy>(period: usize, std_dev_factor: R) -> (s:
    BollingerBandsStrategy<R>)
    ensures
        s.windows.period == period,
        s.windows.histories@ == Map::<Seq<char>, Vec<R>>::empty(),
        s.std_dev_factor == std_dev_factor,
{
    BollingerBandsStrategy { windows: BandWindows::new(period), std_dev_factor }
}

/// Runs one Bollinger Bands strategy and hands its signals to every subscriber.
#[verifier::reject_recursive_types(R)]
pub struct StrategyEngine<R> {
    pub strategy: BollingerBandsStrategy<R>,
    pub signal_subscribers: Vec<Sender<Signal<R>>>,
}

/// An engine around `strategy`, without subscribers.
pub fn new_strategy_engine<R>(strategy: BollingerBandsStrategy<R>) -> (e: StrategyEngine<R>)
    ensures
        e.strategy == strategy,
        e.signal_subscribers@.len() == 0,
{
    StrategyEngine { strategy, signal_subscribers: Vec::new() }
}

impl<R> StrategyEngine<R> {
    /// Opens a new signal channel, keeps its sending end among the subscribers and hands back its
    /// receiving end.
    pub fn subscribe_signals(&mut self) -> (r: Receiver<Signal<R>>)
        ensures
            final(self).strategy == old(self).strategy,
            final(self).signal_subscribers@.len() == old(self).signal_subscribers@.len() + 1,
            final(self).signal_subscribers@.take(old(self).signal_subscribers@.len() as int)
                == old(self).signal_subscribers@,
    {
        let (sender, receiver) = unbounded_channel();
        self.signal_subscribers.push(sender);
        proof {
            assert(self.signal_subscribers@.take(old(self).signal_subscribers@.len() as int)
                =~= old(self).signal_subscribers@);
        }
        receiver
    }
}

/// Subscribers to a quote feed, numbered in the order they subscribed; `Q` is the quote type.
/// Each registration keeps the sending end of the subscriber's channel and a handle on its
/// receiving end, by which the subscriber is found again.
#[verifier::reject_recursive_types(Q)]
pub struct MarketData<Q> {
    pub host: String,
    pub port: u16,
    pub client_id: i32,
    pub subscribers: Vec<(u32, Sender<Q>, Receiver<Q>)>,
    pub connection_status: bool,
    pub request_counter: i32,
    pub subscriber_counter: u32,
}

/// A quote feed for the gateway at `host:port`, not connected and without subscribers; request and
/// subscriber numbers start at 1.
pub fn new<Q>(host: String, port: u16, client_id: i32) -> (m: MarketData<Q>)
    ensures
        m.host == host,
        m.port == port,
        m.client_id == client_id,
        m.subscribers@.len() == 0,
        !m.connection_status,
        m.request_counter == 1,
        m.subscriber_counter == 1,
{
    MarketData {
        host,
        port,
        client_id,
        subscribers: Vec::new(),
        connection_status: false,
        request_counter: 1,
        subscriber_counter: 1,
    }
}

/// No registration of the feed belongs to the subscriber's channel.
#[derive(Debug, Clone, Copy, PartialEq, Eq)]
pub struct SubscriberNotFound;

/// Calls `crossbeam_channel::Receiver::same_channel`: whether the two receivers belong to the
/// same channel. Claimed: a receiver and a clone of it (or the receiver itself) belong to the same
/// channel, since a clone shares its channel. Nothing is claimed of receivers that are not clones
/// of each other: clones of clones share the channel too, so `false` cannot be stated from
/// `cloned` alone.
#[verifier::external_body]
fn receivers_share_channel<T>(a: &Receiver<T>, b: &Receiver<T>) -> (same: bool)
    ensures
        cloned(*a, *b) || cloned(*b, *a) ==> same,
{
    a.same_channel(b)
}

/// The position of the first `true` of `matches`, if there is one.
pub open spec fn first_match(matches: Seq<bool>) -> Option<int> {
    if exists|i: int| 0 <= i < matches.len() && #[trigger] matches[i] {
        Some(
            choose|i: int|
                0 <= i < matches.len() && #[trigger] matches[i] && forall|k: int|
                    0 <= k < i ==> !#[trigger] matches[k],
        )
    } else {
        None
    }
}

proof fn lemma_first_match(matches: Seq<bool>, i: int)
    requires
        0 <= i < matches.len(),
        matches[i],
        forall|k: int| 0 <= k < i ==> !#[trigger] matches[k],
    ensures
        first_match(matches) == Some(i),
{
    let c = choose|c: int|
        0 <= c < matches.len() && #[trigger] matches[c] && forall|k: int|
            0 <= k < c ==> !#[trigger] matches[k];
    assert(matches[i]);
    if c < i {
        assert(!matches[c]);
    }
    if i < c {
        assert(!matches[i]);
    }
}

/// The next subscriber number: one more, wrapping around after `u32::MAX`.
pub open spec fn next_subscriber_number(n: u32) -> u32 {
    if n == u32::MAX {
        0
    } else {
        (n + 1) as u32
    }
}

proof fn lemma_first_match_exists(matches: Seq<bool>, w: int)
    requires
        0 <= w < matches.len(),
        matches[w],
    ensures
        first_match(matches) is Some,
        0 <= first_match(matches)->0 <= w,
        matches[first_match(matches)->0],
        forall|k: int| 0 <= k < first_match(matches)->0 ==> !#[trigger] matches[k],
    decreases w,
{
    if exists|k: int| 0 <= k < w && #[trigger] matches[k] {
        let k = choose|k: int| 0 <= k < w && #[trigger] matches[k];
        lemma_first_match_exists(matches, k);
    } else {
        lemma_first_match(matches, w);
    }
}

impl<Q> MarketData<Q> {
    /// Opens a channel for a new subscriber, numbered with the current counter, and hands back its
    /// receiving end; the counter moves on by one.
    pub fn subscribe_market_data(&mut self, _symbols: Vec<String>) -> (r: Receiver<Q>)
        ensures
            final(self).subscribers@.len() == old(self).subscribers@.len() + 1,
            final(self).subscribers@.take(old(self).subscribers@.len() as int)
                == old(self).subscribers@,
            final(self).subscribers@.last().0 == old(self).subscriber_counter,
            cloned(r, final(self).subscribers@.last().2),
            final(self).subscriber_counter == next_subscriber_number(old(self).subscriber_counter),
            final(self).host == old(self).host,
            final(self).port == old(self).port,
            final(self).client_id == old(self).client_id,
            final(self).connection_status == old(self).connection_status,
            final(self).request_counter == old(self).request_counter,
    {
        let (sender, receiver) = unbounded_channel();
        let subscriber_id = self.subscriber_counter;
        self.subscriber_counter = self.subscriber_counter.wrapping_add(1);
        let handle = receiver.clone();
        self.subscribers.push((subscriber_id, sender, handle));
        proof {
            assert(self.subscribers@.take(old(self).subscribers@.len() as int)
                =~= old(self).subscribers@);
        }
        receiver
    }

    /// Removes the first registration whose channel check came back true (`matches[i]` is the
    /// outcome for the `i`th registration); every other registration stays, in order. Refuses,
    /// changing nothing, when no check came back true.
    pub fn remove_subscriber(&mut self, matches: &Vec<bool>) -> (r: Result<(), SubscriberNotFound>)
        requires
            matches@.len() == old(self).subscribers@.len(),
        ensures
            r is Ok <==> first_match(matches@) is Some,
            match first_match(matches@) {
                Some(i) => final(self).subscribers@ == old(self).subscribers@.remove(i),
                None => final(self).subscribers@ == old(self).subscribers@,
            },
            final(self).subscriber_counter == old(self).subscriber_counter,
            final(self).host == old(self).host,
            final(self).port == old(self).port,
            final(self).client_id == old(self).client_id,
            final(self).connection_status == old(self).connection_status,
            final(self).request_counter == old(self).request_counter,
    {
        let mut i: usize = 0;
        while i < matches.len()
            invariant
                i <= matches@.len(),
                matches@.len() == self.subscribers@.len(),
                *self == *old(self),
                forall|k: int| 0 <= k < i ==> !#[trigger] matches@[k],
            decreases matches@.len() - i,
        {
            if matches[i] {
                proof {
                    lemma_first_match(matches@, i as int);
                }
                let _removed = self.subscribers.remove(i);
                return Ok(());
            }
            i = i + 1;
        }
        Err(SubscriberNotFound)
    }

    /// Removes the registration of `subscriber`'s channel (the first, should there be several);
    /// refuses, changing nothing, when no registration belongs to that channel. Unsubscribing a
    /// receiver whose handle some registration keeps as a clone always succeeds, and removes that
    /// registration or an earlier one of the same channel.
    pub fn unsubscribe_market_data(&mut self, subscriber: &Receiver<Q>) -> (r: Result<
        (),
        SubscriberNotFound,
    >)
        ensures
            forall|i: int|
                0 <= i < old(self).subscribers@.len() && cloned(
                    *subscriber,
                    #[trigger] old(self).subscribers@[i].2,
                ) ==> r is Ok,
            r is Ok ==> exists|j: int|
                0 <= j < old(self).subscribers@.len() && final(self).subscribers@ == old(
                    self,
                ).subscribers@.remove(j) && forall|i: int|
                    0 <= i < old(self).subscribers@.len() && cloned(
                        *subscriber,
                        #[trigger] old(self).subscribers@[i].2,
                    ) ==> j <= i,
            r is Err ==> final(self).subscribers@ == old(self).subscribers@,
            old(self).subscribers@.len() == 0 ==> r is Err,
            final(self).subscriber_counter == old(self).subscriber_counter,
            final(self).host == old(self).host,
            final(self).port == old(self).port,
            final(self).client_id == old(self).client_id,
            final(self).connection_status == old(self).connection_status,
            final(self).request_counter == old(self).request_counter,
    {
        let ghost subs = self.subscribers@;
        let mut matches: Vec<bool> = Vec::new();
        let mut i: usize = 0;
        while i < self.subscribers.len()
            invariant
                i <= self.subscribers@.len(),
                self.subscribers@ == subs,
                matches@.len() == i,
                forall|k: int|
                    0 <= k < i && cloned(*subscriber, #[trigger] subs[k].2) ==> matches@[k],
            decreases self.subscribers@.len() - i,
        {
            matches.push(receivers_share_channel(&self.subscribers[i].2, subscriber));
            i = i + 1;
        }
        let r = self.remove_subscriber(&matches);
        proof {
            if exists|w: int| 0 <= w < subs.len() && cloned(*subscriber, #[trigger] subs[w].2) {
                let w = choose|w: int| 0 <= w < subs.len() && cloned(*subscriber, #[trigger] subs[w].2);
                assert(matches@[w]);
                lemma_first_match_exists(matches@, w);
            }
            if r is Ok {
                let k = first_match(matches@)->0;
                let w = choose|w: int| 0 <= w < matches@.len() && #[trigger] matches@[w];
                lemma_first_match_exists(matches@, w);
                assert forall|i: int|
                    0 <= i < subs.len() && cloned(*subscriber, #[trigger] subs[i].2) implies k
                    <= i by {
                    assert(matches@[i]);
                }
            }
        }
        r
    }

    /// Whether the feed is connected to the gateway.
    pub fn is_connected(&self) -> (b: bool)
        ensures
            b == self.connection_status,
    {
        self.connection_status
    }

    /// Records whether the feed is connected to the gateway.
    pub fn set_connected(&mut self, connected: bool)
        ensures
            final(self).connection_status == connected,
            final(self).subscribers == old(self).subscribers,
            final(self).subscriber_counter == old(self).subscriber_counter,
            final(self).host == old(self).host,
            final(self).port == old(self).port,
            final(self).client_id == old(self).client_id,
            final(self).request_counter == old(self).request_counter,
    {
        self.connection_status = connected;
    }
}

/// How long the feed waits before it tries to connect again.
pub const RETRY_SECONDS: u64 = 5;

/// Where the feed's connection thread stands.
#[derive(Debug, Clone, Copy, PartialEq, Eq)]
pub enum FeedState {
    Connecting,
    AwaitingHistory,
    Streaming,
    Stopped,
}

/// What the gateway or the streaming reported.
#[derive(Debug, Clone, Copy, PartialEq, Eq)]
pub enum FeedEvent {
    ConnectFailed,
    Connected,
    HistoryReady,
    HistoryFailed,
    BarSent,
    HistoryEnded,
}

/// What the connection thread does next: connect (again after a pause), ask for the last day
/// of bars, send the next bar to the subscribers (ending the history when none is left), or
/// stop.
#[derive(Debug, Clone, Copy, PartialEq, Eq)]
pub enum FeedAction {
    Connect,
    RetryAfterSeconds(u64),
    RequestHistory,
    SendNextBar,
    Stop,
}

/// The feed counts as connected from a successful connect until streaming ends.
pub open spec fn connected_in(state: FeedState) -> bool {
    state is AwaitingHistory || state is Streaming
}

/// What a state does when an event it does not expect comes: it goes on as it was.
pub open spec fn resume_action(state: FeedState) -> FeedAction {
    match state {
        FeedState::Connecting => FeedAction::Connect,
        FeedState::AwaitingHistory => FeedAction::RequestHistory,
        FeedState::Streaming => FeedAction::SendNextBar,
        FeedState::Stopped => FeedAction::Stop,
    }
}

/// One step of the connection thread. A failed connect is retried after `RETRY_SECONDS` unless
/// shutdown is set; a successful one asks for the history; each bar is sent unless shutdown is
/// set; a failed history request, the end of the history or shutdown stops the feed.
pub open spec fn feed_transition(state: FeedState, event: FeedEvent, shutdown: bool) -> (
    FeedState,
    FeedAction,
) {
    match state {
        FeedState::Connecting => match event {
            FeedEvent::ConnectFailed => if shutdown {
                (FeedState::Stopped, FeedAction::Stop)
            } else {
                (FeedState::Connecting, FeedAction::RetryAfterSeconds(RETRY_SECONDS))
            },
            FeedEvent::Connected => (FeedState::AwaitingHistory, FeedAction::RequestHistory),
            _ => (state, resume_action(state)),
        },
        FeedState::AwaitingHistory => match event {
            FeedEvent::HistoryReady => if shutdown {
                (FeedState::Stopped, FeedAction::Stop)
            } else {
                (FeedState::Streaming, FeedAction::SendNextBar)
            },
            FeedEvent::HistoryFailed => (FeedState::Stopped, FeedAction::Stop),
            _ => (state, resume_action(state)),
        },
        FeedState::Streaming => match event {
            FeedEvent::BarSent => if shutdown {
                (FeedState::Stopped, FeedAction::Stop)
            } else {
                (FeedState::Streaming, FeedAction::SendNextBar)
            },
            FeedEvent::HistoryEnded => (FeedState::Stopped, FeedAction::Stop),
            _ => (state, resume_action(state)),
        },
        FeedState::Stopped => (FeedState::Stopped, FeedAction::Stop),
    }
}

/// Takes one step of the feed's connection thread: the next state and action, with the
/// connection flag set while the feed is connected (from a successful connect until streaming
/// ends) and cleared otherwise.
pub fn feed_step<Q>(feed: &mut MarketData<Q>, state: FeedState, event: FeedEvent, shutdown: bool) -> (r: (
    FeedState,
    FeedAction,
))
    ensures
        r == feed_transition(state, event, shutdown),
        final(feed).connection_status == connected_in(r.0),
        final(feed).subscribers == old(feed).subscribers,
        final(feed).subscriber_counter == old(feed).subscriber_counter,
        final(feed).host == old(feed).host,
        final(feed).port == old(feed).port,
        final(feed).client_id == old(feed).client_id,
        final(feed).request_counter == old(feed).request_counter,
{
    let r = match state {
        FeedState::Connecting => match event {
            FeedEvent::ConnectFailed => if shutdown {
                (FeedState::Stopped, FeedAction::Stop)
            } else {
                (FeedState::Connecting, FeedAction::RetryAfterSeconds(RETRY_SECONDS))
            },
            FeedEvent::Connected => (FeedState::AwaitingHistory, FeedAction::RequestHistory),
            _ => (FeedState::Connecting, FeedAction::Connect),
        },
        FeedState::AwaitingHistory => match event {
            FeedEvent::HistoryReady => if shutdown {
                (FeedState::Stopped, FeedAction::Stop)
            } else {
                (FeedState::Streaming, FeedAction::SendNextBar)
            },
            FeedEvent::HistoryFailed => (FeedState::Stopped, FeedAction::Stop),
            _ => (FeedState::AwaitingHistory, FeedAction::RequestHistory),
        },
        FeedState::Streaming => match event {
            FeedEvent::BarSent => if shutdown {
                (FeedState::Stopped, FeedAction::Stop)
            } else {
                (FeedState::Streaming, FeedAction::SendNextBar)
            },
            FeedEvent::HistoryEnded => (FeedState::Stopped, FeedAction::Stop),
            _ => (FeedState::Streaming, FeedAction::SendNextBar),
        },
        FeedState::Stopped => (FeedState::Stopped, FeedAction::Stop),
    };
    let connected = match r.0 {
        FeedState::AwaitingHistory => true,
        FeedState::Streaming => true,
        _ => false,
    };
    feed.set_connected(connected);
    r
}

/// The state of the connection thread after the events `events` (each with whether shutdown
/// was set when it came), starting from its first connect.
pub open spec fn feed_run(events: Seq<(FeedEvent, bool)>) -> FeedState
    decreases events.len(),
{
    if events.len() == 0 {
        FeedState::Connecting
    } else {
        feed_transition(feed_run(events.drop_last()), events.last().0, events.last().1).0
    }
}

/// The feed is connected exactly between a successful connect and the end of streaming: after
/// any run of events, it counts as connected exactly when some step was a successful connect
/// and the feed has not stopped since.
pub proof fn law_connected_between_connect_and_stop(events: Seq<(FeedEvent, bool)>)
    ensures
        connected_in(feed_run(events)) <==> (feed_run(events) != FeedState::Stopped && exists|i: int|
            0 <= i < events.len() && #[trigger] feed_run(events.take(i)) == FeedState::Connecting
                && events[i].0 == FeedEvent::Connected),
    decreases events.len(),
{
    if events.len() > 0 {
        let rest = events.drop_last();
        let n = rest.len() as int;
        law_connected_between_connect_and_stop(rest);
        assert(events.take(n) =~= rest);
        assert forall|i: int| 0 <= i < n implies #[trigger] events.take(i) =~= rest.take(i) by {}
        let s = feed_run(rest);
        if connected_in(feed_run(events)) {
            if s == FeedState::Connecting {
                assert(feed_run(events.take(n)) == FeedState::Connecting);
            } else {
                let i = choose|i: int|
                    0 <= i < n && #[trigger] feed_run(rest.take(i)) == FeedState::Connecting
                        && rest[i].0 == FeedEvent::Connected;
                assert(events.take(i) =~= rest.take(i));
                assert(feed_run(events.take(i)) == FeedState::Connecting);
            }
        }
        if feed_run(events) != FeedState::Stopped && exists|i: int|
            0 <= i < events.len() && #[trigger] feed_run(events.take(i)) == FeedState::Connecting
                && events[i].0 == FeedEvent::Connected {
            let i = choose|i: int|
                0 <= i < events.len() && #[trigger] feed_run(events.take(i))
                    == FeedState::Connecting && events[i].0 == FeedEvent::Connected;
            if i < n {
                assert(events.take(i) =~= rest.take(i));
                assert(feed_run(rest.take(i)) == FeedState::Connecting);
                assert(rest[i] == events[i]);
            }
        }
    }
}

/// An order placed from a signal; `R` is the real-number type of prices.
#[derive(Debug, Clone)]
pub struct Order<R> {
    pub symbol: String,
    pub side: String,
    pub quantity: u32,
    pub price: R,
}

/// The number of shares of an order placed from a signal.
pub const DEFAULT_ORDER_QUANTITY: u32 = 100;

/// The order a signal places: a buy or sell of the default quantity at the signal's price; a hold
/// places none.
pub open spec fn order_placed<R>(signal: Signal<R>) -> Option<(Seq<char>, Seq<char>, u32, R)> {
    match signal {
        Signal::Buy { symbol, price, confidence } => Some(
            (symbol@, "BUY"@, DEFAULT_ORDER_QUANTITY, price),
        ),
        Signal::Sell { symbol, price, confidence } => Some(
            (symbol@, "SELL"@, DEFAULT_ORDER_QUANTITY, price),
        ),
        Signal::Hold { symbol } => None,
    }
}

/// The fields of an order, as compared with `order_placed`.
pub open spec fn order_fields<R>(o: Order<R>) -> (Seq<char>, Seq<char>, u32, R) {
    (o.symbol@, o.side@, o.quantity, o.price)
}

/// Turns signals into orders for a broker gateway.
pub struct TradingService<R> {
    pub host: String,
    pub port: u16,
    pub client_id: i32,
    pub orders: Vec<Order<R>>,
    pub ibkr_connected: bool,
}

/// A trading service for the gateway at `host:port`, with no order and not connected.
pub fn new_trading_service<R>(host: String, port: u16, client_id: i32) -> (t: TradingService<R>)
    ensures
        t.host == host,
        t.port == port,
        t.client_id == client_id,
        t.orders@.len() == 0,
        !t.ibkr_connected,
{
    TradingService { host, port, client_id, orders: Vec::new(), ibkr_connected: false }
}

impl<R: Copy> TradingService<R> {
    /// Places the order a signal calls for: buy and sell signals each add one order at the end,
    /// hold signals change nothing.
    pub fn handle_signal(&mut self, signal: Signal<R>)
        ensures
            final(self).host == old(self).host,
            final(self).port == old(self).port,
            final(self).client_id == old(self).client_id,
            final(self).ibkr_connected == old(self).ibkr_connected,
            match order_placed(signal) {
                Some(o) => final(self).orders@.len() == old(self).orders@.len() + 1
                    && final(self).orders@.take(old(self).orders@.len() as int) == old(self).orders@
                    && order_fields(final(self).orders@.last()) == o,
                None => final(self).orders@ == old(self).orders@,
            },
            order_views(final(self).orders@) == order_views(old(self).orders@) + orders_for(
                seq![signal],
            ),
    {
        let order = match signal {
            Signal::Buy { symbol, price, confidence: _ } => Some(
                Order {
                    symbol,
                    side: "BUY".to_owned(),
                    quantity: DEFAULT_ORDER_QUANTITY,
                    price,
                },
            ),
            Signal::Sell { symbol, price, confidence: _ } => Some(
                Order {
                    symbol,
                    side: "SELL".to_owned(),
                    quantity: DEFAULT_ORDER_QUANTITY,
                    price,
                },
            ),
            Signal::Hold { symbol: _ } => None,
        };
        match order {
            Some(o) => {
                self.orders.push(o);
                proof {
                    assert(self.orders@.take(old(self).orders@.len() as int)
                        =~= old(self).orders@);
                    assert(order_views(self.orders@) =~= order_views(old(self).orders@).push(
                        order_fields(self.orders@.last()),
                    ));
                }
            },
            None => {},
        }
        proof {
            assert(seq![signal].drop_last() =~= Seq::<Signal<R>>::empty());
            assert(orders_for(Seq::<Signal<R>>::empty()) =~= Seq::empty());
            assert(orders_for(seq![signal]) =~= match order_placed(signal) {
                Some(o) => seq![o],
                None => Seq::empty(),
            });
            assert(order_views(self.orders@) =~= order_views(old(self).orders@) + orders_for(
                seq![signal],
            ));
        }
    }

    /// A copy of the orders placed so far, in order.
    pub fn get_orders(&self) -> (orders: Vec<Order<R>>)
        ensures
            orders@.len() == self.orders@.len(),
            forall|i: int|
                0 <= i < orders@.len() ==> order_fields(#[trigger] orders@[i]) == order_fields(
                    self.orders@[i],
                ),
    {
        let mut orders: Vec<Order<R>> = Vec::new();
        let mut i: usize = 0;
        while i < self.orders.len()
            invariant
                i <= self.orders@.len(),
                orders@.len() == i,
                forall|j: int|
                    0 <= j < i ==> order_fields(#[trigger] orders@[j]) == order_fields(
                        self.orders@[j],
                    ),
            decreases self.orders@.len() - i,
        {
            let o = &self.orders[i];
            orders.push(
                Order {
                    symbol: o.symbol.clone(),
                    side: o.side.clone(),
                    quantity: o.quantity,
                    price: o.price,
                },
            );
            i = i + 1;
        }
        orders
    }

    /// Whether the service reached the broker gateway.
    pub fn is_connected_to_ibkr(&self) -> (b: bool)
        ensures
            b == self.ibkr_connected,
    {
        self.ibkr_connected
    }

    /// Records whether the service reached the broker gateway.
    pub fn set_connected_to_ibkr(&mut self, connected: bool)
        ensures
            final(self).ibkr_connected == connected,
            final(self).orders == old(self).orders,
            final(self).host == old(self).host,
            final(self).port == old(self).port,
            final(self).client_id == old(self).client_id,
    {
        self.ibkr_connected = connected;
    }
}

/// The fields of each order of a list, in order.
pub open spec fn order_views<R>(orders: Seq<Order<R>>) -> Seq<(Seq<char>, Seq<char>, u32, R)> {
    orders.map_values(|o: Order<R>| order_fields(o))
}

/// The orders placed by a sequence of signals, in order.
pub open spec fn orders_for<R>(signals: Seq<Signal<R>>) -> Seq<(Seq<char>, Seq<char>, u32, R)>
    decreases signals.len(),
{
    if signals.len() == 0 {
        Seq::empty()
    } else {
        orders_for(signals.drop_last()) + match order_placed(signals.last()) {
            Some(o) => seq![o],
            None => Seq::empty(),
        }
    }
}

/// Orders are only ever added: handling signals one after another yields exactly one order per
/// buy or sell signal, in the order the signals came, and none for holds.
pub proof fn law_orders_follow_signals<R>(signals: Seq<Signal<R>>)
    ensures
        orders_for(signals).len() <= signals.len(),
        forall|i: int|
            #![trigger orders_for(signals)[i]]
            0 <= i < orders_for(signals).len() ==> exists|j: int|
                0 <= j < signals.len() && order_placed(#[trigger] signals[j]) == Some(
                    orders_for(signals)[i],
                ),
        forall|j: int|
            0 <= j < signals.len() && (#[trigger] signals[j] is Hold) ==> order_placed(signals[j])
                is None,
    decreases signals.len(),
{
    if signals.len() > 0 {
        let rest = signals.drop_last();
        law_orders_follow_signals(rest);
        let os = orders_for(signals);
        assert forall|i: int| #![trigger os[i]] 0 <= i < os.len() implies exists|j: int|
            0 <= j < signals.len() && order_placed(#[trigger] signals[j]) == Some(os[i]) by {
            if i < orders_for(rest).len() {
                let j = choose|j: int|
                    0 <= j < rest.len() && order_placed(#[trigger] rest[j]) == Some(
                        orders_for(rest)[i],
                    );
                assert(signals[j] == rest[j]);
            } else {
                assert(order_placed(signals[signals.len() - 1]) == Some(os[i]));
            }
        }
    }
}

/// Handling signals one batch after another places the orders of the whole sequence: the orders
/// of `a` followed by `b` are the orders of `a` followed by those of `b`.
pub proof fn law_orders_compose<R>(a: Seq<Signal<R>>, b: Seq<Signal<R>>)
    ensures
        orders_for(a + b) == orders_for(a) + orders_for(b),
    decreases b.len(),
{
    if b.len() == 0 {
        assert(a + b =~= a);
        assert(orders_for(a) + orders_for(b) =~= orders_for(a));
    } else {
        law_orders_compose(a, b.drop_last());
        assert((a + b).drop_last() =~= a + b.drop_last());
        assert((a + b).last() == b.last());
        let tail = match order_placed(b.last()) {
            Some(o) => seq![o],
            None => Seq::empty(),
        };
        assert(orders_for(a) + orders_for(b.drop_last()) + tail =~= orders_for(a) + (orders_for(
            b.drop_last(),
        ) + tail));
    }
}

} // verus!
