use trading_system::domain::{Quote, Signal};
use trading_system::ib_client::{decimal_text, gateway_address, IBClient, IBConfig};
use trading_system::live::{
    feed_step, new, new_bollinger_bands_strategy, new_strategy_engine, new_trading_service,
    FeedAction, FeedEvent, FeedState, SubscriberNotFound, DEFAULT_ORDER_QUANTITY, RETRY_SECONDS,
};

type TestQuote = Quote<f64, u64>;

fn test_quote(symbol: &str, bid: f64, ask: f64) -> TestQuote {
    Quote {
        symbol: symbol.to_string(),
        bid,
        ask,
        bid_size: 100,
        ask_size: 200,
        bid_date: 1234567890,
        ask_date: 1234567890,
    }
}

#[test]
fn test_can_create_ibkr_service() {
    let service = new::<TestQuote>("127.0.0.1".to_string(), 4002, 100); // Use 127.0.0.1 and client ID 100
    let _ = service;
}

#[test]
fn test_service_starts_disconnected() {
    let service = new::<TestQuote>("127.0.0.1".to_string(), 4002, 102);
    assert!(!service.is_connected());
}

#[test]
fn test_can_subscribe_to_market_data() {
    let mut service = new::<TestQuote>("127.0.0.1".to_string(), 4002, 104);
    let symbols = vec!["AAPL".to_string()];

    let receiver = service.subscribe_market_data(symbols);
    // Just verify we got a receiver back
    let _ = receiver;
}

#[test]
fn test_can_unsubscribe_to_market_data() {
    let mut service = new::<TestQuote>("127.0.0.1".to_string(), 4002, 105);
    let symbols = vec!["AAPL".to_string()];

    let receiver = service.subscribe_market_data(symbols);

    let result = service.unsubscribe_market_data(&receiver);
    assert!(result.is_ok());

    let result2 = service.unsubscribe_market_data(&receiver);
    assert!(result2.is_err())
}

#[test]
fn test_can_create_strategy_engine() {
    let strategy = new_bollinger_bands_strategy(20, 2.0);
    let engine = new_strategy_engine(strategy);
    let _ = engine;
}

#[test]
fn test_strategy_engine_has_subscribe_method() {
    let strategy = new_bollinger_bands_strategy(20, 2.0);
    let mut engine = new_strategy_engine(strategy);

    let _receiver = engine.subscribe_signals();
}

#[test]
fn test_ib_client_can_be_created_with_default_config() {
    // Arrange
    let config = IBConfig::default();

    // Act
    let client = IBClient::new(config);

    // Assert
    assert_eq!(client.config.host, "127.0.0.1");
    assert_eq!(client.config.port, 4002);
    assert_eq!(client.config.client_id, 100);
}

#[test]
fn test_ib_client_can_be_created_with_custom_config() {
    // Arrange
    let config = IBConfig {
        host: "192.168.1.100".to_string(),
        port: 7497,
        client_id: 200,
    };

    // Act
    let client = IBClient::new(config.clone()); // Clone to use in asserts

    // Assert
    assert_eq!(client.config.host, config.host);
    assert_eq!(client.config.port, config.port);
    assert_eq!(client.config.client_id, config.client_id);
}

#[test]
fn connection_url_joins_host_and_port() {
    let client = IBClient::new(IBConfig::default());
    assert_eq!(client.connection_url(), "127.0.0.1:4002");
    let custom = IBClient::new(IBConfig {
        host: "192.168.1.100".to_string(),
        port: 7497,
        client_id: 200,
    });
    assert_eq!(custom.connection_url(), "192.168.1.100:7497");
}

#[test]
fn decimal_text_edges() {
    assert_eq!(decimal_text(0), "0");
    assert_eq!(decimal_text(9), "9");
    assert_eq!(decimal_text(10), "10");
    assert_eq!(decimal_text(4002), "4002");
    assert_eq!(decimal_text(65535), "65535");
    assert_eq!(gateway_address("localhost", 7), "localhost:7");
}

#[test]
fn subscribers_are_numbered_in_order() {
    let mut service = new::<TestQuote>("127.0.0.1".to_string(), 4002, 110);
    assert_eq!(service.subscriber_counter, 1);
    assert_eq!(service.request_counter, 1);
    let _a = service.subscribe_market_data(vec!["AAPL".to_string()]);
    let _b = service.subscribe_market_data(vec!["MSFT".to_string()]);
    assert_eq!(service.subscribers.len(), 2);
    assert_eq!(service.subscribers[0].0, 1);
    assert_eq!(service.subscribers[1].0, 2);
    assert_eq!(service.subscriber_counter, 3);
}

#[test]
fn subscriber_counter_wraps_around() {
    let mut service = new::<TestQuote>("127.0.0.1".to_string(), 4002, 111);
    service.subscriber_counter = u32::MAX;
    let _a = service.subscribe_market_data(vec!["AAPL".to_string()]);
    assert_eq!(service.subscribers[0].0, u32::MAX);
    assert_eq!(service.subscriber_counter, 0);
}

#[test]
fn unsubscribe_removes_the_given_subscriber() {
    let mut service = new::<TestQuote>("127.0.0.1".to_string(), 4002, 112);
    let first = service.subscribe_market_data(vec!["AAPL".to_string()]);
    let second = service.subscribe_market_data(vec!["MSFT".to_string()]);
    assert!(service.unsubscribe_market_data(&second).is_ok());
    assert_eq!(service.subscribers.len(), 1);
    assert_eq!(service.subscribers[0].0, 1);
    assert_eq!(service.subscriber_counter, 3);
    // The first subscriber still gets quotes.
    service.subscribers[0].1.send(test_quote("AAPL", 1.0, 2.0)).unwrap();
    assert_eq!(first.try_recv().unwrap().symbol, "AAPL");
    // The second is gone: unsubscribing it again finds nothing.
    assert_eq!(service.unsubscribe_market_data(&second), Err(SubscriberNotFound));
    assert_eq!(service.subscribers.len(), 1);
    assert!(service.unsubscribe_market_data(&first).is_ok());
    assert!(service.subscribers.is_empty());
}

#[test]
fn remove_subscriber_takes_the_first_match() {
    let mut service = new::<TestQuote>("127.0.0.1".to_string(), 4002, 115);
    let _a = service.subscribe_market_data(vec![]);
    let _b = service.subscribe_market_data(vec![]);
    let _c = service.subscribe_market_data(vec![]);
    assert_eq!(service.remove_subscriber(&vec![false, false, false]), Err(SubscriberNotFound));
    assert_eq!(service.subscribers.len(), 3);
    assert!(service.remove_subscriber(&vec![false, true, true]).is_ok());
    let ids: Vec<u32> = service.subscribers.iter().map(|s| s.0).collect();
    assert_eq!(ids, vec![1, 3]);
}

#[test]
fn feed_retries_until_connected_then_streams() {
    let mut feed = new::<TestQuote>("127.0.0.1".to_string(), 4002, 120);
    let s = feed_step(&mut feed, FeedState::Connecting, FeedEvent::ConnectFailed, false);
    assert_eq!(s, (FeedState::Connecting, FeedAction::RetryAfterSeconds(5)));
    assert_eq!(RETRY_SECONDS, 5);
    assert!(!feed.is_connected());
    let s = feed_step(&mut feed, s.0, FeedEvent::Connected, false);
    assert_eq!(s, (FeedState::AwaitingHistory, FeedAction::RequestHistory));
    assert!(feed.is_connected());
    let s = feed_step(&mut feed, s.0, FeedEvent::HistoryReady, false);
    assert_eq!(s, (FeedState::Streaming, FeedAction::SendNextBar));
    let s = feed_step(&mut feed, s.0, FeedEvent::BarSent, false);
    assert_eq!(s, (FeedState::Streaming, FeedAction::SendNextBar));
    assert!(feed.is_connected());
    let s = feed_step(&mut feed, s.0, FeedEvent::HistoryEnded, false);
    assert_eq!(s, (FeedState::Stopped, FeedAction::Stop));
    assert!(!feed.is_connected());
    let s = feed_step(&mut feed, s.0, FeedEvent::Connected, false);
    assert_eq!(s, (FeedState::Stopped, FeedAction::Stop));
    assert!(!feed.is_connected());
}

#[test]
fn feed_stops_on_shutdown_or_failure() {
    let mut feed = new::<TestQuote>("127.0.0.1".to_string(), 4002, 121);
    assert_eq!(
        feed_step(&mut feed, FeedState::Connecting, FeedEvent::ConnectFailed, true),
        (FeedState::Stopped, FeedAction::Stop)
    );
    feed.set_connected(true);
    assert_eq!(
        feed_step(&mut feed, FeedState::Streaming, FeedEvent::BarSent, true),
        (FeedState::Stopped, FeedAction::Stop)
    );
    assert!(!feed.is_connected());
    feed.set_connected(true);
    assert_eq!(
        feed_step(&mut feed, FeedState::AwaitingHistory, FeedEvent::HistoryFailed, false),
        (FeedState::Stopped, FeedAction::Stop)
    );
    assert!(!feed.is_connected());
    assert_eq!(
        feed_step(&mut feed, FeedState::AwaitingHistory, FeedEvent::HistoryReady, true),
        (FeedState::Stopped, FeedAction::Stop)
    );
}

#[test]
fn subscriber_channel_delivers_quotes() {
    let mut service = new::<TestQuote>("127.0.0.1".to_string(), 4002, 113);
    let receiver = service.subscribe_market_data(vec!["TEST".to_string()]);
    service.subscribers[0]
        .1
        .send(test_quote("TEST", 99.0, 100.0))
        .unwrap();
    let quote = receiver.try_recv().unwrap();
    assert_eq!(quote.symbol, "TEST");
    assert_eq!(quote.bid, 99.0);
    assert_eq!(quote.ask, 100.0);
}

#[test]
fn connection_flag_is_recorded() {
    let mut service = new::<TestQuote>("127.0.0.1".to_string(), 4002, 114);
    service.set_connected(true);
    assert!(service.is_connected());
    service.set_connected(false);
    assert!(!service.is_connected());
}

#[test]
fn signal_subscribers_receive_signals() {
    let mut engine = new_strategy_engine(new_bollinger_bands_strategy(20, 2.0));
    let receiver = engine.subscribe_signals();
    let _other = engine.subscribe_signals();
    assert_eq!(engine.signal_subscribers.len(), 2);
    engine.signal_subscribers[0]
        .send(Signal::Hold { symbol: "AAPL".to_string() })
        .unwrap();
    assert_eq!(
        receiver.try_recv().unwrap(),
        Signal::Hold { symbol: "AAPL".to_string() }
    );
}

#[test]
fn new_strategy_keeps_its_parameters() {
    let strategy = new_bollinger_bands_strategy(20, 2.0);
    assert_eq!(strategy.windows.period, 20);
    assert_eq!(strategy.std_dev_factor, 2.0);
    assert_eq!(strategy.windows.histories.len(), 0);
}

#[test]
fn live_strategy_window_fills_after_period() {
    let mut strategy = new_bollinger_bands_strategy(2, 2.0);
    let aapl = "AAPL".to_string();
    assert!(strategy.record_price(&aapl, 100.5).is_none());
    assert_eq!(strategy.record_price(&aapl, 101.5), Some(vec![100.5, 101.5]));
    assert_eq!(strategy.record_price(&aapl, 102.5), Some(vec![101.5, 102.5]));
}

#[test]
fn trading_service_turns_signals_into_orders() {
    let mut service = new_trading_service::<f64>("127.0.0.1".to_string(), 4002, 500);
    assert!(!service.is_connected_to_ibkr());
    assert!(service.get_orders().is_empty());

    service.handle_signal(Signal::Buy {
        symbol: "AAPL".to_string(),
        price: 150.0,
        confidence: 0.8,
    });
    service.handle_signal(Signal::Hold { symbol: "AAPL".to_string() });
    service.handle_signal(Signal::Sell {
        symbol: "MSFT".to_string(),
        price: 300.5,
        confidence: 0.8,
    });

    let orders = service.get_orders();
    assert_eq!(orders.len(), 2);
    assert_eq!(orders[0].symbol, "AAPL");
    assert_eq!(orders[0].side, "BUY");
    assert_eq!(orders[0].quantity, 100);
    assert_eq!(orders[0].price, 150.0);
    assert_eq!(orders[1].symbol, "MSFT");
    assert_eq!(orders[1].side, "SELL");
    assert_eq!(orders[1].quantity, DEFAULT_ORDER_QUANTITY);
    assert_eq!(orders[1].price, 300.5);
}

#[test]
fn hold_signals_place_no_order() {
    let mut service = new_trading_service::<f64>("127.0.0.1".to_string(), 4002, 501);
    service.handle_signal(Signal::Hold { symbol: "AAPL".to_string() });
    service.handle_signal(Signal::Hold { symbol: "MSFT".to_string() });
    assert!(service.get_orders().is_empty());
}

#[test]
fn trading_service_connection_flag() {
    let mut service = new_trading_service::<f64>("127.0.0.1".to_string(), 4002, 502);
    service.set_connected_to_ibkr(true);
    assert!(service.is_connected_to_ibkr());
    assert_eq!(service.host, "127.0.0.1");
    assert_eq!(service.port, 4002);
    assert_eq!(service.client_id, 502);
}

#[test]
fn unsubscribing_a_clone_of_the_receiver_works() {
    let mut service = new::<TestQuote>("127.0.0.1".to_string(), 4002, 116);
    let receiver = service.subscribe_market_data(vec!["AAPL".to_string()]);
    let other = service.subscribe_market_data(vec!["MSFT".to_string()]);
    let copy = receiver.clone();
    assert!(service.unsubscribe_market_data(&copy).is_ok());
    assert_eq!(service.subscribers.len(), 1);
    assert_eq!(service.subscribers[0].0, 2);
    assert!(service.unsubscribe_market_data(&receiver).is_err());
    assert!(service.unsubscribe_market_data(&other).is_ok());
}
