use std::time::Duration;

use trading_system::market_data::{
    check_data_types, simulated_quote_sizes, size_from_draw, volume_from_draw, ConnectionStatus, DataType, EventType, MarketDataEvent, MarketDataService,
    Quote, SimulatorSubscriptions, SourceType, Subscription, UnsubscribeError,
    UnsupportedDataType, UpdateFrequency,
};

type TestQuote = Quote<f64>;
type TestEvent = MarketDataEvent<TestQuote>;

fn subscription(symbols: &[&str], data_types: Vec<DataType>) -> Subscription {
    Subscription {
        symbols: symbols.iter().map(|s| s.to_string()).collect(),
        data_types,
        update_frequency: UpdateFrequency::RealTime,
    }
}

fn test_quote() -> TestQuote {
    Quote {
        symbol: "TEST".to_string(),
        last_price: 100.0,
        bid: 99.0,
        ask: 100.0,
        bid_size: 200,
        ask_size: 200,
        volume: 1000,
        timestamp: 1234567890,
        exchange: Some("TEST_EXCHANGE".to_string()),
    }
}

#[test]
fn simulator_accepts_only_real_time_quotes() {
    assert!(check_data_types(&vec![DataType::RealTimeQuotes]).is_ok());
    assert!(check_data_types(&vec![]).is_ok());
    let level2 = check_data_types(&vec![DataType::RealTimeQuotes, DataType::Level2]);
    assert_eq!(level2, Err(UnsupportedDataType::Level2));
    assert!(level2.unwrap_err().message().contains("Level2 data not supported"));
    let first = check_data_types(&vec![
        DataType::Trades,
        DataType::HistoricalBars { start: 1, end: 2 },
    ]);
    assert_eq!(first, Err(UnsupportedDataType::Trades));
    assert_eq!(
        UnsupportedDataType::HistoricalBars.message(),
        "Historical data not supported by SimulatorProvider"
    );
    assert_eq!(
        UnsupportedDataType::Trades.message(),
        "Trade data not supported by SimulatorProvider"
    );
}

#[test]
fn duplicate_subscription_is_equal() {
    let s = Subscription {
        symbols: vec!["AAPL".to_string(), "MSFT".to_string()],
        data_types: vec![DataType::RealTimeQuotes, DataType::Level2],
        update_frequency: UpdateFrequency::Every(Duration::from_millis(250)),
    };
    let d = s.duplicate();
    assert_eq!(d.symbols, s.symbols);
    assert_eq!(d.data_types, s.data_types);
    assert_eq!(d.update_frequency, s.update_frequency);
}

#[test]
fn simulator_stores_subscription_per_symbol() {
    let mut subs = SimulatorSubscriptions::new();
    subs.store(&subscription(&["AAPL", "MSFT"], vec![DataType::RealTimeQuotes]));
    assert!(subs.by_symbol.contains_key(&"AAPL".to_string()));
    assert!(subs.by_symbol.contains_key(&"MSFT".to_string()));
    assert_eq!(subs.by_symbol.len(), 2);
    subs.store(&subscription(&["AAPL"], vec![DataType::Level2]));
    assert_eq!(
        subs.by_symbol.get(&"AAPL".to_string()).unwrap().data_types,
        vec![DataType::Level2]
    );
    assert_eq!(
        subs.by_symbol.get(&"MSFT".to_string()).unwrap().data_types,
        vec![DataType::RealTimeQuotes]
    );
    subs.remove_symbols(&vec!["AAPL".to_string(), "GOOG".to_string()]);
    assert!(!subs.by_symbol.contains_key(&"AAPL".to_string()));
    assert!(subs.by_symbol.contains_key(&"MSFT".to_string()));
    subs.clear();
    assert_eq!(subs.by_symbol.len(), 0);
}

#[test]
fn connection_status_connected_only() {
    assert!(ConnectionStatus::Connected.is_connected());
    assert!(!ConnectionStatus::Disconnected.is_connected());
    assert!(!ConnectionStatus::Connecting.is_connected());
    assert!(!ConnectionStatus::Reconnecting.is_connected());
    assert!(!ConnectionStatus::Error("down".to_string()).is_connected());
}

#[test]
fn provider_events() {
    let provider = "Simulator".to_string();
    let e = TestEvent::provider_connected(&provider, 42);
    assert_eq!(e.source, "Simulator");
    assert_eq!(e.source_type, SourceType::DataProvider);
    assert_eq!(e.timestamp, 42);
    assert!(matches!(e.event_type, EventType::ProviderConnected { ref provider } if provider == "Simulator"));
    let e = TestEvent::provider_disconnected(&provider, 43);
    assert!(matches!(e.event_type, EventType::ProviderDisconnected { .. }));
    let e = TestEvent::subscription_created(&provider, "sub_1".to_string(), vec!["AAPL".to_string()], 44);
    match e.event_type {
        EventType::SubscriptionCreated { subscription_id, symbols, success_count, total_providers } => {
            assert_eq!(subscription_id, "sub_1");
            assert_eq!(symbols, vec!["AAPL".to_string()]);
            assert_eq!((success_count, total_providers), (1, 1));
        }
        _ => panic!("expected a creation event"),
    }
    let e = TestEvent::subscription_removed(&provider, "sub_1".to_string(), vec!["AAPL".to_string()], 45);
    match e.event_type {
        EventType::SubscriptionRemoved { subscription_id, providers_affected, .. } => {
            assert_eq!(subscription_id, "sub_1");
            assert_eq!(providers_affected, 1);
        }
        _ => panic!("expected a removal event"),
    }
}

#[test]
fn unsubscribe_hands_back_what_was_filed() {
    let mut service: MarketDataService<TestQuote, TestEvent> = MarketDataService::new();
    let sub = subscription(&["AAPL"], vec![DataType::RealTimeQuotes]);
    service.record_subscription("sub_1".to_string(), "Simulator".to_string(), sub.duplicate());
    let taken = service
        .take_subscription(&"sub_1".to_string(), &"Simulator".to_string())
        .unwrap();
    assert_eq!(taken.symbols, sub.symbols);
    // A second unsubscribe finds nothing.
    match service.take_subscription(&"sub_1".to_string(), &"Simulator".to_string()) {
        Err(UnsubscribeError::NotFound { subscription_id }) => assert_eq!(subscription_id, "sub_1"),
        _ => panic!("expected NotFound"),
    }
}

#[test]
fn unsubscribe_for_another_provider_is_refused() {
    let mut service: MarketDataService<TestQuote, TestEvent> = MarketDataService::new();
    service.record_subscription(
        "sub_2".to_string(),
        "Simulator".to_string(),
        subscription(&["MSFT"], vec![DataType::RealTimeQuotes]),
    );
    match service.take_subscription(&"sub_2".to_string(), &"Broker".to_string()) {
        Err(UnsubscribeError::ProviderMismatch { stored_provider, requested_provider }) => {
            assert_eq!(stored_provider, "Simulator");
            assert_eq!(requested_provider, "Broker");
        }
        _ => panic!("expected ProviderMismatch"),
    }
    assert_eq!(service.subscriptions.len(), 0);
}

#[test]
fn market_data_service_channels() {
    let service: MarketDataService<TestQuote, TestEvent> = MarketDataService::new();
    let sender = service.get_quote_sender();
    let receiver = service.get_quote_stream();
    sender.send(test_quote()).unwrap();
    let received = receiver.try_recv().unwrap();
    assert_eq!(received.symbol, "TEST");
    assert_eq!(received.bid, 99.0);

    let events = service.get_event_stream();
    service
        .get_event_sender()
        .send(TestEvent::provider_connected(&"Simulator".to_string(), 1))
        .unwrap();
    assert_eq!(events.try_recv().unwrap().timestamp, 1);
}

#[test]
fn simulated_sizes_stay_in_range() {
    assert_eq!(size_from_draw(0), 100);
    assert_eq!(size_from_draw(999), 1099);
    assert_eq!(size_from_draw(1000), 100);
    assert_eq!(size_from_draw(u32::MAX), 395);
    assert_eq!(volume_from_draw(0), 1000);
    assert_eq!(volume_from_draw(12345), 3345);
    for _ in 0..100 {
        let (bid, ask, volume) = simulated_quote_sizes();
        assert!((100..1100).contains(&bid));
        assert!((100..1100).contains(&ask));
        assert!((1000..11000).contains(&volume));
    }
}
