use trading_system::domain::Signal;
use trading_system::registry::Registry;
use trading_system::strategies::{BollingerBandsStrategy, StrategyEngine};

type Engine = StrategyEngine<BollingerBandsStrategy<f64>, Signal<f64>>;

fn strategy(id: &str, symbols: &[&str]) -> BollingerBandsStrategy<f64> {
    BollingerBandsStrategy::new(
        id.to_string(),
        symbols.iter().map(|s| s.to_string()).collect(),
        20,
        2.0,
    )
}

fn sorted(mut v: Vec<String>) -> Vec<String> {
    v.sort();
    v
}

#[test]
fn registry_behaves_as_a_map() {
    let mut r: Registry<i32> = Registry::new();
    assert_eq!(r.len(), 0);
    assert_eq!(r.insert("a".to_string(), 1), None);
    assert_eq!(r.insert("b".to_string(), 2), None);
    assert_eq!(r.insert("a".to_string(), 3), Some(1));
    assert_eq!(r.len(), 2);
    assert_eq!(r.get(&"a".to_string()), Some(&3));
    assert!(r.contains_key(&"b".to_string()));
    assert_eq!(sorted(r.keys()), vec!["a".to_string(), "b".to_string()]);
    assert_eq!(r.remove(&"a".to_string()), Some(3));
    assert_eq!(r.remove(&"a".to_string()), None);
    assert_eq!(r.get(&"a".to_string()), None);
    r.clear();
    assert_eq!(r.len(), 0);
}

#[test]
fn strategy_accessors() {
    let s = strategy("bb_aapl", &["AAPL", "MSFT"]);
    assert_eq!(s.get_id(), "bb_aapl");
    assert_eq!(s.get_required_symbols(), &["AAPL".to_string(), "MSFT".to_string()][..]);
}

#[test]
fn strategy_records_and_resets() {
    let mut s = BollingerBandsStrategy::new("bb".to_string(), vec!["AAPL".to_string()], 2, 2.0);
    let aapl = "AAPL".to_string();
    assert_eq!(s.record_price(&aapl, 100.0), None);
    assert_eq!(s.record_price(&aapl, 101.0), Some(vec![100.0, 101.0]));
    s.reset();
    assert_eq!(s.record_price(&aapl, 102.0), None);
    assert_eq!(s.get_id(), "bb");
}

#[test]
fn engine_tracks_strategies_and_symbols() {
    let mut engine: Engine = StrategyEngine::new();
    assert!(engine.get_active_strategies().is_empty());
    engine.add_strategy(
        "bb1".to_string(),
        vec!["AAPL".to_string(), "MSFT".to_string()],
        strategy("bb1", &["AAPL", "MSFT"]),
    );
    engine.add_strategy(
        "bb2".to_string(),
        vec!["MSFT".to_string(), "GOOG".to_string()],
        strategy("bb2", &["MSFT", "GOOG"]),
    );
    assert_eq!(
        sorted(engine.get_active_strategies()),
        vec!["bb1".to_string(), "bb2".to_string()]
    );
    assert_eq!(
        sorted(engine.strategies_for_symbol(&"MSFT".to_string())),
        vec!["bb1".to_string(), "bb2".to_string()]
    );
    assert_eq!(
        engine.strategies_for_symbol(&"AAPL".to_string()),
        vec!["bb1".to_string()]
    );
    assert!(engine.strategies_for_symbol(&"TSLA".to_string()).is_empty());
    // Every required symbol once.
    assert_eq!(
        sorted(engine.get_required_symbols()),
        vec!["AAPL".to_string(), "GOOG".to_string(), "MSFT".to_string()]
    );

    let removed = engine.remove_strategy(&"bb1".to_string()).unwrap();
    assert_eq!(removed.0, vec!["AAPL".to_string(), "MSFT".to_string()]);
    assert_eq!(removed.1.get_id(), "bb1");
    assert!(engine.remove_strategy(&"bb1".to_string()).is_none());
    assert_eq!(engine.get_active_strategies(), vec!["bb2".to_string()]);
    assert!(engine.strategies_for_symbol(&"AAPL".to_string()).is_empty());
}

#[test]
fn adding_under_the_same_id_replaces() {
    let mut engine: Engine = StrategyEngine::new();
    engine.add_strategy("bb".to_string(), vec!["AAPL".to_string()], strategy("bb", &["AAPL"]));
    engine.add_strategy("bb".to_string(), vec!["TSLA".to_string()], strategy("bb", &["TSLA"]));
    assert_eq!(engine.get_active_strategies(), vec!["bb".to_string()]);
    assert_eq!(engine.get_required_symbols(), vec!["TSLA".to_string()]);
}

#[test]
fn engine_signal_channel_is_shared() {
    let engine: Engine = StrategyEngine::new();
    let receiver = engine.get_signal_receiver();
    engine
        .get_signal_sender()
        .send(Signal::Sell { symbol: "AAPL".to_string(), price: 101.0, confidence: 0.8 })
        .unwrap();
    assert_eq!(
        receiver.try_recv().unwrap(),
        Signal::Sell { symbol: "AAPL".to_string(), price: 101.0, confidence: 0.8 }
    );
}

#[test]
fn routed_strategies_are_active() {
    let mut engine: Engine = StrategyEngine::new();
    engine.add_strategy("bb1".to_string(), vec!["AAPL".to_string()], strategy("bb1", &["AAPL"]));
    engine.add_strategy("bb2".to_string(), vec!["MSFT".to_string()], strategy("bb2", &["MSFT"]));
    let active = engine.get_active_strategies();
    let required = engine.get_required_symbols();
    for symbol in ["AAPL", "MSFT", "TSLA"] {
        let routed = engine.strategies_for_symbol(&symbol.to_string());
        for id in &routed {
            assert!(active.contains(id));
        }
        assert_eq!(!routed.is_empty(), required.contains(&symbol.to_string()));
    }
}
