use trading_system::bands::{classify_price, push_trimmed, recent_window, signal_for, BandSignal, BandWindows};
use trading_system::condor::{
    collect_checked, DomainRules, EntryTimeMinutes, InvalidEntryTime, IronCondorConfig,
    IronCondorConfigError,
};
use trading_system::domain::Signal;
use trading_system::positions::{replay_positions, step_position, BarReading, Position, Side};

fn rules() -> DomainRules<f64> {
    DomainRules {
        entry_time_min: 30,
        entry_time_max: 120,
        wing_width_min: 5.0,
        wing_width_max: 50.0,
        stop_loss_min: 1.0,
        stop_loss_max: 3.0,
    }
}

#[test]
fn entry_time_bounds_are_inclusive() {
    let r = rules();
    assert_eq!(EntryTimeMinutes::new(30, &r).unwrap().value(), 30);
    assert_eq!(EntryTimeMinutes::new(120, &r).unwrap().value(), 120);
    assert_eq!(
        EntryTimeMinutes::new(29, &r),
        Err(InvalidEntryTime { value: 29, min: 30, max: 120 })
    );
    assert_eq!(
        EntryTimeMinutes::new(121, &r),
        Err(InvalidEntryTime { value: 121, min: 30, max: 120 })
    );
}

#[test]
fn collect_checked_stops_at_the_first_error() {
    let all: Vec<Result<u8, &str>> = vec![Ok(1), Ok(2), Ok(3)];
    assert_eq!(collect_checked(all), Ok(vec![1, 2, 3]));
    let some: Vec<Result<u8, &str>> = vec![Ok(1), Err("second"), Err("third")];
    assert_eq!(collect_checked(some), Err("second"));
    let none: Vec<Result<u8, &str>> = vec![];
    assert_eq!(collect_checked(none), Ok(vec![]));
}

#[test]
fn iron_condor_config_refuses_in_order() {
    let r = rules();
    let bad_time = IronCondorConfig::<f64, f64>::from_raw::<f64, String>(
        &vec![60, 10, 200],
        &r,
        vec![Err("wing".to_string())],
        vec![Err("stop".to_string())],
    );
    match bad_time {
        Err(IronCondorConfigError::EntryTime(e)) => {
            assert_eq!(e, InvalidEntryTime { value: 10, min: 30, max: 120 })
        }
        _ => panic!("expected the entry time to be refused"),
    }

    let bad_wing = IronCondorConfig::<f64, f64>::from_raw::<f64, String>(
        &vec![60],
        &r,
        vec![Ok(10.0), Err("wing".to_string())],
        vec![Err("stop".to_string())],
    );
    match bad_wing {
        Err(IronCondorConfigError::WingWidth(e)) => assert_eq!(e, "wing"),
        _ => panic!("expected the wing width to be refused"),
    }

    let bad_stop = IronCondorConfig::<f64, f64>::from_raw::<f64, String>(
        &vec![60],
        &r,
        vec![Ok(10.0)],
        vec![Ok(1.5), Err("stop".to_string())],
    );
    match bad_stop {
        Err(IronCondorConfigError::StopLoss(e)) => assert_eq!(e, "stop"),
        _ => panic!("expected the stop loss to be refused"),
    }
}

#[test]
fn iron_condor_grid_has_every_combination() {
    let r = rules();
    let config = IronCondorConfig::<f64, f64>::from_raw::<f64, String>(
        &vec![30, 60],
        &r,
        vec![10.0, 20.0].into_iter().map(Ok).collect(),
        vec![Ok(2.0)],
    )
    .unwrap();
    assert_eq!(config.entry_times.len(), 2);
    let grid = config.generate_param_grid();
    let flat: Vec<(u16, f64, f64)> = grid.iter().map(|(t, w, s)| (t.value(), *w, *s)).collect();
    assert_eq!(
        flat,
        vec![(30, 10.0, 2.0), (30, 20.0, 2.0), (60, 10.0, 2.0), (60, 20.0, 2.0)]
    );
}

#[test]
fn push_trimmed_drops_the_oldest_period() {
    let mut history = vec![1, 2, 3, 4];
    push_trimmed(&mut history, 5, 2);
    assert_eq!(history, vec![3, 4, 5]);
    let mut short = vec![1, 2, 3];
    push_trimmed(&mut short, 4, 2);
    assert_eq!(short, vec![1, 2, 3, 4]);
    assert_eq!(recent_window(&short, 3), vec![2, 3, 4]);
    assert_eq!(recent_window(&short, 0), Vec::<i32>::new());
}

#[test]
fn band_windows_keep_the_latest_prices_per_symbol() {
    let mut windows: BandWindows<f64> = BandWindows::new(3);
    let aapl = "AAPL".to_string();
    let msft = "MSFT".to_string();
    assert_eq!(windows.record(&aapl, 1.0), None);
    assert_eq!(windows.record(&aapl, 2.0), None);
    assert_eq!(windows.record(&msft, 50.0), None);
    assert_eq!(windows.record(&aapl, 3.0), Some(vec![1.0, 2.0, 3.0]));
    assert_eq!(windows.record(&aapl, 4.0), Some(vec![2.0, 3.0, 4.0]));
    assert_eq!(windows.record(&aapl, 5.0), Some(vec![3.0, 4.0, 5.0]));
    assert_eq!(windows.record(&aapl, 6.0), Some(vec![4.0, 5.0, 6.0]));
    assert_eq!(windows.histories.get(&aapl).unwrap().len(), 6);
    // The seventh price makes the history longer than twice the period: the oldest three go.
    assert_eq!(windows.record(&aapl, 7.0), Some(vec![5.0, 6.0, 7.0]));
    assert_eq!(windows.histories.get(&aapl).unwrap(), &vec![4.0, 5.0, 6.0, 7.0]);
    assert_eq!(windows.histories.get(&msft).unwrap(), &vec![50.0]);
    windows.reset();
    assert!(windows.histories.get(&aapl).is_none());
    assert_eq!(windows.period, 3);
}

#[test]
fn band_rule_signals() {
    assert_eq!(classify_price(false, true, false), BandSignal::Hold);
    assert_eq!(classify_price(true, true, false), BandSignal::Buy);
    assert_eq!(classify_price(true, false, true), BandSignal::Sell);
    assert_eq!(classify_price(true, false, false), BandSignal::Hold);
    // A flat window puts the price on both bands: the buy side wins.
    assert_eq!(classify_price(true, true, true), BandSignal::Buy);
    assert_eq!(
        signal_for(BandSignal::Buy, "AAPL".to_string(), 99.5, 0.8),
        Signal::Buy { symbol: "AAPL".to_string(), price: 99.5, confidence: 0.8 }
    );
    assert_eq!(
        signal_for(BandSignal::Sell, "AAPL".to_string(), 101.5, 0.8),
        Signal::Sell { symbol: "AAPL".to_string(), price: 101.5, confidence: 0.8 }
    );
    assert_eq!(
        signal_for(BandSignal::Hold, "AAPL".to_string(), 100.0, 0.8),
        Signal::Hold { symbol: "AAPL".to_string() }
    );
}

fn bar(price: f64, lower: bool, upper: bool, above_mid: bool, below_mid: bool) -> BarReading<f64> {
    BarReading {
        price,
        at_or_below_lower: lower,
        at_or_above_upper: upper,
        at_or_above_mid: above_mid,
        at_or_below_mid: below_mid,
    }
}

#[test]
fn positions_open_and_close_one_at_a_time() {
    let bars = vec![
        bar(100.0, false, false, true, true),
        bar(95.0, true, false, false, true),
        bar(96.0, true, false, false, true),
        bar(101.0, false, false, true, false),
        bar(106.0, false, true, true, false),
        bar(99.0, false, false, false, true),
        bar(94.0, true, false, false, true),
    ];
    let (position, trades) = replay_positions(&bars);
    assert_eq!(trades.len(), 2);
    assert_eq!(trades[0].side, Side::Long);
    assert_eq!((trades[0].entry_bar, trades[0].exit_bar), (1, 3));
    assert_eq!((trades[0].entry_price, trades[0].exit_price), (95.0, 101.0));
    assert_eq!(trades[1].side, Side::Short);
    assert_eq!((trades[1].entry_bar, trades[1].exit_bar), (4, 5));
    assert_eq!((trades[1].entry_price, trades[1].exit_price), (106.0, 99.0));
    match position {
        Position::Open { side, entry_bar, entry_price } => {
            assert_eq!(side, Side::Long);
            assert_eq!(entry_bar, 6);
            assert_eq!(entry_price, 94.0);
        }
        Position::Flat => panic!("expected an open position"),
    }
}

#[test]
fn closing_bar_opens_nothing() {
    let open = Position::Open { side: Side::Long, entry_bar: 0, entry_price: 95.0 };
    // Back at the middle band and also at the upper band: the long closes, no short opens.
    let (next, closed) = step_position(open, 1, &bar(110.0, false, true, true, false));
    assert!(matches!(next, Position::Flat));
    let t = closed.unwrap();
    assert_eq!((t.entry_bar, t.exit_bar, t.exit_price), (0, 1, 110.0));
    let (next, closed) = step_position(Position::Flat, 2, &bar(100.0, false, false, true, true));
    assert!(matches!(next, Position::Flat));
    assert!(closed.is_none());
}

#[test]
fn no_bars_no_trades() {
    let (position, trades) = replay_positions::<f64>(&vec![]);
    assert!(matches!(position, Position::Flat));
    assert!(trades.is_empty());
}
