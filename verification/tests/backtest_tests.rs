use trading_system::backtest::{
    validate_bollinger_grid, validate_range, BacktestEngine, BacktestRoute, ComputeMode, GridError, Period,
    RangeViolation, StrategyConfigBuilder, ValidatedConfig,
};
use trading_system::grid::{cartesian_product, cartesian_product3};
use trading_system::kernel::{
    PricingModel, StrategyType, BLACK_SCHOLES_KERNEL_INDEX, IRON_BUTTERFLY_KERNEL_INDEX,
    IRON_CONDOR_KERNEL_INDEX,
};
use trading_system::rules::DomainRules;

#[test]
fn test_strategy_period_validation() {
    let mut domain_rules: DomainRules<f64> = DomainRules::default();

    // Set some technical indicator constraints
    domain_rules.technical_indicators.period_min = Some(5);
    domain_rules.technical_indicators.period_max = Some(100);

    // Valid period should work
    let valid_period = Period::new(20, &domain_rules);
    assert!(valid_period.is_ok());
    assert_eq!(valid_period.unwrap().value(), 20);

    // Invalid periods should fail
    let too_small = Period::new(3, &domain_rules);
    assert!(too_small.is_err());

    let too_large = Period::new(150, &domain_rules);
    assert!(too_large.is_err());

    // Should work when no constraints are set
    let unconstrained_rules: DomainRules<f64> = DomainRules::default();
    let any_period = Period::new(999, &unconstrained_rules);
    assert!(any_period.is_ok());
}

#[test]
fn period_errors_name_the_parameter_and_bound() {
    let mut rules: DomainRules<f64> = DomainRules::default();
    rules.technical_indicators.period_min = Some(5);
    rules.technical_indicators.period_max = Some(100);
    let low = Period::new(3, &rules).unwrap_err();
    assert_eq!(low.parameter, "Period");
    assert_eq!(low.value, 3);
    assert_eq!(low.violation, RangeViolation::BelowMinimum { min: 5 });
    let high = Period::new(150, &rules).unwrap_err();
    assert_eq!(high.violation, RangeViolation::AboveMaximum { max: 100 });
    // Both ends are allowed.
    assert_eq!(Period::new(5, &rules).unwrap().value(), 5);
    assert_eq!(Period::new(100, &rules).unwrap().value(), 100);
}

#[test]
fn validate_range_checks_each_bound() {
    assert!(validate_range(10, None, None, "x").is_ok());
    assert!(validate_range(10, Some(10), Some(10), "x").is_ok());
    let e = validate_range(9, Some(10), None, "threshold").unwrap_err();
    assert_eq!(e.parameter, "threshold");
    assert_eq!(e.value, 9);
    assert_eq!(e.violation, RangeViolation::BelowMinimum { min: 10 });
    let e = validate_range(11, None, Some(10), "threshold").unwrap_err();
    assert_eq!(e.violation, RangeViolation::AboveMaximum { max: 10 });
    // The minimum is checked first, even when the bounds contradict each other.
    let e = validate_range(7, Some(8), Some(6), "p").unwrap_err();
    assert_eq!(e.violation, RangeViolation::BelowMinimum { min: 8 });
}

#[test]
fn kernel_flags() {
    assert_eq!(PricingModel::BlackScholes.to_kernel_flag(), BLACK_SCHOLES_KERNEL_INDEX);
    assert_eq!(StrategyType::IronCondor.to_kernel_flag(), IRON_CONDOR_KERNEL_INDEX);
    assert_eq!(StrategyType::IronButterfly.to_kernel_flag(), IRON_BUTTERFLY_KERNEL_INDEX);
    assert_ne!(
        StrategyType::IronCondor.to_kernel_flag(),
        StrategyType::IronButterfly.to_kernel_flag()
    );
}

#[test]
fn backtest_engine_keeps_its_mode() {
    let cpu = BacktestEngine::new(ComputeMode::CPU { threads: 4 });
    assert_eq!(cpu.compute_mode(), ComputeMode::CPU { threads: 4 });
    let gpu = BacktestEngine::new(ComputeMode::GPU { cuda_device: 0 });
    assert_eq!(gpu.compute_mode(), ComputeMode::GPU { cuda_device: 0 });
}

#[test]
fn validated_config_hands_back_its_grid() {
    let config = ValidatedConfig::from_validated(vec![(10u16, 1), (20u16, 2)]);
    assert_eq!(config.generate_param_grid(), vec![(10u16, 1), (20u16, 2)]);
}

#[test]
fn bollinger_grid_pairs_every_period_with_every_factor() {
    let rules: DomainRules<f64> = DomainRules::default();
    let builder = StrategyConfigBuilder::new()
        .periods(vec![10, 20])
        .std_dev_factors(vec![1.5, 2.0]);
    let checks: Vec<Result<f64, String>> = vec![Ok(1.5), Ok(2.0)];
    let grid = validate_bollinger_grid(&builder, &rules, checks).unwrap();
    // 2 x 2 parameter combinations, periods varying slowest.
    assert_eq!(grid.len(), 4);
    let pairs: Vec<(u16, f64)> = grid.iter().map(|(p, f)| (p.value(), *f)).collect();
    assert_eq!(pairs, vec![(10, 1.5), (10, 2.0), (20, 1.5), (20, 2.0)]);
}

#[test]
fn bollinger_grid_needs_both_lists() {
    let rules: DomainRules<f64> = DomainRules::default();
    let none: StrategyConfigBuilder<f64> = StrategyConfigBuilder::new();
    let r = validate_bollinger_grid::<f64, f64, String>(&none, &rules, vec![]);
    assert!(matches!(r, Err(GridError::PeriodsNotSet)));
    let only_periods: StrategyConfigBuilder<f64> = StrategyConfigBuilder::new().periods(vec![10]);
    let r = validate_bollinger_grid::<f64, f64, String>(&only_periods, &rules, vec![]);
    assert!(matches!(r, Err(GridError::StdDevFactorsNotSet)));
    let only_factors = StrategyConfigBuilder::new().std_dev_factors(vec![2.0]);
    let r = validate_bollinger_grid::<f64, f64, String>(&only_factors, &rules, vec![Ok(2.0)]);
    assert!(matches!(r, Err(GridError::PeriodsNotSet)));
}

#[test]
fn bollinger_grid_reports_the_first_failure_in_grid_order() {
    let mut rules: DomainRules<f64> = DomainRules::default();
    rules.technical_indicators.period_min = Some(5);
    rules.technical_indicators.period_max = Some(100);

    // The first period is checked before any factor.
    let builder = StrategyConfigBuilder::new()
        .periods(vec![3, 20])
        .std_dev_factors(vec![1.5, 9.0]);
    let checks: Vec<Result<f64, String>> = vec![Ok(1.5), Err("too large".to_string())];
    match validate_bollinger_grid(&builder, &rules, checks) {
        Err(GridError::InvalidPeriod(e)) => {
            assert_eq!(e.value, 3);
            assert_eq!(e.violation, RangeViolation::BelowMinimum { min: 5 });
        }
        _ => panic!("expected the first period to be refused"),
    }

    // A bad factor is found while pairing it with the first period.
    let builder = StrategyConfigBuilder::new()
        .periods(vec![20, 150])
        .std_dev_factors(vec![1.5, 9.0]);
    let checks: Vec<Result<f64, String>> = vec![Ok(1.5), Err("too large".to_string())];
    match validate_bollinger_grid(&builder, &rules, checks) {
        Err(GridError::InvalidStdDevFactor(e)) => assert_eq!(e, "too large"),
        _ => panic!("expected the factor to be refused"),
    }

    // With good factors, a later bad period is reported.
    let builder = StrategyConfigBuilder::new()
        .periods(vec![20, 150])
        .std_dev_factors(vec![1.5, 2.0]);
    let checks: Vec<Result<f64, String>> = vec![Ok(1.5), Ok(2.0)];
    match validate_bollinger_grid(&builder, &rules, checks) {
        Err(GridError::InvalidPeriod(e)) => {
            assert_eq!(e.value, 150);
            assert_eq!(e.violation, RangeViolation::AboveMaximum { max: 100 });
        }
        _ => panic!("expected the second period to be refused"),
    }
}

#[test]
fn bollinger_grid_with_no_factors_is_empty() {
    let rules: DomainRules<f64> = DomainRules::default();
    let builder = StrategyConfigBuilder::new().periods(vec![10, 20]).std_dev_factors(vec![]);
    let grid = validate_bollinger_grid::<f64, f64, String>(&builder, &rules, vec![]).unwrap();
    assert!(grid.is_empty());
}

#[test]
fn builder_keeps_the_other_list() {
    let b = StrategyConfigBuilder::new().periods(vec![10]).std_dev_factors(vec![2.0]);
    assert_eq!(b.periods, Some(vec![10]));
    assert_eq!(b.std_dev_factors, Some(vec![2.0]));
    let b = b.periods(vec![30, 40]);
    assert_eq!(b.periods, Some(vec![30, 40]));
    assert_eq!(b.std_dev_factors, Some(vec![2.0]));
}

#[test]
fn cartesian_products_in_order() {
    let xs = vec![1, 2];
    let ys = vec!['a', 'b', 'c'];
    assert_eq!(
        cartesian_product(&xs, &ys),
        vec![(1, 'a'), (1, 'b'), (1, 'c'), (2, 'a'), (2, 'b'), (2, 'c')]
    );
    let zs = vec![true];
    assert_eq!(
        cartesian_product3(&xs, &ys, &zs),
        vec![
            (1, 'a', true),
            (1, 'b', true),
            (1, 'c', true),
            (2, 'a', true),
            (2, 'b', true),
            (2, 'c', true)
        ]
    );
    let empty: Vec<u8> = vec![];
    assert!(cartesian_product(&xs, &empty).is_empty());
}

#[test]
fn default_rules_have_no_bounds() {
    let rules: DomainRules<f64> = DomainRules::default();
    assert_eq!(rules.technical_indicators.period_min, None);
    assert_eq!(rules.technical_indicators.std_dev_max, None);
    assert_eq!(rules.trading_rules.stop_loss_min, None);
    assert_eq!(rules.risk_management.max_concurrent_positions, None);
    assert_eq!(rules.market_hours.trading_start_hour, None);
}

#[test]
fn backtest_route_follows_the_mode_kind() {
    assert_eq!(
        BacktestEngine::new(ComputeMode::CPU { threads: 1 }).route(),
        BacktestRoute::EachParameterOnCpu
    );
    assert_eq!(
        BacktestEngine::new(ComputeMode::CPU { threads: 16 }).route(),
        BacktestRoute::EachParameterOnCpu
    );
    assert_eq!(
        BacktestEngine::new(ComputeMode::GPU { cuda_device: 3 }).route(),
        BacktestRoute::WholeGridOnGpu
    );
}
